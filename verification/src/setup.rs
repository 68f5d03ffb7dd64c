//! Construction of the authentication state from configuration.

use vstd::prelude::*;

use crate::authentication::{
    Authentication, AuthenticationConfig, IntrospectionOutagePolicy,
    ValidationStrategy,
};
use crate::authorise;
use crate::authorise::ScopePolicy;
use crate::discovery;
use crate::discovery::{Client, DiscoveryClient, DiscoveryDocument, DiscoveryError, Refusal};
use crate::introspection::{
    Introspection, IntrospectionPolicy, IntrospectionValidator, OutagePolicy,
    DEFAULT_CACHE_CAPACITY,
};
use crate::jwks::{JwksCache, KeyCache};
use crate::jwt::{Jwt, JwtValidator};
use crate::middleware::{Auth, AuthState};
use crate::names::NameSet;
use crate::secret::Secret;
use crate::strategy::{Strategy, Validator};
use crate::text;
use crate::validator::{Checks, ClaimChecks};

verus! {

/// Nanoseconds in a second.
pub const NANOS_PER_SECOND: u128 = 1_000_000_000;

/// A failure to assemble the authentication state.
#[derive(Debug)]
pub enum AuthSetupError {
    /// The configuration names no issuer.
    NoIssuer,
    /// The discovery document could not be obtained.
    Discovery(DiscoveryError),
    /// The discovery document advertises no introspection endpoint.
    NoIntrospectionEndpoint,
    /// Introspection is configured without a client identifier.
    MissingClientId,
    /// Introspection is configured without a client secret.
    MissingClientSecret,
    /// The client secret could not be resolved.
    Credential { credential: String, reason: String },
}

/// A setup failure as a mathematical value.
pub enum SetupFailure {
    NoIssuer,
    Discovery(Refusal),
    NoIntrospectionEndpoint,
    MissingClientId,
    MissingClientSecret,
    Credential(Seq<char>, Seq<char>),
}

impl View for AuthSetupError {
    type V = SetupFailure;

    open spec fn view(&self) -> SetupFailure {
        match self {
            AuthSetupError::NoIssuer => SetupFailure::NoIssuer,
            AuthSetupError::Discovery(e) => SetupFailure::Discovery(e@),
            AuthSetupError::NoIntrospectionEndpoint => SetupFailure::NoIntrospectionEndpoint,
            AuthSetupError::MissingClientId => SetupFailure::MissingClientId,
            AuthSetupError::MissingClientSecret => SetupFailure::MissingClientSecret,
            AuthSetupError::Credential { credential, reason } => SetupFailure::Credential(
                credential@,
                reason@,
            ),
        }
    }
}

/// The message of a setup failure.
pub open spec fn setup_message(f: SetupFailure) -> Seq<char> {
    match f {
        SetupFailure::NoIssuer => "authentication configuration names no issuer"@,
        SetupFailure::Discovery(r) => "could not fetch the issuer's discovery document: "@
            + discovery::refusal_message(r),
        SetupFailure::NoIntrospectionEndpoint =>
            "the discovery document advertises no introspection endpoint"@,
        SetupFailure::MissingClientId => "introspection requires a client_id"@,
        SetupFailure::MissingClientSecret => "introspection requires a client_secret_credential"@,
        SetupFailure::Credential(credential, reason) =>
            "could not resolve introspection client secret '"@ + credential + "': "@ + reason,
    }
}

impl AuthSetupError {
    /// The message shown to operators.
    pub fn message(&self) -> (m: String)
        ensures
            m@ == setup_message(self@),
    {
        match self {
            AuthSetupError::NoIssuer => "authentication configuration names no issuer".to_owned(),
            AuthSetupError::Discovery(e) => {
                let mut m = String::from_str("could not fetch the issuer's discovery document: ");
                let shown = e.message();
                m.append(shown.as_str());
                m
            },
            AuthSetupError::NoIntrospectionEndpoint =>
                "the discovery document advertises no introspection endpoint".to_owned(),
            AuthSetupError::MissingClientId => "introspection requires a client_id".to_owned(),
            AuthSetupError::MissingClientSecret =>
                "introspection requires a client_secret_credential".to_owned(),
            AuthSetupError::Credential { credential, reason } => {
                let mut m = String::from_str("could not resolve introspection client secret '");
                m.append(credential.as_str());
                m.append("': ");
                m.append(reason.as_str());
                m
            },
        }
    }
}

/// The configured issuer.
pub fn issuer_url(config: &AuthenticationConfig) -> (r: Result<String, AuthSetupError>)
    ensures
        if config@.issuer.len() > 0 {
            r matches Ok(url) && url@ == config@.issuer[0]
        } else {
            r matches Err(e) && e is NoIssuer
        },
{
    if config.issuer.len() > 0 {
        Ok(config.issuer[0].url.clone())
    } else {
        Err(AuthSetupError::NoIssuer)
    }
}

/// The certificate pins of a configuration; `None` where it lists none.
pub open spec fn certificate_pins(a: Authentication) -> Option<Seq<Seq<char>>> {
    match a.trust_anchors {
        Some(t) if t.authorization_server_certificate_spki_pins.len() > 0 => Some(
            t.authorization_server_certificate_spki_pins,
        ),
        _ => None,
    }
}

/// The certificate pins that every request to the authorisation server has to
/// meet; `None` where the system's certificates are trusted.
pub fn auth_certificate_pins(config: &AuthenticationConfig) -> (pins: Option<Vec<String>>)
    ensures
        text::opt_views(pins) == certificate_pins(config@),
{
    match &config.trust_anchors {
        Some(anchors) => if anchors.authorization_server_certificate_spki_pins.len() > 0 {
            Some(text::copy_all(&anchors.authorization_server_certificate_spki_pins))
        } else {
            None
        },
        None => None,
    }
}

/// A discovery client for the issuer, with the configured trust anchors.
pub fn discovery_client(config: &AuthenticationConfig, issuer_url: &str) -> (client:
    DiscoveryClient)
    ensures
        client@ == (Client {
            issuer_url: issuer_url@,
            discovery_document_sha256: match config@.trust_anchors {
                Some(t) => t.discovery_document_sha256,
                None => None,
            },
            spki_pins: certificate_pins(config@),
        }),
{
    let mut client = DiscoveryClient::new(issuer_url.to_owned());
    if let Some(anchors) = &config.trust_anchors {
        if let Some(pin) = &anchors.discovery_document_sha256 {
            client = client.with_discovery_document_sha256(pin.clone());
        }
        if anchors.authorization_server_certificate_spki_pins.len() > 0 {
            client = client.with_spki_pins(&anchors.authorization_server_certificate_spki_pins);
        }
    }
    client
}

/// The claim checks of a configuration.
pub open spec fn checks_of(a: Authentication, issuer_url: Seq<char>) -> Checks {
    Checks {
        issuer_url,
        resource: a.resource,
        principal_subjects: a.principal_subjects.to_set(),
        clock_skew: (a.clock_skew_seconds * NANOS_PER_SECOND) as u128,
    }
}

/// The claim checks that both strategies apply.
pub fn claim_checks(config: &AuthenticationConfig, issuer_url: &str) -> (checks: ClaimChecks)
    ensures
        checks@ == checks_of(config@, issuer_url@),
{
    ClaimChecks::new(
        issuer_url.to_owned(),
        config.resource.clone(),
        NameSet::from_list(&config.principal_subjects),
        config.clock_skew_seconds as u128 * NANOS_PER_SECOND,
    )
}

/// The JWT validator of a configuration: key identifiers are pinned where
/// the configuration lists any.
pub open spec fn jwt_of(a: Authentication, issuer_url: Seq<char>, jwks_uri: Seq<char>) -> Jwt {
    Jwt {
        checks: checks_of(a, issuer_url),
        kid_pins: match a.trust_anchors {
            Some(t) => if t.jwks_kid_pins.len() > 0 {
                Some(t.jwks_kid_pins.to_set())
            } else {
                None
            },
            None => None,
        },
        reference_time: None,
        jwks: KeyCache { jwks_uri, keys: None, last_missed_refresh: None },
    }
}

/// Build the JWT validator.
pub fn jwt_validator(
    config: &AuthenticationConfig,
    issuer_url: &str,
    document: &DiscoveryDocument,
) -> (v: JwtValidator)
    ensures
        v@ == jwt_of(config@, issuer_url@, document.jwks_uri@),
{
    let v = JwtValidator::new(
        issuer_url.to_owned(),
        config.resource.clone(),
        NameSet::from_list(&config.principal_subjects),
        config.clock_skew_seconds as u128 * NANOS_PER_SECOND,
        JwksCache::new(document.jwks_uri.clone()),
    );
    match &config.trust_anchors {
        Some(anchors) => if anchors.jwks_kid_pins.len() > 0 {
            v.with_kid_pins(NameSet::from_list(&anchors.jwks_kid_pins))
        } else {
            v
        },
        None => v,
    }
}

/// What introspection needs: the endpoint, the client identifier and the
/// name of the credential that holds the client secret.
pub open spec fn introspection_needs(
    a: Authentication,
    endpoint: Option<Seq<char>>,
) -> Result<(Seq<char>, Seq<char>, Seq<char>), SetupFailure> {
    match endpoint {
        None => Err(SetupFailure::NoIntrospectionEndpoint),
        Some(endpoint) => match a.client_id {
            None => Err(SetupFailure::MissingClientId),
            Some(client) => match a.client_secret_credential {
                None => Err(SetupFailure::MissingClientSecret),
                Some(credential) => Ok((endpoint, client, credential)),
            },
        },
    }
}

/// Work out what introspection needs.
pub fn introspection_requirements(config: &AuthenticationConfig, document: &DiscoveryDocument) -> (r:
    Result<(String, String, String), AuthSetupError>)
    ensures
        match introspection_needs(config@, text::opt(document.introspection_endpoint)) {
            Ok(needs) => r matches Ok(n) && n.0@ == needs.0 && n.1@ == needs.1 && n.2@ == needs.2,
            Err(f) => r matches Err(e) && e@ == f,
        },
{
    let endpoint = match &document.introspection_endpoint {
        Some(endpoint) => endpoint.clone(),
        None => {
            return Err(AuthSetupError::NoIntrospectionEndpoint);
        },
    };
    let client_id = match &config.client_id {
        Some(id) => id.clone(),
        None => {
            return Err(AuthSetupError::MissingClientId);
        },
    };
    match &config.client_secret_credential {
        Some(credential) => Ok((endpoint, client_id, credential.clone())),
        None => Err(AuthSetupError::MissingClientSecret),
    }
}

/// The introspection policy of a configuration.
pub open spec fn policy_of(a: Authentication) -> IntrospectionPolicy {
    IntrospectionPolicy {
        cache_ttl: (a.introspection_cache_seconds * NANOS_PER_SECOND) as u128,
        outage: match a.introspection_outage_policy {
            IntrospectionOutagePolicy::FailClosed => OutagePolicy::FailClosed,
            IntrospectionOutagePolicy::ServeCached => OutagePolicy::ServeCached,
        },
        max_stale: (a.introspection_max_stale_seconds * NANOS_PER_SECOND) as u128,
    }
}

/// The introspection validator of a configuration, given the outcome of
/// resolving the client secret.
pub open spec fn introspection_of(
    a: Authentication,
    issuer_url: Seq<char>,
    endpoint: Option<Seq<char>>,
    secret: Result<Seq<char>, Seq<char>>,
) -> Result<Introspection, SetupFailure> {
    match introspection_needs(a, endpoint) {
        Err(f) => Err(f),
        Ok((endpoint, client, credential)) => match secret {
            Err(reason) => Err(SetupFailure::Credential(credential, reason)),
            Ok(value) => Ok(
                Introspection {
                    introspection_endpoint: endpoint,
                    client_id: client,
                    client_secret: value,
                    checks: checks_of(a, issuer_url),
                    policy: policy_of(a),
                    cache: Seq::empty(),
                    capacity: DEFAULT_CACHE_CAPACITY as nat,
                },
            ),
        },
    }
}

/// The outcome of resolving a secret as a mathematical value.
pub open spec fn secret_value(secret: Result<Secret, String>) -> Result<Seq<char>, Seq<char>> {
    match secret {
        Ok(s) => Ok(s@),
        Err(e) => Err(e@),
    }
}

/// Build the introspection validator, given the outcome of resolving the
/// client secret.
pub fn introspection_validator(
    config: &AuthenticationConfig,
    issuer_url: &str,
    document: &DiscoveryDocument,
    secret: Result<Secret, String>,
) -> (r: Result<IntrospectionValidator, AuthSetupError>)
    ensures
        match introspection_of(
            config@,
            issuer_url@,
            text::opt(document.introspection_endpoint),
            secret_value(secret),
        ) {
            Ok(v) => r matches Ok(x) && x@ == v,
            Err(f) => r matches Err(e) && e@ == f,
        },
{
    let (endpoint, client_id, credential) = match introspection_requirements(config, document) {
        Ok(needs) => needs,
        Err(e) => {
            return Err(e);
        },
    };
    let secret = match secret {
        Ok(secret) => secret,
        Err(reason) => {
            return Err(AuthSetupError::Credential { credential, reason });
        },
    };
    let policy = IntrospectionPolicy {
        cache_ttl: config.introspection_cache_seconds as u128 * NANOS_PER_SECOND,
        outage: match config.introspection_outage_policy {
            IntrospectionOutagePolicy::FailClosed => OutagePolicy::FailClosed,
            IntrospectionOutagePolicy::ServeCached => OutagePolicy::ServeCached,
        },
        max_stale: config.introspection_max_stale_seconds as u128 * NANOS_PER_SECOND,
    };
    Ok(
        IntrospectionValidator::new(
            endpoint,
            client_id,
            secret,
            claim_checks(config, issuer_url),
            policy,
        ),
    )
}

/// The validation strategy of a configuration.
pub open spec fn strategy_of(
    a: Authentication,
    d: DiscoveryDocument,
    secret: Result<Seq<char>, Seq<char>>,
) -> Result<Strategy, SetupFailure> {
    if a.issuer.len() == 0 {
        Err(SetupFailure::NoIssuer)
    } else {
        match a.validation {
            ValidationStrategy::Jwt => Ok(Strategy::Jwt(jwt_of(a, a.issuer[0], d.jwks_uri@))),
            ValidationStrategy::Introspection => match introspection_of(
                a,
                a.issuer[0],
                text::opt(d.introspection_endpoint),
                secret,
            ) {
                Ok(v) => Ok(Strategy::Introspection(v)),
                Err(f) => Err(f),
            },
        }
    }
}

/// Assemble the authentication state from a discovery document. `secret` is
/// the outcome of resolving the introspection client secret; local
/// validation does not look at it.
pub fn assemble_auth_state(
    config: &AuthenticationConfig,
    document: &DiscoveryDocument,
    secret: Result<Secret, String>,
) -> (r: Result<AuthState, AuthSetupError>)
    ensures
        match strategy_of(config@, *document, secret_value(secret)) {
            Ok(validator) => r matches Ok(state) && state@ == (Auth {
                validator,
                realm: config@.resource,
                resource_metadata_url: discovery::well_known(
                    config@.resource,
                    "oauth-protected-resource"@,
                ),
                scope_policy: authorise::scope_sets(config.server_scopes@),
            }),
            Err(f) => r matches Err(e) && e@ == f,
        },
{
    let issuer = match issuer_url(config) {
        Ok(url) => url,
        Err(e) => {
            return Err(e);
        },
    };
    let validator = match config.validation {
        ValidationStrategy::Jwt => Validator::Jwt(
            jwt_validator(config, issuer.as_str(), document),
        ),
        ValidationStrategy::Introspection => match introspection_validator(
            config,
            issuer.as_str(),
            document,
            secret,
        ) {
            Ok(v) => Validator::Introspection(v),
            Err(e) => {
                return Err(e);
            },
        },
    };
    let metadata_url = discovery::well_known_url(
        config.resource.as_str(),
        "oauth-protected-resource",
    );
    Ok(
        AuthState::new(
            validator,
            config.resource.as_str(),
            metadata_url.as_str(),
            ScopePolicy::new(&config.server_scopes),
        ),
    )
}

// ---------------------------------------------------------------------------
// Laws
// ---------------------------------------------------------------------------

/// The checks of a configuration are its issuer, its resource, its principals
/// and its clock skew in nanoseconds.
pub proof fn checks_follow_the_configuration(
    a: Authentication,
    issuer: Seq<char>,
    subject: Seq<char>,
)
    ensures
        ({
            let c = checks_of(a, issuer);
            &&& c.issuer_url == issuer
            &&& c.resource == a.resource
            &&& c.principal_subjects.contains(subject) <==> exists|i: int|
                0 <= i < a.principal_subjects.len() && #[trigger] a.principal_subjects[i] == subject
            &&& c.clock_skew == a.clock_skew_seconds * 1_000_000_000
        }),
{
    if a.principal_subjects.contains(subject) {
        let i = choose|i: int|
            0 <= i < a.principal_subjects.len() && a.principal_subjects[i] == subject;
        assert(a.principal_subjects[i] == subject);
    }
}

/// Certificates are pinned to the listed keys where any are listed, and key
/// ids are pinned in the same way; an empty list pins nothing. A validator
/// begins without keys and by the clock.
pub proof fn pins_apply_where_they_are_listed(
    a: Authentication,
    issuer: Seq<char>,
    uri: Seq<char>,
    kid: Seq<char>,
)
    ensures
        ({
            let v = jwt_of(a, issuer, uri);
            let keys = match a.trust_anchors {
                Some(t) => t.jwks_kid_pins,
                None => Seq::empty(),
            };
            let certificates = match a.trust_anchors {
                Some(t) => t.authorization_server_certificate_spki_pins,
                None => Seq::empty(),
            };
            &&& keys.len() == 0 <==> v.kid_pins is None
            &&& v.kid_pins matches Some(pins) ==> (pins.contains(kid) <==> keys.contains(kid))
            &&& v.checks == checks_of(a, issuer)
            &&& v.reference_time is None
            &&& v.jwks.jwks_uri == uri
            &&& v.jwks.keys is None
            &&& v.jwks.last_missed_refresh is None
            &&& certificates.len() == 0 <==> certificate_pins(a) is None
            &&& certificate_pins(a) matches Some(pins) ==> pins == certificates
        }),
{
}

/// Introspection needs an endpoint, a client id and the name of a credential,
/// and is not set up without one of them or without the value of the
/// credential; what is lacking is reported in that order.
pub proof fn introspection_is_set_up_with_all_it_needs(
    a: Authentication,
    issuer: Seq<char>,
    endpoint: Option<Seq<char>>,
    secret: Result<Seq<char>, Seq<char>>,
)
    ensures
        ({
            let outcome = introspection_of(a, issuer, endpoint, secret);
            if endpoint is None {
                outcome == Err::<Introspection, _>(SetupFailure::NoIntrospectionEndpoint)
            } else if a.client_id is None {
                outcome == Err::<Introspection, _>(SetupFailure::MissingClientId)
            } else if a.client_secret_credential is None {
                outcome == Err::<Introspection, _>(SetupFailure::MissingClientSecret)
            } else {
                match secret {
                    Err(reason) => outcome == Err::<Introspection, _>(
                        SetupFailure::Credential(a.client_secret_credential->Some_0, reason),
                    ),
                    Ok(value) => outcome matches Ok(v) && {
                        &&& v.introspection_endpoint == endpoint->Some_0
                        &&& v.client_id == a.client_id->Some_0
                        &&& v.client_secret == value
                        &&& v.checks == checks_of(a, issuer)
                        &&& v.policy == policy_of(a)
                        &&& v.cache.len() == 0
                        &&& v.capacity == 4096
                    },
                }
            }
        }),
        introspection_needs(a, endpoint) matches Ok(needs) ==> endpoint == Some(needs.0)
            && a.client_id == Some(needs.1) && a.client_secret_credential == Some(needs.2),
        endpoint is Some && a.client_id is Some && a.client_secret_credential is Some
            <==> introspection_needs(a, endpoint) is Ok,
{
}

/// The times of the configuration are seconds and those of the policy
/// nanoseconds, and cached answers serve in an outage only where the
/// configuration says so.
pub proof fn policies_follow_the_configuration(a: Authentication)
    ensures
        policy_of(a).cache_ttl == a.introspection_cache_seconds * 1_000_000_000,
        policy_of(a).max_stale == a.introspection_max_stale_seconds * 1_000_000_000,
        policy_of(a).outage is ServeCached <==> a.introspection_outage_policy is ServeCached,
        policy_of(a).outage is FailClosed <==> a.introspection_outage_policy is FailClosed,
{
}

/// Tokens are validated in the way that the configuration names, against its
/// first issuer; without an issuer nothing is set up.
pub proof fn strategies_follow_the_configuration(
    a: Authentication,
    d: DiscoveryDocument,
    secret: Result<Seq<char>, Seq<char>>,
)
    ensures
        a.issuer.len() == 0 ==> strategy_of(a, d, secret) == Err::<Strategy, _>(
            SetupFailure::NoIssuer,
        ),
        a.issuer.len() > 0 && a.validation is Jwt ==> strategy_of(a, d, secret) == Ok::<
            _,
            SetupFailure,
        >(Strategy::Jwt(jwt_of(a, a.issuer[0], d.jwks_uri@))),
        a.issuer.len() > 0 && a.validation is Introspection ==> match introspection_of(
            a,
            a.issuer[0],
            match d.introspection_endpoint {
                Some(url) => Some(url@),
                None => None,
            },
            secret,
        ) {
            Ok(v) => strategy_of(a, d, secret) == Ok::<_, SetupFailure>(Strategy::Introspection(v)),
            Err(f) => strategy_of(a, d, secret) == Err::<Strategy, _>(f),
        },
        forall|s: Secret| #[trigger] secret_value(Ok(s)) == Ok::<_, Seq<char>>(s@),
        forall|e: String| #[trigger] secret_value(Err(e)) == Err::<Seq<char>, _>(e@),
{
}

/// A failure to set up says what it was about.
pub proof fn setup_failures_hold_their_reason(a: Seq<char>, b: Seq<char>, r: Refusal)
    ensures
        text::mentions(setup_message(SetupFailure::Discovery(r)), discovery::refusal_message(r)),
        text::mentions(setup_message(SetupFailure::Credential(a, b)), a),
        text::mentions(setup_message(SetupFailure::Credential(a, b)), b),
{
    let none = Seq::<char>::empty();
    text::lemma_mentions(
        "could not fetch the issuer's discovery document: "@,
        discovery::refusal_message(r),
        none,
    );
    let lead = "could not resolve introspection client secret '"@;
    assert(lead + a + "': "@ + b =~= lead + a + ("': "@ + b));
    text::lemma_mentions(lead, a, "': "@ + b);
    text::lemma_mentions(lead + a + "': "@, b, none);
}

/// The issuer is the first that the configuration names, and the client that
/// fetches its document has the pins of the configuration.
pub proof fn clients_follow_the_configuration(
    config: &AuthenticationConfig,
    issuer: &str,
    r: Result<String, AuthSetupError>,
    client: DiscoveryClient,
)
    requires
        call_ensures(issuer_url, (config,), r),
        call_ensures(discovery_client, (config, issuer), client),
    ensures
        r is Ok <==> config.issuer@.len() > 0,
        r matches Ok(url) ==> url@ == config.issuer@[0].url@,
        r matches Err(e) ==> e is NoIssuer,
        client@.issuer_url == issuer@,
        client@.spki_pins == certificate_pins(config@),
        client@.discovery_document_sha256 == match config@.trust_anchors {
            Some(t) => t.discovery_document_sha256,
            None => None,
        },
{
}

/// The state that is assembled answers for the resource of the configuration,
/// points at the metadata of the resource, and enforces the configured scopes.
pub proof fn states_follow_the_configuration(
    config: &AuthenticationConfig,
    document: &DiscoveryDocument,
    secret: Result<Secret, String>,
    r: Result<AuthState, AuthSetupError>,
)
    requires
        call_ensures(assemble_auth_state, (config, document, secret), r),
    ensures
        r matches Ok(state) ==> {
            &&& state@.realm == config@.resource
            &&& state@.resource_metadata_url == discovery::well_known(
                config@.resource,
                "oauth-protected-resource"@,
            )
            &&& state@.scope_policy == authorise::scope_sets(config.server_scopes@)
            &&& state@.validator is Jwt <==> config.validation is Jwt
        },
        config.issuer@.len() == 0 ==> r is Err,
        config.issuer@.len() > 0 && config.validation is Jwt ==> r is Ok,
{
}

} // verus!

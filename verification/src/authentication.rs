//! Inbound authentication configuration.
//!
//! The gateway is an OAuth 2.1 resource server when the `authentication`
//! section is present. The section names the authorisation server, the
//! resource URL the gateway answers for, the principals it admits, and the
//! scopes that each backend server asks for.

use vstd::prelude::*;

use crate::cors;
use crate::names;
use crate::names::NameMap;
use crate::server::ServerDefinition;
use crate::text;

verus! {

/// The largest clock skew that a configuration may ask for, in seconds.
pub const MAXIMUM_CLOCK_SKEW_SECONDS: u64 = 300;

/// The largest staleness window that a configuration may ask for, in
/// seconds.
pub const MAXIMUM_INTROSPECTION_MAX_STALE_SECONDS: u64 = 300;

/// One authorisation server.
#[derive(Debug)]
pub struct IssuerConfig {
    /// The issuer URL.
    pub url: String,
}

/// The `issuer` field as a configuration may write it.
#[derive(Debug)]
pub enum IssuerField {
    /// One issuer URL.
    Single(String),
    /// A list of issuer URLs.
    Many(Vec<String>),
}

/// The issuer URLs of the field.
pub open spec fn field_urls(field: IssuerField) -> Seq<Seq<char>> {
    match field {
        IssuerField::Single(url) => seq![url@],
        IssuerField::Many(urls) => text::views(urls@),
    }
}

/// The issuers that the field names, in order.
pub fn issuers_of(field: IssuerField) -> (issuers: Vec<IssuerConfig>)
    ensures
        issuer_urls(issuers@) == field_urls(field),
{
    let mut issuers: Vec<IssuerConfig> = Vec::new();
    match field {
        IssuerField::Single(url) => {
            issuers.push(IssuerConfig { url });
            assert(issuer_urls(issuers@) =~= field_urls(field));
        },
        IssuerField::Many(urls) => {
            let mut i: usize = 0;
            assert(issuer_urls(issuers@) =~= text::views(urls@).take(0));
            while i < urls.len()
                invariant
                    i <= urls@.len(),
                    issuer_urls(issuers@) == text::views(urls@).take(i as int),
                decreases urls.len() - i,
            {
                let ghost before = issuer_urls(issuers@);
                issuers.push(IssuerConfig { url: urls[i].clone() });
                i = i + 1;
                proof {
                    let all = text::views(urls@);
                    assert(issuer_urls(issuers@) =~= before.push(all[i - 1]));
                    assert(all.take(i as int) =~= all.take(i - 1).push(all[i - 1]));
                }
            }
            assert(text::views(urls@).take(urls@.len() as int) =~= text::views(urls@));
        },
    }
    issuers
}

/// Optional pins on the authorisation server's discovery document, key set
/// and TLS certificate.
#[derive(Debug)]
pub struct TrustAnchorsConfig {
    /// Expected SHA-256 of the discovery document body, in hex.
    pub discovery_document_sha256: Option<String>,
    /// Key identifiers that tokens may be signed with.
    pub jwks_kid_pins: Vec<String>,
    /// SHA-256 pins of the server certificate's public key, in base64.
    pub authorization_server_certificate_spki_pins: Vec<String>,
}

/// CORS allow-list for browser clients.
#[derive(Debug)]
pub struct CorsConfig {
    /// Origins that may call the gateway from a browser.
    pub allowed_origins: Vec<String>,
    /// Request headers that browsers may send.
    pub allowed_headers: Vec<String>,
    /// `Access-Control-Max-Age`, in seconds.
    pub max_age_seconds: u64,
}

/// How inbound tokens are validated.
#[derive(Debug, Clone, Copy, PartialEq, Eq, Structural)]
pub enum ValidationStrategy {
    /// Locally, as JWTs against the cached key set.
    Jwt,
    /// Remotely, by RFC 7662 introspection.
    Introspection,
}

/// What happens while the introspection endpoint is unreachable.
#[derive(Debug, Clone, Copy, PartialEq, Eq, Structural)]
pub enum IntrospectionOutagePolicy {
    /// Reject the request.
    FailClosed,
    /// Honour cached positive answers for a bounded time.
    ServeCached,
}

/// The inbound authentication section of the configuration.
pub struct AuthenticationConfig {
    /// The authorisation servers.
    pub issuer: Vec<IssuerConfig>,
    /// The public URL of this gateway, the audience of every token.
    pub resource: String,
    /// Documentation URL published in the resource metadata.
    pub resource_documentation_url: Option<String>,
    /// Client identifier presented at the introspection endpoint.
    pub client_id: Option<String>,
    /// Name of the credential that holds the client secret.
    pub client_secret_credential: Option<String>,
    /// The `sub` values that are admitted.
    pub principal_subjects: Vec<String>,
    /// How tokens are validated.
    pub validation: ValidationStrategy,
    /// Tolerance of the `exp` and `nbf` checks, in seconds.
    pub clock_skew_seconds: u64,
    /// Lifetime of the cached key set, in seconds.
    pub jwks_cache_seconds: u64,
    /// Lifetime of the cached discovery document, in seconds.
    pub discovery_cache_seconds: u64,
    /// Lifetime of cached introspection answers, in seconds.
    pub introspection_cache_seconds: u64,
    /// What happens while the introspection endpoint is unreachable.
    pub introspection_outage_policy: IntrospectionOutagePolicy,
    /// Staleness that `ServeCached` tolerates, in seconds.
    pub introspection_max_stale_seconds: u64,
    /// Pins on the authorisation server.
    pub trust_anchors: Option<TrustAnchorsConfig>,
    /// CORS allow-list.
    pub cors: CorsConfig,
    /// The scopes that admit a token to each server.
    pub server_scopes: NameMap<Vec<String>>,
}

// ---------------------------------------------------------------------------
// Mathematical models
// ---------------------------------------------------------------------------

/// `TrustAnchorsConfig` as a mathematical value.
pub struct TrustAnchors {
    pub discovery_document_sha256: Option<Seq<char>>,
    pub jwks_kid_pins: Seq<Seq<char>>,
    pub authorization_server_certificate_spki_pins: Seq<Seq<char>>,
}

/// `CorsConfig` as a mathematical value.
pub struct Cors {
    pub allowed_origins: Seq<Seq<char>>,
    pub allowed_headers: Seq<Seq<char>>,
    pub max_age_seconds: u64,
}

/// `AuthenticationConfig` as a mathematical value.
pub struct Authentication {
    pub issuer: Seq<Seq<char>>,
    pub resource: Seq<char>,
    pub resource_documentation_url: Option<Seq<char>>,
    pub client_id: Option<Seq<char>>,
    pub client_secret_credential: Option<Seq<char>>,
    pub principal_subjects: Seq<Seq<char>>,
    pub validation: ValidationStrategy,
    pub clock_skew_seconds: u64,
    pub jwks_cache_seconds: u64,
    pub discovery_cache_seconds: u64,
    pub introspection_cache_seconds: u64,
    pub introspection_outage_policy: IntrospectionOutagePolicy,
    pub introspection_max_stale_seconds: u64,
    pub trust_anchors: Option<TrustAnchors>,
    pub cors: Cors,
    pub server_scopes: Seq<(Seq<char>, Seq<Seq<char>>)>,
}

impl View for IssuerConfig {
    type V = Seq<char>;

    open spec fn view(&self) -> Seq<char> {
        self.url@
    }
}

impl View for TrustAnchorsConfig {
    type V = TrustAnchors;

    open spec fn view(&self) -> TrustAnchors {
        TrustAnchors {
            discovery_document_sha256: text::opt(self.discovery_document_sha256),
            jwks_kid_pins: text::views(self.jwks_kid_pins@),
            authorization_server_certificate_spki_pins: text::views(
                self.authorization_server_certificate_spki_pins@,
            ),
        }
    }
}

impl View for CorsConfig {
    type V = Cors;

    open spec fn view(&self) -> Cors {
        Cors {
            allowed_origins: text::views(self.allowed_origins@),
            allowed_headers: text::views(self.allowed_headers@),
            max_age_seconds: self.max_age_seconds,
        }
    }
}

/// The URLs of a list of issuers.
pub open spec fn issuer_urls(issuers: Seq<IssuerConfig>) -> Seq<Seq<char>> {
    issuers.map_values(|i: IssuerConfig| i@)
}

/// A scope table with its scopes as character sequences.
pub open spec fn scope_table(s: Seq<(Seq<char>, Vec<String>)>) -> Seq<(Seq<char>, Seq<Seq<char>>)> {
    s.map_values(|e: (Seq<char>, Vec<String>)| (e.0, text::views(e.1@)))
}

impl View for AuthenticationConfig {
    type V = Authentication;

    open spec fn view(&self) -> Authentication {
        Authentication {
            issuer: issuer_urls(self.issuer@),
            resource: self.resource@,
            resource_documentation_url: text::opt(self.resource_documentation_url),
            client_id: text::opt(self.client_id),
            client_secret_credential: text::opt(self.client_secret_credential),
            principal_subjects: text::views(self.principal_subjects@),
            validation: self.validation,
            clock_skew_seconds: self.clock_skew_seconds,
            jwks_cache_seconds: self.jwks_cache_seconds,
            discovery_cache_seconds: self.discovery_cache_seconds,
            introspection_cache_seconds: self.introspection_cache_seconds,
            introspection_outage_policy: self.introspection_outage_policy,
            introspection_max_stale_seconds: self.introspection_max_stale_seconds,
            trust_anchors: match self.trust_anchors {
                Some(t) => Some(t@),
                None => None,
            },
            cors: self.cors@,
            server_scopes: scope_table(self.server_scopes@),
        }
    }
}

// ---------------------------------------------------------------------------
// Validation
// ---------------------------------------------------------------------------

/// What is wrong with the list of issuers.
pub open spec fn issuer_faults(a: Authentication) -> Seq<Seq<char>> {
    if a.issuer.len() == 0 {
        seq!["authentication.issuer: at least one entry is required"@]
    } else if a.issuer.len() > 1 {
        seq![
            "authentication.issuer: v0 accepts exactly one entry, found "@ + text::decimal(
                a.issuer.len(),
            ),
        ]
    } else {
        Seq::empty()
    }
}

/// What is wrong with the resource URL.
pub open spec fn resource_faults(a: Authentication) -> Seq<Seq<char>> {
    if a.resource.len() == 0 {
        seq!["authentication.resource: must not be empty"@]
    } else {
        Seq::empty()
    }
}

/// What is wrong with the list of principals.
pub open spec fn principal_faults(a: Authentication) -> Seq<Seq<char>> {
    if a.principal_subjects.len() == 0 {
        seq!["authentication.principal_subjects: at least one principal is required"@]
    } else {
        Seq::empty()
    }
}

/// What introspection lacks.
pub open spec fn introspection_faults(a: Authentication) -> Seq<Seq<char>> {
    let client = if a.client_id is None {
        seq!["authentication.client_id: required when validation is introspection"@]
    } else {
        Seq::empty()
    };
    let secret = if a.client_secret_credential is None {
        seq!["authentication.client_secret_credential: required when validation is introspection"@]
    } else {
        Seq::empty()
    };
    if a.validation == ValidationStrategy::Introspection {
        client + secret
    } else {
        Seq::empty()
    }
}

/// A value above its ceiling.
pub open spec fn ceiling_faults(field: Seq<char>, value: u64, ceiling: u64) -> Seq<Seq<char>> {
    if value > ceiling {
        seq![
            field + ": "@ + text::decimal(value as nat) + " exceeds the "@ + text::decimal(
                ceiling as nat,
            ) + "s ceiling"@,
        ]
    } else {
        Seq::empty()
    }
}

/// What is wrong with the wildcard origin.
pub open spec fn wildcard_faults(origins: Seq<Seq<char>>) -> Seq<Seq<char>> {
    if origins.contains("*"@) {
        seq![
            "authentication.cors.allowed_origins: wildcard \"*\" is rejected; list origins explicitly"@,
        ]
    } else {
        Seq::empty()
    }
}

/// The origins other than the wildcard that are no URL with a scheme and a
/// host, each with a message.
pub open spec fn origin_faults(origins: Seq<Seq<char>>) -> Seq<Seq<char>>
    decreases origins.len(),
{
    if origins.len() == 0 {
        Seq::empty()
    } else {
        let before = origin_faults(origins.drop_last());
        if origins.last() == "*"@ || cors::is_origin(origins.last()) {
            before
        } else {
            before.push(
                "authentication.cors.allowed_origins: \""@ + origins.last()
                    + "\" is not a URL with a scheme and a host"@,
            )
        }
    }
}

/// The request headers that are no header name, each with a message.
pub open spec fn header_faults(headers: Seq<Seq<char>>) -> Seq<Seq<char>>
    decreases headers.len(),
{
    if headers.len() == 0 {
        Seq::empty()
    } else {
        let before = header_faults(headers.drop_last());
        if cors::is_name(headers.last()) {
            before
        } else {
            before.push(
                "authentication.cors.allowed_headers: \""@ + headers.last()
                    + "\" is not a header name"@,
            )
        }
    }
}

/// What is wrong with the CORS section.
pub open spec fn cors_faults(a: Authentication) -> Seq<Seq<char>> {
    wildcard_faults(a.cors.allowed_origins) + origin_faults(a.cors.allowed_origins)
        + header_faults(a.cors.allowed_headers)
}

/// The names of `table` that `servers` does not have, each with a message.
pub open spec fn unknown_server_faults(table: Seq<Seq<char>>, servers: Seq<Seq<char>>) -> Seq<
    Seq<char>,
>
    decreases table.len(),
{
    if table.len() == 0 {
        Seq::empty()
    } else {
        let before = unknown_server_faults(table.drop_last(), servers);
        if servers.contains(table.last()) {
            before
        } else {
            before.push(
                "authentication.server_scopes: \""@ + table.last()
                    + "\" is not present in the servers map"@,
            )
        }
    }
}

/// The names of `servers` that `table` does not have, each with a message.
pub open spec fn missing_scope_faults(table: Seq<Seq<char>>, servers: Seq<Seq<char>>) -> Seq<
    Seq<char>,
>
    decreases servers.len(),
{
    if servers.len() == 0 {
        Seq::empty()
    } else {
        let before = missing_scope_faults(table, servers.drop_last());
        if table.contains(servers.last()) {
            before
        } else {
            before.push(
                "authentication.server_scopes: missing entry for server \""@ + servers.last()
                    + "\"; every server requires at least one scope when authentication is configured"@,
            )
        }
    }
}

/// All that is wrong with an authentication section beside the given
/// servers, in the order in which it is reported.
pub open spec fn faults(a: Authentication, servers: Seq<Seq<char>>) -> Seq<Seq<char>> {
    issuer_faults(a) + resource_faults(a) + principal_faults(a) + introspection_faults(a)
        + ceiling_faults(
        "authentication.clock_skew_seconds"@,
        a.clock_skew_seconds,
        MAXIMUM_CLOCK_SKEW_SECONDS,
    ) + ceiling_faults(
        "authentication.introspection_max_stale_seconds"@,
        a.introspection_max_stale_seconds,
        MAXIMUM_INTROSPECTION_MAX_STALE_SECONDS,
    ) + cors_faults(a) + unknown_server_faults(names::keys(a.server_scopes), servers)
        + missing_scope_faults(names::keys(a.server_scopes), servers)
}

/// Add one message to `errors`.
fn report(errors: &mut Vec<String>, message: &str)
    ensures
        text::views(final(errors)@) == text::views(old(errors)@).push(message@),
{
    errors.push(message.to_owned());
    assert(text::views(errors@) =~= text::views(old(errors)@).push(message@));
}

/// Reject an empty issuer list and a list of more than one.
fn validate_issuer(authentication: &AuthenticationConfig, errors: &mut Vec<String>)
    ensures
        text::views(final(errors)@) == text::views(old(errors)@) + issuer_faults(authentication@),
{
    if authentication.issuer.len() == 0 {
        report(errors, "authentication.issuer: at least one entry is required");
    } else if authentication.issuer.len() > 1 {
        let mut message = String::from_str(
            "authentication.issuer: v0 accepts exactly one entry, found ",
        );
        let count = text::decimal_text(authentication.issuer.len() as u64);
        message.append(count.as_str());
        report(errors, message.as_str());
    }
}

/// Reject an empty resource URL.
fn validate_resource(authentication: &AuthenticationConfig, errors: &mut Vec<String>)
    ensures
        text::views(final(errors)@) == text::views(old(errors)@) + resource_faults(authentication@),
{
    if authentication.resource.as_str().is_empty() {
        report(errors, "authentication.resource: must not be empty");
    }
}

/// Reject an empty list of principals.
fn validate_principal_subjects(authentication: &AuthenticationConfig, errors: &mut Vec<String>)
    ensures
        text::views(final(errors)@) == text::views(old(errors)@) + principal_faults(
            authentication@,
        ),
{
    if authentication.principal_subjects.len() == 0 {
        report(errors, "authentication.principal_subjects: at least one principal is required");
    }
}

/// Ask for the client identity that introspection needs.
fn validate_introspection_requirements(
    authentication: &AuthenticationConfig,
    errors: &mut Vec<String>,
)
    ensures
        text::views(final(errors)@) == text::views(old(errors)@) + introspection_faults(
            authentication@,
        ),
{
    if authentication.validation != ValidationStrategy::Introspection {
        return;
    }
    if authentication.client_id.is_none() {
        report(errors, "authentication.client_id: required when validation is introspection");
    }
    if authentication.client_secret_credential.is_none() {
        report(
            errors,
            "authentication.client_secret_credential: required when validation is introspection",
        );
    }
}

/// Reject a value above its ceiling.
fn validate_ceiling(field: &str, value: u64, ceiling: u64, errors: &mut Vec<String>)
    ensures
        text::views(final(errors)@) == text::views(old(errors)@) + ceiling_faults(
            field@,
            value,
            ceiling,
        ),
{
    if value > ceiling {
        let mut message = field.to_owned();
        message.append(": ");
        let shown = text::decimal_text(value);
        message.append(shown.as_str());
        message.append(" exceeds the ");
        let shown = text::decimal_text(ceiling);
        message.append(shown.as_str());
        message.append("s ceiling");
        report(errors, message.as_str());
    }
}

/// Enforce the ceiling on the clock skew.
fn validate_clock_skew(authentication: &AuthenticationConfig, errors: &mut Vec<String>)
    ensures
        text::views(final(errors)@) == text::views(old(errors)@) + ceiling_faults(
            "authentication.clock_skew_seconds"@,
            authentication@.clock_skew_seconds,
            MAXIMUM_CLOCK_SKEW_SECONDS,
        ),
{
    validate_ceiling(
        "authentication.clock_skew_seconds",
        authentication.clock_skew_seconds,
        MAXIMUM_CLOCK_SKEW_SECONDS,
        errors,
    );
}

/// Enforce the ceiling on the staleness window.
fn validate_introspection_max_stale(authentication: &AuthenticationConfig, errors: &mut Vec<String>)
    ensures
        text::views(final(errors)@) == text::views(old(errors)@) + ceiling_faults(
            "authentication.introspection_max_stale_seconds"@,
            authentication@.introspection_max_stale_seconds,
            MAXIMUM_INTROSPECTION_MAX_STALE_SECONDS,
        ),
{
    validate_ceiling(
        "authentication.introspection_max_stale_seconds",
        authentication.introspection_max_stale_seconds,
        MAXIMUM_INTROSPECTION_MAX_STALE_SECONDS,
        errors,
    );
}

/// Reject the wildcard origin.
fn validate_wildcard(origins: &Vec<String>, errors: &mut Vec<String>)
    ensures
        text::views(final(errors)@) == text::views(old(errors)@) + wildcard_faults(
            text::views(origins@),
        ),
{
    proof {
        text::lemma_listed(origins@, "*"@);
    }
    if text::contains(origins, "*") {
        report(
            errors,
            "authentication.cors.allowed_origins: wildcard \"*\" is rejected; list origins explicitly",
        );
    }
}

/// Reject origins that are no URL with a scheme and a host.
fn validate_origins(origins: &Vec<String>, errors: &mut Vec<String>)
    ensures
        text::views(final(errors)@) == text::views(old(errors)@) + origin_faults(
            text::views(origins@),
        ),
{
    let ghost start = text::views(errors@);
    let ghost all = text::views(origins@);
    let mut i: usize = 0;
    assert(all.take(0) =~= Seq::empty());
    assert(start + Seq::<Seq<char>>::empty() =~= start);
    while i < origins.len()
        invariant
            i <= origins@.len(),
            all == text::views(origins@),
            text::views(errors@) == start + origin_faults(all.take(i as int)),
        decreases origins.len() - i,
    {
        let origin = origins[i].as_str();
        proof {
            assert(all.take(i + 1).drop_last() =~= all.take(i as int));
            assert(all.take(i + 1).last() == origin@);
        }
        if !text::same(origin, "*") && !cors::origin(origin) {
            let mut message = String::from_str("authentication.cors.allowed_origins: \"");
            message.append(origin);
            message.append("\" is not a URL with a scheme and a host");
            report(errors, message.as_str());
        }
        i = i + 1;
    }
    assert(all.take(all.len() as int) =~= all);
}

/// Reject request headers that are no header name.
fn validate_headers(headers: &Vec<String>, errors: &mut Vec<String>)
    ensures
        text::views(final(errors)@) == text::views(old(errors)@) + header_faults(
            text::views(headers@),
        ),
{
    let ghost start = text::views(errors@);
    let ghost all = text::views(headers@);
    let mut i: usize = 0;
    assert(all.take(0) =~= Seq::empty());
    assert(start + Seq::<Seq<char>>::empty() =~= start);
    while i < headers.len()
        invariant
            i <= headers@.len(),
            all == text::views(headers@),
            text::views(errors@) == start + header_faults(all.take(i as int)),
        decreases headers.len() - i,
    {
        let header = headers[i].as_str();
        proof {
            assert(all.take(i + 1).drop_last() =~= all.take(i as int));
            assert(all.take(i + 1).last() == header@);
        }
        if cors::header_name(header).is_none() {
            let mut message = String::from_str("authentication.cors.allowed_headers: \"");
            message.append(header);
            message.append("\" is not a header name");
            report(errors, message.as_str());
        }
        i = i + 1;
    }
    assert(all.take(all.len() as int) =~= all);
}

/// Reject the wildcard origin and malformed entries.
fn validate_cors(authentication: &AuthenticationConfig, errors: &mut Vec<String>)
    ensures
        text::views(final(errors)@) == text::views(old(errors)@) + cors_faults(authentication@),
{
    validate_wildcard(&authentication.cors.allowed_origins, errors);
    validate_origins(&authentication.cors.allowed_origins, errors);
    validate_headers(&authentication.cors.allowed_headers, errors);
}

/// Check that `server_scopes` and `servers` name the same servers.
fn validate_server_scope_cross_references(
    authentication: &AuthenticationConfig,
    servers: &NameMap<ServerDefinition>,
    errors: &mut Vec<String>,
)
    ensures
        text::views(final(errors)@) == text::views(old(errors)@) + unknown_server_faults(
            names::keys(authentication@.server_scopes),
            names::keys(servers@),
        ) + missing_scope_faults(
            names::keys(authentication@.server_scopes),
            names::keys(servers@),
        ),
{
    let ghost table = names::keys(authentication@.server_scopes);
    let ghost present = names::keys(servers@);
    let ghost before = text::views(errors@);
    let scopes = &authentication.server_scopes;
    assert(table =~= names::keys(scopes@));
    let mut i: usize = 0;
    while i < scopes.len()
        invariant
            i <= scopes@.len(),
            table == names::keys(scopes@),
            present == names::keys(servers@),
            text::views(errors@) == before + unknown_server_faults(table.take(i as int), present),
        decreases scopes@.len() - i,
    {
        let name = scopes.key_at(i);
        proof {
            names::lemma_has_key(servers@, name@);
            assert(table.take(i + 1).drop_last() =~= table.take(i as int));
            assert(table.take(i + 1).last() == name@);
        }
        if !servers.contains_key(name.as_str()) {
            let mut message = String::from_str("authentication.server_scopes: \"");
            message.append(name.as_str());
            message.append("\" is not present in the servers map");
            report(errors, message.as_str());
        }
        i = i + 1;
    }
    assert(table.take(table.len() as int) =~= table);
    let ghost middle = text::views(errors@);
    let mut i: usize = 0;
    while i < servers.len()
        invariant
            i <= servers@.len(),
            table == names::keys(scopes@),
            present == names::keys(servers@),
            text::views(errors@) == middle + missing_scope_faults(table, present.take(i as int)),
        decreases servers@.len() - i,
    {
        let name = servers.key_at(i);
        proof {
            names::lemma_has_key(scopes@, name@);
            assert(present.take(i + 1).drop_last() =~= present.take(i as int));
            assert(present.take(i + 1).last() == name@);
        }
        if !scopes.contains_key(name.as_str()) {
            let mut message = String::from_str(
                "authentication.server_scopes: missing entry for server \"",
            );
            message.append(name.as_str());
            message.append(
                "\"; every server requires at least one scope when authentication is configured",
            );
            report(errors, message.as_str());
        }
        i = i + 1;
    }
    assert(present.take(present.len() as int) =~= present);
}

/// Validate the inbound authentication configuration.
///
/// Returns the list of error messages; an empty list means that the
/// configuration is acceptable.
pub fn validate(
    authentication: &AuthenticationConfig,
    servers: &NameMap<ServerDefinition>,
) -> (errors: Vec<String>)
    ensures
        text::views(errors@) == faults(authentication@, names::keys(servers@)),
{
    let mut errors: Vec<String> = Vec::new();
    assert(text::views(errors@) =~= Seq::<Seq<char>>::empty());
    validate_issuer(authentication, &mut errors);
    validate_resource(authentication, &mut errors);
    validate_principal_subjects(authentication, &mut errors);
    validate_introspection_requirements(authentication, &mut errors);
    validate_clock_skew(authentication, &mut errors);
    validate_introspection_max_stale(authentication, &mut errors);
    validate_cors(authentication, &mut errors);
    validate_server_scope_cross_references(authentication, servers, &mut errors);
    errors
}

/// The text of the warning about missing trust anchors.
pub open spec fn trust_anchor_warning() -> Seq<char> {
    "authentication.trust_anchors is absent; the discovery document and JWKS are protected only by HTTPS certificate validation. Hosted deployments should pin discovery_document_sha256, jwks_kid_pins, or authorization_server_certificate_spki_pins."@
}

/// Whether no pin is set.
pub open spec fn unpinned(t: TrustAnchors) -> bool {
    &&& t.discovery_document_sha256 is None
    &&& t.jwks_kid_pins.len() == 0
    &&& t.authorization_server_certificate_spki_pins.len() == 0
}

/// The soft warnings about the authentication configuration. They do not
/// reject it: the only one is about absent trust anchors.
pub fn emit_load_time_warnings(authentication: &AuthenticationConfig) -> (warnings: Vec<String>)
    ensures
        text::views(warnings@) == (match authentication@.trust_anchors {
            Some(t) if !unpinned(t) => Seq::<Seq<char>>::empty(),
            _ => seq![trust_anchor_warning()],
        }),
{
    let pinning_absent = match &authentication.trust_anchors {
        Some(anchors) => anchors.is_empty(),
        None => true,
    };
    let mut warnings: Vec<String> = Vec::new();
    assert(text::views(warnings@) =~= Seq::<Seq<char>>::empty());
    if pinning_absent {
        report(
            &mut warnings,
            "authentication.trust_anchors is absent; the discovery document and JWKS are protected only by HTTPS certificate validation. Hosted deployments should pin discovery_document_sha256, jwks_kid_pins, or authorization_server_certificate_spki_pins.",
        );
        assert(text::views(warnings@) =~= seq![trust_anchor_warning()]);
    }
    warnings
}

// ---------------------------------------------------------------------------
// Defaults and copies
// ---------------------------------------------------------------------------

/// Default of `AuthenticationConfig::clock_skew_seconds`.
pub fn default_clock_skew_seconds() -> (seconds: u64)
    ensures
        seconds == 30,
{
    30
}

/// Default of `AuthenticationConfig::jwks_cache_seconds`.
pub fn default_jwks_cache_seconds() -> (seconds: u64)
    ensures
        seconds == 600,
{
    600
}

/// Default of `AuthenticationConfig::discovery_cache_seconds`.
pub fn default_discovery_cache_seconds() -> (seconds: u64)
    ensures
        seconds == 3600,
{
    3600
}

/// Default of `AuthenticationConfig::introspection_cache_seconds`.
pub fn default_introspection_cache_seconds() -> (seconds: u64)
    ensures
        seconds == 30,
{
    30
}

/// Default of `CorsConfig::max_age_seconds`.
pub fn default_max_age_seconds() -> (seconds: u64)
    ensures
        seconds == 60,
{
    60
}

/// The headers that browser clients need for authenticated requests.
pub open spec fn default_headers() -> Seq<Seq<char>> {
    seq![
        "authorization"@,
        "content-type"@,
        "mcp-session-id"@,
        "traceparent"@,
        "tracestate"@,
    ]
}

/// Default of `CorsConfig::allowed_headers`.
pub fn default_allowed_headers() -> (headers: Vec<String>)
    ensures
        text::views(headers@) == default_headers(),
{
    let mut headers: Vec<String> = Vec::new();
    headers.push("authorization".to_owned());
    headers.push("content-type".to_owned());
    headers.push("mcp-session-id".to_owned());
    headers.push("traceparent".to_owned());
    headers.push("tracestate".to_owned());
    assert(text::views(headers@) =~= default_headers());
    headers
}

impl Default for CorsConfig {
    fn default() -> (cors: Self)
        ensures
            cors@ == (Cors {
                allowed_origins: Seq::empty(),
                allowed_headers: default_headers(),
                max_age_seconds: 60,
            }),
    {
        let cors = CorsConfig {
            allowed_origins: Vec::new(),
            allowed_headers: default_allowed_headers(),
            max_age_seconds: default_max_age_seconds(),
        };
        assert(text::views(cors.allowed_origins@) =~= Seq::<Seq<char>>::empty());
        cors
    }
}

impl Default for TrustAnchorsConfig {
    fn default() -> (anchors: Self)
        ensures
            unpinned(anchors@),
    {
        TrustAnchorsConfig {
            discovery_document_sha256: None,
            jwks_kid_pins: Vec::new(),
            authorization_server_certificate_spki_pins: Vec::new(),
        }
    }
}

impl Default for ValidationStrategy {
    fn default() -> (strategy: Self)
        ensures
            strategy == ValidationStrategy::Jwt,
    {
        ValidationStrategy::Jwt
    }
}

impl Default for IntrospectionOutagePolicy {
    fn default() -> (policy: Self)
        ensures
            policy == IntrospectionOutagePolicy::FailClosed,
    {
        IntrospectionOutagePolicy::FailClosed
    }
}

impl TrustAnchorsConfig {
    /// Whether no pin is set.
    pub fn is_empty(&self) -> (b: bool)
        ensures
            b == unpinned(self@),
    {
        self.discovery_document_sha256.is_none() && self.jwks_kid_pins.len() == 0
            && self.authorization_server_certificate_spki_pins.len() == 0
    }
}

impl Clone for TrustAnchorsConfig {
    fn clone(&self) -> (copy: Self)
        ensures
            copy@ == self@,
    {
        TrustAnchorsConfig {
            discovery_document_sha256: text::copy_opt(&self.discovery_document_sha256),
            jwks_kid_pins: text::copy_all(&self.jwks_kid_pins),
            authorization_server_certificate_spki_pins: text::copy_all(
                &self.authorization_server_certificate_spki_pins,
            ),
        }
    }
}

impl Clone for CorsConfig {
    fn clone(&self) -> (copy: Self)
        ensures
            copy@ == self@,
    {
        CorsConfig {
            allowed_origins: text::copy_all(&self.allowed_origins),
            allowed_headers: text::copy_all(&self.allowed_headers),
            max_age_seconds: self.max_age_seconds,
        }
    }
}

/// A scope table, copied.
pub fn copy_scopes(scopes: &NameMap<Vec<String>>) -> (copy: NameMap<Vec<String>>)
    ensures
        scope_table(copy@) == scope_table(scopes@),
{
    let n = scopes.len();
    let mut copy: NameMap<Vec<String>> = NameMap::new();
    let mut i: usize = 0;
    while i < n
        invariant
            i <= n == scopes@.len(),
            names::distinct(scopes@),
            copy@.len() == i,
            forall|k: int|
                0 <= k < i ==> (#[trigger] copy@[k]).0 == scopes@[k].0 && text::views(copy@[k].1@)
                    == text::views(scopes@[k].1@),
        decreases n - i,
    {
        let name = scopes.key_at(i).clone();
        let list = text::copy_all(scopes.value_at(i));
        proof {
            names::lemma_next_name(copy@, scopes@, list);
        }
        copy.insert(name, list);
        i = i + 1;
    }
    assert(scope_table(copy@) =~= scope_table(scopes@));
    copy
}

/// A list of issuers, copied.
fn copy_issuers(issuers: &Vec<IssuerConfig>) -> (copy: Vec<IssuerConfig>)
    ensures
        issuer_urls(copy@) == issuer_urls(issuers@),
{
    let mut copy: Vec<IssuerConfig> = Vec::new();
    let mut i: usize = 0;
    while i < issuers.len()
        invariant
            i <= issuers.len(),
            issuer_urls(copy@) == issuer_urls(issuers@.take(i as int)),
        decreases issuers.len() - i,
    {
        let ghost before = copy@;
        copy.push(IssuerConfig { url: issuers[i].url.clone() });
        i = i + 1;
        proof {
            assert(issuer_urls(copy@) =~= issuer_urls(before).push(issuers@[i - 1]@));
            assert(issuer_urls(issuers@.take(i as int)) =~= issuer_urls(issuers@.take(i - 1)).push(
                issuers@[i - 1]@,
            ));
        }
    }
    assert(issuers@.take(issuers@.len() as int) =~= issuers@);
    copy
}

impl Clone for AuthenticationConfig {
    fn clone(&self) -> (copy: Self)
        ensures
            copy@ == self@,
    {
        AuthenticationConfig {
            issuer: copy_issuers(&self.issuer),
            resource: self.resource.clone(),
            resource_documentation_url: text::copy_opt(&self.resource_documentation_url),
            client_id: text::copy_opt(&self.client_id),
            client_secret_credential: text::copy_opt(&self.client_secret_credential),
            principal_subjects: text::copy_all(&self.principal_subjects),
            validation: self.validation,
            clock_skew_seconds: self.clock_skew_seconds,
            jwks_cache_seconds: self.jwks_cache_seconds,
            discovery_cache_seconds: self.discovery_cache_seconds,
            introspection_cache_seconds: self.introspection_cache_seconds,
            introspection_outage_policy: self.introspection_outage_policy,
            introspection_max_stale_seconds: self.introspection_max_stale_seconds,
            trust_anchors: match &self.trust_anchors {
                Some(t) => Some(t.clone()),
                None => None,
            },
            cors: self.cors.clone(),
            server_scopes: copy_scopes(&self.server_scopes),
        }
    }
}

// ---------------------------------------------------------------------------
// Laws
// ---------------------------------------------------------------------------

/// Whether two lists of names hold the same names.
pub open spec fn same_names(a: Seq<Seq<char>>, b: Seq<Seq<char>>) -> bool {
    forall|n: Seq<char>| #[trigger] a.contains(n) <==> b.contains(n)
}

/// The rules that an acceptable authentication section meets.
pub open spec fn acceptable(a: Authentication, servers: Seq<Seq<char>>) -> bool {
    &&& a.issuer.len() == 1
    &&& a.resource.len() > 0
    &&& a.principal_subjects.len() > 0
    &&& a.validation == ValidationStrategy::Introspection ==> a.client_id is Some
        && a.client_secret_credential is Some
    &&& a.clock_skew_seconds <= MAXIMUM_CLOCK_SKEW_SECONDS
    &&& a.introspection_max_stale_seconds <= MAXIMUM_INTROSPECTION_MAX_STALE_SECONDS
    &&& !a.cors.allowed_origins.contains("*"@)
    &&& forall|i: int|
        0 <= i < a.cors.allowed_origins.len() ==> cors::is_origin(
            #[trigger] a.cors.allowed_origins[i],
        )
    &&& forall|i: int|
        0 <= i < a.cors.allowed_headers.len() ==> cors::is_name(
            #[trigger] a.cors.allowed_headers[i],
        )
    &&& same_names(names::keys(a.server_scopes), servers)
}

proof fn lemma_unknown_servers(table: Seq<Seq<char>>, servers: Seq<Seq<char>>)
    ensures
        unknown_server_faults(table, servers).len() == 0 <==> forall|i: int|
            0 <= i < table.len() ==> servers.contains(#[trigger] table[i]),
    decreases table.len(),
{
    if table.len() > 0 {
        lemma_unknown_servers(table.drop_last(), servers);
        let n = table.len() - 1;
        if forall|i: int| 0 <= i < table.len() ==> servers.contains(#[trigger] table[i]) {
            assert(servers.contains(table[n]));
            assert forall|i: int| 0 <= i < n implies servers.contains(
                #[trigger] table.drop_last()[i],
            ) by {
                assert(table.drop_last()[i] == table[i]);
            }
        } else {
            let i = choose|i: int| 0 <= i < table.len() && !servers.contains(#[trigger] table[i]);
            if i < n {
                assert(table.drop_last()[i] == table[i]);
            }
        }
    }
}

proof fn lemma_missing_scopes(table: Seq<Seq<char>>, servers: Seq<Seq<char>>)
    ensures
        missing_scope_faults(table, servers).len() == 0 <==> forall|i: int|
            0 <= i < servers.len() ==> table.contains(#[trigger] servers[i]),
    decreases servers.len(),
{
    if servers.len() > 0 {
        lemma_missing_scopes(table, servers.drop_last());
        let n = servers.len() - 1;
        if forall|i: int| 0 <= i < servers.len() ==> table.contains(#[trigger] servers[i]) {
            assert(table.contains(servers[n]));
            assert forall|i: int| 0 <= i < n implies table.contains(
                #[trigger] servers.drop_last()[i],
            ) by {
                assert(servers.drop_last()[i] == servers[i]);
            }
        } else {
            let i = choose|i: int| 0 <= i < servers.len() && !table.contains(#[trigger] servers[i]);
            if i < n {
                assert(servers.drop_last()[i] == servers[i]);
            }
        }
    }
}

proof fn lemma_origins(origins: Seq<Seq<char>>)
    ensures
        origin_faults(origins).len() == 0 <==> forall|i: int|
            0 <= i < origins.len() ==> #[trigger] origins[i] == "*"@ || cors::is_origin(origins[i]),
    decreases origins.len(),
{
    if origins.len() > 0 {
        let first = origins.drop_last();
        lemma_origins(first);
        assert(forall|i: int| 0 <= i < first.len() ==> #[trigger] first[i] == origins[i]);
        assert(forall|i: int| 0 <= i < first.len() ==> #[trigger] origins[i] == first[i]);
        assert(origins[origins.len() - 1] == origins.last());
    }
}

proof fn lemma_headers(headers: Seq<Seq<char>>)
    ensures
        header_faults(headers).len() == 0 <==> forall|i: int|
            0 <= i < headers.len() ==> cors::is_name(#[trigger] headers[i]),
    decreases headers.len(),
{
    if headers.len() > 0 {
        let first = headers.drop_last();
        lemma_headers(first);
        assert(forall|i: int| 0 <= i < first.len() ==> #[trigger] first[i] == headers[i]);
        assert(forall|i: int| 0 <= i < first.len() ==> #[trigger] headers[i] == first[i]);
        assert(headers[headers.len() - 1] == headers.last());
    }
}

/// Validation reports nothing exactly where every rule is met.
pub proof fn no_faults_iff_acceptable(a: Authentication, servers: Seq<Seq<char>>)
    ensures
        faults(a, servers).len() == 0 <==> acceptable(a, servers),
{
    let table = names::keys(a.server_scopes);
    lemma_unknown_servers(table, servers);
    lemma_missing_scopes(table, servers);
    lemma_origins(a.cors.allowed_origins);
    lemma_headers(a.cors.allowed_headers);
    if same_names(table, servers) {
        assert forall|i: int| 0 <= i < table.len() implies servers.contains(#[trigger] table[i]) by {
            assert(table.contains(table[i]));
        }
        assert forall|i: int| 0 <= i < servers.len() implies table.contains(#[trigger] servers[i]) by {
            assert(servers.contains(servers[i]));
        }
    }
    if unknown_server_faults(table, servers).len() == 0 && missing_scope_faults(table, servers).len()
        == 0 {
        assert forall|n: Seq<char>| #[trigger] table.contains(n) <==> servers.contains(n) by {
            if table.contains(n) {
                let i = choose|i: int| 0 <= i < table.len() && table[i] == n;
                assert(servers.contains(table[i]));
            }
            if servers.contains(n) {
                let i = choose|i: int| 0 <= i < servers.len() && servers[i] == n;
                assert(table.contains(servers[i]));
            }
        }
    }
}

/// Every rule is checked on its own, and a broken one is reported once: there
/// is exactly one issuer, a resource, a principal, the credentials that
/// introspection needs, a clock skew and a staleness of at most five minutes
/// each, and no wildcard among the origins.
pub proof fn every_rule_is_checked_on_its_own(
    a: Authentication,
    field: Seq<char>,
    value: u64,
    ceiling: u64,
)
    ensures
        issuer_faults(a).len() == if a.issuer.len() == 1 {
            0int
        } else {
            1int
        },
        resource_faults(a).len() == if a.resource.len() == 0 {
            1int
        } else {
            0int
        },
        principal_faults(a).len() == if a.principal_subjects.len() == 0 {
            1int
        } else {
            0int
        },
        a.validation is Jwt ==> introspection_faults(a).len() == 0,
        a.validation is Introspection ==> introspection_faults(a).len() == (if a.client_id is None {
            1int
        } else {
            0int
        }) + (if a.client_secret_credential is None {
            1int
        } else {
            0int
        }),
        ceiling_faults(field, value, ceiling).len() == if value <= ceiling {
            0int
        } else {
            1int
        },
        value > ceiling ==> {
            let m = ceiling_faults(field, value, ceiling)[0];
            text::mentions(m, field) && text::mentions(m, text::decimal(value as nat))
                && text::mentions(m, text::decimal(ceiling as nat))
        },
        a.issuer.len() > 1 ==> text::mentions(
            issuer_faults(a)[0],
            text::decimal(a.issuer.len()),
        ),
        wildcard_faults(a.cors.allowed_origins).len() == if exists|i: int|
            0 <= i < a.cors.allowed_origins.len() && #[trigger] a.cors.allowed_origins[i] == "*"@ {
            1int
        } else {
            0int
        },
        MAXIMUM_CLOCK_SKEW_SECONDS == 300,
        MAXIMUM_INTROSPECTION_MAX_STALE_SECONDS == 300,
{
    let none = Seq::<char>::empty();
    let count = text::decimal(a.issuer.len());
    text::lemma_mentions("authentication.issuer: v0 accepts exactly one entry, found "@, count, none);
    let (v, c) = (text::decimal(value as nat), text::decimal(ceiling as nat));
    let m = field + ": "@ + v + " exceeds the "@ + c + "s ceiling"@;
    assert(m =~= field + (": "@ + v + " exceeds the "@ + c + "s ceiling"@));
    text::lemma_mentions(none, field, ": "@ + v + " exceeds the "@ + c + "s ceiling"@);
    assert(m =~= field + ": "@ + v + (" exceeds the "@ + c + "s ceiling"@));
    text::lemma_mentions(field + ": "@, v, " exceeds the "@ + c + "s ceiling"@);
    text::lemma_mentions(field + ": "@ + v + " exceeds the "@, c, "s ceiling"@);
    if a.cors.allowed_origins.contains("*"@) {
        let i = choose|i: int|
            0 <= i < a.cors.allowed_origins.len() && a.cors.allowed_origins[i] == "*"@;
        assert(a.cors.allowed_origins[i] == "*"@);
    }
}

/// Every origin that is no URL with a scheme and a host is reported, and so is
/// every request header that is no header name, one by one and by name; the
/// wildcard has a report of its own.
pub proof fn malformed_entries_are_reported_by_name(list: Seq<Seq<char>>, entry: Seq<char>)
    ensures
        origin_faults(Seq::empty()).len() == 0,
        header_faults(Seq::empty()).len() == 0,
        entry == "*"@ || cors::is_origin(entry) ==> origin_faults(list.push(entry))
            == origin_faults(list),
        entry != "*"@ && !cors::is_origin(entry) ==> {
            let after = origin_faults(list.push(entry));
            after.len() == origin_faults(list).len() + 1 && after.drop_last() == origin_faults(list)
                && text::mentions(after.last(), entry)
        },
        cors::is_name(entry) ==> header_faults(list.push(entry)) == header_faults(list),
        !cors::is_name(entry) ==> {
            let after = header_faults(list.push(entry));
            after.len() == header_faults(list).len() + 1 && after.drop_last() == header_faults(list)
                && text::mentions(after.last(), entry)
        },
{
    assert(list.push(entry).drop_last() =~= list);
    text::lemma_mentions(
        "authentication.cors.allowed_origins: \""@,
        entry,
        "\" is not a URL with a scheme and a host"@,
    );
    text::lemma_mentions(
        "authentication.cors.allowed_headers: \""@,
        entry,
        "\" is not a header name"@,
    );
    assert(origin_faults(list.push(entry)).drop_last() =~= origin_faults(list) || entry == "*"@
        || cors::is_origin(entry));
    assert(header_faults(list.push(entry)).drop_last() =~= header_faults(list) || cors::is_name(
        entry,
    ));
}

/// Every name of the scope table that is no server is reported, and so is
/// every server that the table lacks, one by one and by name.
pub proof fn scopes_and_servers_are_matched_by_name(
    table: Seq<Seq<char>>,
    servers: Seq<Seq<char>>,
    name: Seq<char>,
)
    ensures
        unknown_server_faults(Seq::empty(), servers).len() == 0,
        missing_scope_faults(table, Seq::empty()).len() == 0,
        servers.contains(name) ==> unknown_server_faults(table.push(name), servers)
            == unknown_server_faults(table, servers),
        !servers.contains(name) ==> {
            let after = unknown_server_faults(table.push(name), servers);
            after.len() == unknown_server_faults(table, servers).len() + 1 && after.drop_last()
                == unknown_server_faults(table, servers) && text::mentions(after.last(), name)
        },
        table.contains(name) ==> missing_scope_faults(table, servers.push(name))
            == missing_scope_faults(table, servers),
        !table.contains(name) ==> {
            let after = missing_scope_faults(table, servers.push(name));
            after.len() == missing_scope_faults(table, servers).len() + 1 && after.drop_last()
                == missing_scope_faults(table, servers) && text::mentions(after.last(), name)
        },
{
    assert(table.push(name).drop_last() =~= table);
    assert(servers.push(name).drop_last() =~= servers);
    text::lemma_mentions(
        "authentication.server_scopes: \""@,
        name,
        "\" is not present in the servers map"@,
    );
    text::lemma_mentions(
        "authentication.server_scopes: missing entry for server \""@,
        name,
        "\"; every server requires at least one scope when authentication is configured"@,
    );
    assert(servers.contains(name) || unknown_server_faults(table.push(name), servers).drop_last()
        =~= unknown_server_faults(table, servers));
    assert(table.contains(name) || missing_scope_faults(table, servers.push(name)).drop_last()
        =~= missing_scope_faults(table, servers));
}

/// A section is reported for every rule that it breaks, and for nothing else:
/// no report of one rule hides that of another.
pub proof fn reports_of_all_rules_come_together(a: Authentication, servers: Seq<Seq<char>>)
    ensures
        faults(a, servers).len() == issuer_faults(a).len() + resource_faults(a).len()
            + principal_faults(a).len() + introspection_faults(a).len() + (if a.clock_skew_seconds
            > 300 {
            1int
        } else {
            0int
        }) + (if a.introspection_max_stale_seconds > 300 {
            1int
        } else {
            0int
        }) + wildcard_faults(a.cors.allowed_origins).len() + origin_faults(
            a.cors.allowed_origins,
        ).len() + header_faults(a.cors.allowed_headers).len() + unknown_server_faults(
            names::keys(a.server_scopes),
            servers,
        ).len() + missing_scope_faults(names::keys(a.server_scopes), servers).len(),
{
}

/// An authentication section without any pin calls for a warning: pins are the
/// hash of the document, the ids of the keys and the keys of the certificate.
pub proof fn any_pin_is_a_trust_anchor(t: TrustAnchors)
    ensures
        unpinned(t) <==> t.discovery_document_sha256 is None && t.jwks_kid_pins == Seq::<
            Seq<char>,
        >::empty() && t.authorization_server_certificate_spki_pins == Seq::<Seq<char>>::empty(),
{
    if t.jwks_kid_pins.len() == 0 {
        assert(t.jwks_kid_pins =~= Seq::empty());
    }
    if t.authorization_server_certificate_spki_pins.len() == 0 {
        assert(t.authorization_server_certificate_spki_pins =~= Seq::empty());
    }
}

/// An issuer field names one issuer or a list of them, in its order.
pub proof fn issuer_fields_name_their_issuers(field: IssuerField, issuers: Seq<IssuerConfig>, i: int)
    ensures
        field matches IssuerField::Single(url) ==> field_urls(field).len() == 1 && field_urls(
            field,
        )[0] == url@,
        field matches IssuerField::Many(urls) ==> field_urls(field).len() == urls@.len() && (0 <= i
            < urls@.len() ==> field_urls(field)[i] == urls@[i]@),
        issuer_urls(issuers).len() == issuers.len(),
        0 <= i < issuers.len() ==> issuer_urls(issuers)[i] == issuers[i].url@,
{
}

/// By default browsers may send the headers that authenticated requests with a
/// session and a trace need, in that form.
pub proof fn default_headers_serve_authenticated_requests()
    ensures
        default_headers().len() == 5,
        default_headers().contains("authorization"@),
        default_headers().contains("content-type"@),
        default_headers().contains("mcp-session-id"@),
        default_headers().contains("traceparent"@),
        default_headers().contains("tracestate"@),
{
    assert(default_headers()[0] == "authorization"@);
    assert(default_headers()[1] == "content-type"@);
    assert(default_headers()[2] == "mcp-session-id"@);
    assert(default_headers()[3] == "traceparent"@);
    assert(default_headers()[4] == "tracestate"@);
}

/// The defaults of a section are half a minute of skew, ten minutes for keys,
/// an hour for the document, half a minute for answers and a minute for
/// browsers.
pub proof fn defaults_are_short(skew: u64, keys: u64, document: u64, answers: u64, browsers: u64)
    requires
        call_ensures(default_clock_skew_seconds, (), skew),
        call_ensures(default_jwks_cache_seconds, (), keys),
        call_ensures(default_discovery_cache_seconds, (), document),
        call_ensures(default_introspection_cache_seconds, (), answers),
        call_ensures(default_max_age_seconds, (), browsers),
    ensures
        skew == 30 && keys == 600 && document == 3600 && answers == 30 && browsers == 60,
{
}

/// A section without any pin is warned about, and one with a pin is not.
pub proof fn missing_pins_are_warned_about(config: &AuthenticationConfig, warnings: Vec<String>)
    requires
        call_ensures(emit_load_time_warnings, (config,), warnings),
    ensures
        config@.trust_anchors is None ==> warnings@.len() == 1,
        config@.trust_anchors matches Some(t) ==> (t.discovery_document_sha256 is Some
            || t.jwks_kid_pins.len() > 0 || t.authorization_server_certificate_spki_pins.len() > 0
            ==> warnings@.len() == 0),
        config@.trust_anchors matches Some(t) ==> (t.discovery_document_sha256 is None
            && t.jwks_kid_pins.len() == 0 && t.authorization_server_certificate_spki_pins.len() == 0
            ==> warnings@.len() == 1),
{
    assert(text::views(warnings@).len() == warnings@.len());
}

/// A scope table keeps its servers in their order, each with its own scopes.
pub proof fn scope_tables_keep_their_order(table: Seq<(Seq<char>, Vec<String>)>, i: int)
    requires
        0 <= i < table.len(),
    ensures
        scope_table(table).len() == table.len(),
        scope_table(table)[i].0 == table[i].0,
        scope_table(table)[i].1 == text::views(table[i].1@),
{
}

} // verus!

//! Authentication of requests: which challenge answers a refused request.

use vstd::prelude::*;

use crate::authorise;
use crate::authorise::{ScopePolicy, ScopeRejection};
use crate::challenge;
use crate::challenge::{BearerChallenge, Challenge, TokenError};
use crate::claims::{Claims, ValidatedClaims};
use crate::json;
use crate::json::{Json, JsonValue};
use crate::jwks::JwksError;
use crate::names;
use crate::strategy;
use crate::strategy::{Strategy, Validator};
use crate::text;
use crate::validator::FailureReason;

verus! {

/// The JSON-RPC code of a refusal.
pub const ERROR_CODE: i64 = -32001;

/// What the authentication of requests needs.
pub struct AuthState {
    validator: Validator,
    realm: String,
    resource_metadata_url: String,
    scope_policy: ScopePolicy,
}

/// The authentication state as a mathematical value.
pub struct Auth {
    pub validator: Strategy,
    pub realm: Seq<char>,
    pub resource_metadata_url: Seq<char>,
    pub scope_policy: Seq<(Seq<char>, Set<Seq<char>>)>,
}

impl View for AuthState {
    type V = Auth;

    closed spec fn view(&self) -> Auth {
        Auth {
            validator: self.validator@,
            realm: self.realm@,
            resource_metadata_url: self.resource_metadata_url@,
            scope_policy: self.scope_policy@,
        }
    }
}

/// A denial of a genuine token that is not admitted to the route.
#[derive(Debug)]
pub struct AuthError {
    description: String,
}

impl View for AuthError {
    type V = Seq<char>;

    closed spec fn view(&self) -> Seq<char> {
        self.description@
    }
}

impl AuthError {
    /// The reason, as the challenge carries it.
    pub fn description(&self) -> (d: &str)
        ensures
            d@ == self@,
    {
        self.description.as_str()
    }
}

/// The answer to a refused request.
#[derive(Debug)]
pub struct Rejection {
    /// The HTTP status.
    pub status: u16,
    /// The value of the `WWW-Authenticate` header.
    pub challenge: String,
    /// The JSON body.
    pub body: String,
}

/// The answer to a refused request as a mathematical value.
pub struct Refused {
    pub status: u16,
    pub challenge: Seq<char>,
    pub body: Seq<char>,
}

impl View for Rejection {
    type V = Refused;

    open spec fn view(&self) -> Refused {
        Refused { status: self.status, challenge: self.challenge@, body: self.body@ }
    }
}

// ---------------------------------------------------------------------------
// Routes
// ---------------------------------------------------------------------------

/// Whether a route addresses the server of the given name: it is
/// `/servers/{name}/mcp`, for a name that is one segment.
pub open spec fn addresses(route: Seq<char>, name: Seq<char>) -> bool {
    &&& route == "/servers/"@ + name + "/mcp"@
    &&& name.len() > 0
    &&& !name.contains('/')
}

/// The server that a route addresses. Any other route than
/// `/servers/{name}/mcp` addresses none.
pub open spec fn route_server(route: Seq<char>) -> Option<Seq<char>> {
    let from = "/servers/"@.len() as int;
    let to = route.len() - "/mcp"@.len();
    if from < to && addresses(route, route.subrange(from, to)) {
        Some(route.subrange(from, to))
    } else {
        None
    }
}

/// A route addresses a server exactly where it is `/servers/{name}/mcp`, and
/// then it addresses the server of that name.
pub proof fn routes_name_their_server(route: Seq<char>, name: Seq<char>)
    ensures
        route_server(route) == Some(name) <==> addresses(route, name),
{
    if addresses(route, name) {
        let from = "/servers/"@.len() as int;
        assert(route.subrange(from, route.len() - "/mcp"@.len()) =~= name);
    }
}

/// The server that a route addresses.
pub fn server_from_route(route: &str) -> (server: Option<&str>)
    ensures
        match route_server(route@) {
            Some(name) => server matches Some(s) && s@ == name,
            None => server is None,
        },
        match server {
            Some(s) => addresses(route@, s@),
            None => forall|name: Seq<char>| !addresses(route@, name),
        },
{
    proof {
        reveal_strlit("/servers/");
        reveal_strlit("/mcp");
        assert forall|name: Seq<char>| addresses(route@, name) implies route_server(route@) == Some(
            name,
        ) by {
            routes_name_their_server(route@, name);
        }
    }
    let v = text::chars_of(route);
    if v.len() <= 13 {
        return None;
    }
    let end: usize = v.len() - 4;
    let ghost name = route@.subrange(9, end as int);
    if !text::holds_at(&v, "/servers/", 0) || !text::holds_at(&v, "/mcp", end) {
        proof {
            if addresses(route@, name) {
                assert(route@.subrange(0, 9) =~= "/servers/"@);
                assert(route@.subrange(end as int, end + 4) =~= "/mcp"@);
            }
        }
        return None;
    }
    proof {
        assert(route@ =~= "/servers/"@ + name + "/mcp"@) by {
            assert forall|k: int| 0 <= k < route@.len() implies route@[k] == ("/servers/"@ + name
                + "/mcp"@)[k] by {
                if k < 9 {
                    assert(route@[k] == v@.subrange(0, 9)[k]);
                } else if k >= end {
                    assert(route@[k] == v@.subrange(end as int, end + 4)[k - end]);
                }
            }
        }
    }
    let slash = text::find_char(&v, '/', 9);
    proof {
        text::lemma_seek(v@, '/', 9);
        assert(v@[end as int] == '/') by {
            assert(v@.subrange(end as int, end + 4)[0] == v@[end as int]);
        }
        if slash < end {
            assert(name[slash - 9] == '/');
        } else {
            assert forall|k: int| 0 <= k < name.len() implies name[k] != '/' by {
                assert(name[k] == v@[k + 9]);
            }
        }
    }
    if slash < end {
        return None;
    }
    Some(route.substring_char(9, end))
}

// ---------------------------------------------------------------------------
// Answers
// ---------------------------------------------------------------------------

/// The description of a failure in a challenge. It carries no claims.
pub open spec fn description_of(reason: FailureReason) -> Seq<char> {
    match reason {
        FailureReason::MissingToken => "no bearer token was supplied"@,
        FailureReason::MalformedToken => "the token is not a well-formed JWT"@,
        FailureReason::InvalidSignature => "the token signature did not verify"@,
        FailureReason::InvalidAlgorithm => "the token algorithm is not accepted"@,
        FailureReason::InvalidIssuer => "the token issuer is not recognised"@,
        FailureReason::InvalidAudience => "the token audience does not bind to this resource"@,
        FailureReason::Expired => "the access token expired"@,
        FailureReason::NotYetValid => "the token is not yet valid"@,
        FailureReason::UnknownPrincipal => "the token principal is not permitted"@,
        FailureReason::MissingScope => "the token lacks the required scope"@,
        FailureReason::KidNotPinned => "the signing key is not pinned"@,
        FailureReason::Inactive => "the token is not active"@,
    }
}

/// The description of a failure in a challenge.
pub fn reason_description(reason: FailureReason) -> (d: &'static str)
    ensures
        d@ == description_of(reason),
{
    match reason {
        FailureReason::MissingToken => "no bearer token was supplied",
        FailureReason::MalformedToken => "the token is not a well-formed JWT",
        FailureReason::InvalidSignature => "the token signature did not verify",
        FailureReason::InvalidAlgorithm => "the token algorithm is not accepted",
        FailureReason::InvalidIssuer => "the token issuer is not recognised",
        FailureReason::InvalidAudience => "the token audience does not bind to this resource",
        FailureReason::Expired => "the access token expired",
        FailureReason::NotYetValid => "the token is not yet valid",
        FailureReason::UnknownPrincipal => "the token principal is not permitted",
        FailureReason::MissingScope => "the token lacks the required scope",
        FailureReason::KidNotPinned => "the signing key is not pinned",
        FailureReason::Inactive => "the token is not active",
    }
}

/// The JSON-RPC error that the body of an answer carries.
pub open spec fn error_value(message: Seq<char>) -> JsonValue {
    JsonValue::Object(
        seq![
            (
                "error"@,
                JsonValue::Object(
                    seq![
                        ("code"@, JsonValue::Negative(ERROR_CODE)),
                        ("message"@, JsonValue::Text(message)),
                    ],
                ),
            ),
            ("id"@, JsonValue::Null),
            ("jsonrpc"@, JsonValue::Text("2.0"@)),
        ],
    )
}

/// The answer with a given status, error and message.
pub open spec fn answer(
    a: Auth,
    status: u16,
    error: Option<(TokenError, Seq<char>)>,
    message: Seq<char>,
) -> Refused {
    Refused {
        status,
        challenge: challenge::header_value(
            Challenge { realm: a.realm, resource_metadata: a.resource_metadata_url, error },
        ),
        body: json::text_of_json(error_value(message)),
    }
}

/// A 401 answer. The description is absent where no token was supplied.
pub open spec fn unauthorized_answer(a: Auth, description: Option<Seq<char>>) -> Refused {
    answer(
        a,
        401,
        match description {
            Some(d) => Some((TokenError::InvalidToken, d)),
            None => None,
        },
        "Unauthorized"@,
    )
}

/// A 403 answer.
pub open spec fn forbidden_answer(a: Auth, description: Seq<char>) -> Refused {
    answer(a, 403, Some((TokenError::InsufficientScope, description)), "Forbidden"@)
}

/// The answer to a token that failed validation: a genuine token that is not
/// admitted gets a 403, everything else a 401.
pub open spec fn failure_answer(a: Auth, reason: FailureReason) -> Refused {
    if reason == FailureReason::UnknownPrincipal || reason == FailureReason::MissingScope {
        forbidden_answer(a, description_of(reason))
    } else {
        unauthorized_answer(a, Some(description_of(reason)))
    }
}

/// The scheme of an `Authorization` header value: what stands before the
/// first space.
pub open spec fn scheme_of(header: Seq<char>) -> Seq<char> {
    header.take(text::seek(header, ' ', 0))
}

/// Whether a request carries a bearer credential at all.
pub open spec fn carries_bearer(header: Option<Seq<char>>) -> bool {
    header matches Some(h) && text::fold(scheme_of(h)) == text::fold("Bearer"@)
}

/// Whether the scope policy denies a token on a route. A route that
/// addresses no server carries no scope requirement.
pub open spec fn denied(a: Auth, claims: Claims, route: Seq<char>) -> Option<Seq<char>> {
    match route_server(route) {
        Some(server) => if exists|scope: Seq<char>| #[trigger]
            claims.scopes.contains(scope) && authorise::grants(a.scope_policy, server, scope) {
            None
        } else {
            Some("a scope authorising server '"@ + server + "' is required"@)
        },
        None => None,
    }
}

/// The JSON-RPC error that the body of an answer carries.
fn error_json(message: &str) -> (json: Json)
    ensures
        json@ == error_value(message@),
{
    let error = json::object(
        vec![
            ("code".to_owned(), Json::Negative(ERROR_CODE)),
            ("message".to_owned(), Json::Text(message.to_owned())),
        ],
    );
    let json = json::object(
        vec![
            ("error".to_owned(), error),
            ("id".to_owned(), Json::Null),
            ("jsonrpc".to_owned(), Json::Text("2.0".to_owned())),
        ],
    );
    assert(error@->Object_0 =~= error_value(message@)->Object_0[0].1->Object_0);
    assert(json@->Object_0 =~= error_value(message@)->Object_0);
    json
}

/// Assemble an answer: the status, the challenge and a JSON-RPC error body.
fn challenge_response(status: u16, challenge: BearerChallenge, message: &str) -> (r: Rejection)
    ensures
        r.status == status,
        r.challenge@ == challenge::header_value(challenge@),
        r.body@ == json::text_of_json(error_value(message@)),
{
    let body = json::render(&error_json(message)).unwrap();
    Rejection { status, challenge: challenge.into_header_value(), body }
}

impl AuthState {
    /// The authentication state.
    pub fn new(
        validator: Validator,
        realm: &str,
        resource_metadata_url: &str,
        scope_policy: ScopePolicy,
    ) -> (state: Self)
        ensures
            state@ == (Auth {
                validator: validator@,
                realm: realm@,
                resource_metadata_url: resource_metadata_url@,
                scope_policy: scope_policy@,
            }),
    {
        AuthState {
            validator,
            realm: realm.to_owned(),
            resource_metadata_url: resource_metadata_url.to_owned(),
            scope_policy,
        }
    }

    /// The validator.
    pub fn validator(&self) -> (v: &Validator)
        ensures
            v@ == self@.validator,
    {
        &self.validator
    }

    /// The validator, for change in place.
    pub fn validator_mut(&mut self) -> (v: &mut Validator)
        ensures
            v@ == old(self)@.validator,
            final(self)@ == (Auth { validator: final(v)@, ..old(self)@ }),
    {
        &mut self.validator
    }

    /// Take in what a background fetch of the key set brought.
    pub fn refresh_keys(&mut self, fetched: Result<Vec<Json>, JwksError>)
        ensures
            final(self)@ == (Auth {
                validator: strategy::refreshed(old(self)@.validator, fetched),
                ..old(self)@
            }),
    {
        self.validator.refresh_keys(fetched);
    }

    /// A 401 answer.
    pub fn unauthorized(&self, description: Option<&str>) -> (r: Rejection)
        ensures
            r@ == unauthorized_answer(
                self@,
                match description {
                    Some(d) => Some(d@),
                    None => None,
                },
            ),
    {
        let mut challenge = BearerChallenge::new(
            self.realm.as_str(),
            self.resource_metadata_url.as_str(),
        );
        if let Some(d) = description {
            challenge = challenge.with_error(TokenError::InvalidToken, d);
        }
        challenge_response(401, challenge, "Unauthorized")
    }

    /// A 403 answer.
    pub fn forbidden(&self, description: &str) -> (r: Rejection)
        ensures
            r@ == forbidden_answer(self@, description@),
    {
        let challenge = BearerChallenge::new(
            self.realm.as_str(),
            self.resource_metadata_url.as_str(),
        ).with_error(TokenError::InsufficientScope, description);
        challenge_response(403, challenge, "Forbidden")
    }

    /// The answer to a token that failed validation.
    pub fn reject(&self, reason: FailureReason) -> (r: Rejection)
        ensures
            r@ == failure_answer(self@, reason),
    {
        if reason == FailureReason::UnknownPrincipal || reason == FailureReason::MissingScope {
            self.forbidden(reason_description(reason))
        } else {
            self.unauthorized(Some(reason_description(reason)))
        }
    }

    /// What the scope policy says of a token on a route, for the audit log:
    /// the scope that admits it, or why it is rejected. A route that addresses
    /// no server has nothing to record.
    pub fn scope_decision(&self, claims: &ValidatedClaims, route: &str) -> (decision: Option<
        Result<String, ScopeRejection>,
    >)
        ensures
            match route_server(route@) {
                None => decision is None,
                Some(server) => match denied(self@, claims@, route@) {
                    None => decision matches Some(Ok(scope)) && claims@.scopes.contains(scope@)
                        && authorise::grants(self@.scope_policy, server, scope@),
                    Some(_) => decision == Some(
                        Err::<String, ScopeRejection>(ScopeRejection::InsufficientScope),
                    ),
                },
            },
    {
        let server = match server_from_route(route) {
            Some(server) => server,
            None => {
                return None;
            },
        };
        match self.scope_policy.authorise(server, claims.scopes()) {
            Ok(scope) => {
                assert(claims@.scopes.contains(scope@));
                Some(Ok(scope))
            },
            Err(rejection) => Some(Err(rejection)),
        }
    }

    /// Enforce the scope policy on a validated token: on a route that
    /// addresses a server, the token must hold a scope that admits to it.
    pub fn pre_dispatch(&self, claims: &ValidatedClaims, route: &str) -> (r: Result<(), AuthError>)
        ensures
            match denied(self@, claims@, route@) {
                Some(d) => r matches Err(e) && e@ == d,
                None => r is Ok,
            },
    {
        let server = match server_from_route(route) {
            Some(server) => server,
            None => {
                return Ok(());
            },
        };
        match self.scope_policy.authorise(server, claims.scopes()) {
            Ok(_) => Ok(()),
            Err(_) => {
                let mut description = String::from_str("a scope authorising server '");
                description.append(server);
                description.append("' is required");
                Err(AuthError { description })
            },
        }
    }

    /// Whether a request is refused before its token is looked at: one
    /// without credentials, or with another scheme than `Bearer`, gets a
    /// bare challenge.
    pub fn screen(&self, header: Option<&str>) -> (r: Result<(), Rejection>)
        ensures
            ({
                let h = match header {
                    Some(h) => Some(h@),
                    None => None,
                };
                if carries_bearer(h) {
                    r is Ok
                } else {
                    r matches Err(e) && e@ == unauthorized_answer(self@, None)
                }
            }),
    {
        let header = match header {
            Some(h) => h,
            None => {
                return Err(self.unauthorized(None));
            },
        };
        let v = text::chars_of(header);
        let end = text::find_char(&v, ' ', 0);
        let scheme = text::text_of_range(&v, 0, end);
        assert(scheme@ =~= scheme_of(header@));
        if text::same_ignoring_case(scheme.as_str(), "Bearer") {
            Ok(())
        } else {
            Err(self.unauthorized(None))
        }
    }

    /// Decide a request whose token was validated: let it through with its
    /// claims, or refuse it.
    pub fn authenticate(
        &self,
        validation: Result<ValidatedClaims, FailureReason>,
        route: &str,
    ) -> (r: Result<ValidatedClaims, Rejection>)
        ensures
            match validation {
                Err(reason) => r matches Err(e) && e@ == failure_answer(self@, reason),
                Ok(claims) => match denied(self@, claims@, route@) {
                    Some(d) => r matches Err(e) && e@ == forbidden_answer(self@, d),
                    None => r == Ok::<ValidatedClaims, Rejection>(claims),
                },
            },
    {
        match validation {
            Ok(claims) => match self.pre_dispatch(&claims, route) {
                Ok(()) => Ok(claims),
                Err(error) => Err(self.forbidden(error.description())),
            },
            Err(reason) => Err(self.reject(reason)),
        }
    }
}

// ---------------------------------------------------------------------------
// Laws
// ---------------------------------------------------------------------------

/// A token without scopes is let through to no server route.
pub proof fn scopeless_tokens_reach_no_server(a: Auth, claims: Claims, route: Seq<char>)
    requires
        claims.scopes == Set::<Seq<char>>::empty(),
        route_server(route) is Some,
    ensures
        denied(a, claims, route) is Some,
{
}

/// A refused request is answered with a 401 or a 403, and a 403 carries the
/// insufficient-scope error.
pub proof fn refusals_are_challenges(a: Auth, reason: FailureReason)
    ensures
        failure_answer(a, reason).status == 401 || failure_answer(a, reason).status == 403,
        failure_answer(a, reason).status == 403 <==> (reason == FailureReason::UnknownPrincipal
            || reason == FailureReason::MissingScope),
        failure_answer(a, reason).status == 403 ==> failure_answer(a, reason).challenge
            == challenge::header_value(
            Challenge {
                realm: a.realm,
                resource_metadata: a.resource_metadata_url,
                error: Some((TokenError::InsufficientScope, description_of(reason))),
            },
        ),
{
}

/// The description of a failure says what it was that failed.
pub proof fn descriptions_say_what_failed()
    ensures
        text::mentions(description_of(FailureReason::MissingToken), "no bearer token"@),
        text::mentions(description_of(FailureReason::MalformedToken), "well-formed"@),
        text::mentions(description_of(FailureReason::InvalidSignature), "signature"@),
        text::mentions(description_of(FailureReason::InvalidAlgorithm), "algorithm"@),
        text::mentions(description_of(FailureReason::InvalidIssuer), "issuer"@),
        text::mentions(description_of(FailureReason::InvalidAudience), "audience"@),
        text::mentions(description_of(FailureReason::Expired), "expired"@),
        text::mentions(description_of(FailureReason::NotYetValid), "not yet valid"@),
        text::mentions(description_of(FailureReason::UnknownPrincipal), "principal"@),
        text::mentions(description_of(FailureReason::MissingScope), "required scope"@),
        text::mentions(description_of(FailureReason::KidNotPinned), "not pinned"@),
        text::mentions(description_of(FailureReason::Inactive), "not active"@),
{
    reveal_strlit("no bearer token was supplied");
    reveal_strlit("no bearer token");
    let s = "no bearer token was supplied"@;
    assert(s =~= s.take(0) + "no bearer token"@ + s.skip(15));
    text::lemma_mentions(s.take(0), "no bearer token"@, s.skip(15));
    reveal_strlit("the token is not a well-formed JWT");
    reveal_strlit("well-formed");
    let s = "the token is not a well-formed JWT"@;
    assert(s =~= s.take(19) + "well-formed"@ + s.skip(30));
    text::lemma_mentions(s.take(19), "well-formed"@, s.skip(30));
    reveal_strlit("the token signature did not verify");
    reveal_strlit("signature");
    let s = "the token signature did not verify"@;
    assert(s =~= s.take(10) + "signature"@ + s.skip(19));
    text::lemma_mentions(s.take(10), "signature"@, s.skip(19));
    reveal_strlit("the token algorithm is not accepted");
    reveal_strlit("algorithm");
    let s = "the token algorithm is not accepted"@;
    assert(s =~= s.take(10) + "algorithm"@ + s.skip(19));
    text::lemma_mentions(s.take(10), "algorithm"@, s.skip(19));
    reveal_strlit("the token issuer is not recognised");
    reveal_strlit("issuer");
    let s = "the token issuer is not recognised"@;
    assert(s =~= s.take(10) + "issuer"@ + s.skip(16));
    text::lemma_mentions(s.take(10), "issuer"@, s.skip(16));
    reveal_strlit("the token audience does not bind to this resource");
    reveal_strlit("audience");
    let s = "the token audience does not bind to this resource"@;
    assert(s =~= s.take(10) + "audience"@ + s.skip(18));
    text::lemma_mentions(s.take(10), "audience"@, s.skip(18));
    reveal_strlit("the access token expired");
    reveal_strlit("expired");
    let s = "the access token expired"@;
    assert(s =~= s.take(17) + "expired"@ + s.skip(24));
    text::lemma_mentions(s.take(17), "expired"@, s.skip(24));
    reveal_strlit("the token is not yet valid");
    reveal_strlit("not yet valid");
    let s = "the token is not yet valid"@;
    assert(s =~= s.take(13) + "not yet valid"@ + s.skip(26));
    text::lemma_mentions(s.take(13), "not yet valid"@, s.skip(26));
    reveal_strlit("the token principal is not permitted");
    reveal_strlit("principal");
    let s = "the token principal is not permitted"@;
    assert(s =~= s.take(10) + "principal"@ + s.skip(19));
    text::lemma_mentions(s.take(10), "principal"@, s.skip(19));
    reveal_strlit("the token lacks the required scope");
    reveal_strlit("required scope");
    let s = "the token lacks the required scope"@;
    assert(s =~= s.take(20) + "required scope"@ + s.skip(34));
    text::lemma_mentions(s.take(20), "required scope"@, s.skip(34));
    reveal_strlit("the signing key is not pinned");
    reveal_strlit("not pinned");
    let s = "the signing key is not pinned"@;
    assert(s =~= s.take(19) + "not pinned"@ + s.skip(29));
    text::lemma_mentions(s.take(19), "not pinned"@, s.skip(29));
    reveal_strlit("the token is not active");
    reveal_strlit("not active");
    let s = "the token is not active"@;
    assert(s =~= s.take(13) + "not active"@ + s.skip(23));
    text::lemma_mentions(s.take(13), "not active"@, s.skip(23));
}

/// The route `/servers/{name}/mcp` addresses the server of its name, where the
/// name is one segment; with an empty name, or one of several segments, and
/// behind anything else, no server is addressed.
pub proof fn server_routes_have_one_segment(route: Seq<char>, name: Seq<char>)
    ensures
        name.len() > 0 && (forall|i: int| 0 <= i < name.len() ==> #[trigger] name[i] != '/')
            ==> route_server("/servers/"@ + name + "/mcp"@) == Some(name),
        name.len() == 0 || (exists|i: int| 0 <= i < name.len() && #[trigger] name[i] == '/')
            ==> route_server("/servers/"@ + name + "/mcp"@) is None,
        route_server(route) == Some(name) ==> route == "/servers/"@ + name + "/mcp"@ && name.len()
            > 0 && !name.contains('/'),
{
    let full = "/servers/"@ + name + "/mcp"@;
    let from = "/servers/"@.len() as int;
    assert(full.subrange(from, full.len() - "/mcp"@.len()) =~= name);
    routes_name_their_server(full, name);
    routes_name_their_server(route, name);
}

/// A token is let through to a server exactly where one of its scopes is
/// granted by that server, and to every route that addresses none; a refusal
/// names the server.
pub proof fn scopes_admit_to_the_server_of_the_route(
    a: Auth,
    claims: Claims,
    route: Seq<char>,
    server: Seq<char>,
)
    ensures
        (forall|name: Seq<char>| route != "/servers/"@ + name + "/mcp"@) ==> denied(
            a,
            claims,
            route,
        ) is None,
        route_server(route) == Some(server) ==> {
            &&& denied(a, claims, route) is None <==> exists|scope: Seq<char>|
                claims.scopes.contains(scope) && #[trigger] authorise::grants(
                    a.scope_policy,
                    server,
                    scope,
                )
            &&& denied(a, claims, route) matches Some(d) ==> text::mentions(d, server)
        },
{
    if route_server(route) == Some(server) {
        text::lemma_mentions("a scope authorising server '"@, server, "' is required"@);
        if exists|scope: Seq<char>|
            claims.scopes.contains(scope) && #[trigger] authorise::grants(
                a.scope_policy,
                server,
                scope,
            ) {
            let scope = choose|scope: Seq<char>|
                claims.scopes.contains(scope) && #[trigger] authorise::grants(
                    a.scope_policy,
                    server,
                    scope,
                );
            assert(claims.scopes.contains(scope));
        }
    }
    if let Some(name) = route_server(route) {
        routes_name_their_server(route, name);
    }
}

/// A request carries a bearer credential where its scheme is `Bearer`, in any
/// case, whatever follows; a request without the header carries none.
pub proof fn the_scheme_tells_bearer_requests(scheme: Seq<char>, rest: Seq<char>)
    requires
        !scheme.contains(' '),
    ensures
        carries_bearer(Some(scheme + seq![' '] + rest)) <==> text::fold(scheme) == text::fold(
            "Bearer"@,
        ),
        carries_bearer(Some(scheme)) <==> text::fold(scheme) == text::fold("Bearer"@),
        !carries_bearer(None),
{
    let header = scheme + seq![' '] + rest;
    let n = scheme.len() as int;
    assert forall|k: int| 0 <= k < n implies header[k] != ' ' && scheme[k] != ' ' by {
        assert(scheme.contains(scheme[k]));
        assert(header[k] == scheme[k]);
    }
    assert(header[n] == ' ');
    text::lemma_seek_unique(header, ' ', 0, n);
    text::lemma_seek_unique(scheme, ' ', 0, n);
    assert(header.take(n) =~= scheme);
    assert(scheme.take(n) =~= scheme);
}

/// The body of an answer is a JSON-RPC error of the code -32001 with the
/// message, and answers no request.
pub proof fn bodies_are_errors_without_an_id(message: Seq<char>)
    ensures
        ({
            let body = error_value(message);
            &&& json::member(body, "jsonrpc"@) == Some(JsonValue::Text("2.0"@))
            &&& json::member(body, "id"@) == Some(JsonValue::Null)
            &&& json::member(body, "error"@) matches Some(error) && json::member(error, "code"@)
                == Some(JsonValue::Negative(-32001i64)) && json::member(error, "message"@) == Some(
                JsonValue::Text(message),
            )
            &&& json::member(body, "result"@) is None
        }),
{
    reveal_strlit("error");
    reveal_strlit("id");
    reveal_strlit("jsonrpc");
    reveal_strlit("code");
    reveal_strlit("message");
    reveal_strlit("result");
    reveal_with_fuel(names::position, 5);
    assert("error"@.len() == 5 && "id"@.len() == 2 && "jsonrpc"@.len() == 7 && "result"@.len()
        == 6);
    assert("code"@.len() == 4 && "message"@.len() == 7);
}

/// A refused request is answered with the realm and the resource metadata of
/// the gateway. A genuine token that is not admitted gets a 403 with the error
/// `insufficient_scope`, any other token a 401 with the error
/// `invalid_token`, each with the description of the failure; a request
/// without a token gets a 401 without an error. The body says which it is.
pub proof fn answers_carry_the_challenge_of_their_failure(
    a: Auth,
    reason: FailureReason,
    description: Seq<char>,
)
    ensures
        ({
            let bare = Challenge {
                realm: a.realm,
                resource_metadata: a.resource_metadata_url,
                error: None,
            };
            let invalid = |d: Seq<char>|
                challenge::header_value(
                    Challenge { error: Some((TokenError::InvalidToken, d)), ..bare },
                );
            let insufficient = |d: Seq<char>|
                challenge::header_value(
                    Challenge { error: Some((TokenError::InsufficientScope, d)), ..bare },
                );
            let unauthorized = json::text_of_json(error_value("Unauthorized"@));
            let forbidden = json::text_of_json(error_value("Forbidden"@));
            &&& unauthorized_answer(a, None) == (Refused {
                status: 401,
                challenge: challenge::header_value(bare),
                body: unauthorized,
            })
            &&& unauthorized_answer(a, Some(description)) == (Refused {
                status: 401,
                challenge: invalid(description),
                body: unauthorized,
            })
            &&& forbidden_answer(a, description) == (Refused {
                status: 403,
                challenge: insufficient(description),
                body: forbidden,
            })
            &&& failure_answer(a, reason) == if reason is UnknownPrincipal || reason is MissingScope {
                Refused {
                    status: 403,
                    challenge: insufficient(description_of(reason)),
                    body: forbidden,
                }
            } else {
                Refused {
                    status: 401,
                    challenge: invalid(description_of(reason)),
                    body: unauthorized,
                }
            }
        }),
{
}

/// A request is let through with its own claims where its token was valid and
/// its scopes admit it to the route; a token that failed is answered as its
/// failure is, and a lack of scope with a 403.
pub proof fn requests_are_let_through_by_token_and_scope(
    state: &AuthState,
    validation: Result<ValidatedClaims, FailureReason>,
    route: &str,
    r: Result<ValidatedClaims, Rejection>,
)
    requires
        call_ensures(AuthState::authenticate, (state, validation, route), r),
    ensures
        r matches Ok(claims) ==> validation == Ok::<_, FailureReason>(claims) && denied(
            state@,
            claims@,
            route@,
        ) is None,
        validation matches Ok(claims) ==> (denied(state@, claims@, route@) is None ==> r == Ok::<
            _,
            Rejection,
        >(claims)),
        validation matches Ok(claims) ==> (denied(state@, claims@, route@) is Some ==> (
        r matches Err(e) && e.status == 403)),
        validation matches Err(reason) ==> (r matches Err(e) && (e.status == 403 <==> reason
            is UnknownPrincipal || reason is MissingScope) && (e.status == 401 || e.status == 403)),
{
}

/// A request that carries no bearer credential is refused with a 401, and any
/// other goes on.
pub proof fn requests_without_a_bearer_token_are_refused(
    state: &AuthState,
    header: Option<&str>,
    r: Result<(), Rejection>,
)
    requires
        call_ensures(AuthState::screen, (state, header), r),
    ensures
        header is None ==> (r matches Err(e) && e.status == 401),
        header matches Some(h) ==> (r is Ok <==> carries_bearer(Some(h@))),
        r matches Err(e) ==> e.status == 401,
{
}

/// What is recorded of a scope decision is what was decided.
pub proof fn scope_decisions_are_recorded_as_they_are(
    state: &AuthState,
    claims: &ValidatedClaims,
    route: &str,
    decision: Option<Result<String, ScopeRejection>>,
    r: Result<(), AuthError>,
)
    requires
        call_ensures(AuthState::scope_decision, (state, claims, route), decision),
        call_ensures(AuthState::pre_dispatch, (state, claims, route), r),
    ensures
        r is Ok <==> !(decision matches Some(Err(_))),
        decision matches Some(Ok(scope)) ==> claims@.scopes.contains(scope@) && (route_server(
            route@,
        ) matches Some(server) && authorise::grants(state@.scope_policy, server, scope@)),
        decision is None <==> route_server(route@) is None,
{
}

} // verus!

use mcp_gateway::authorise::{ScopePolicy, ScopeRejection};
use mcp_gateway::challenge::{escape_quoted, BearerChallenge, TokenError};
use mcp_gateway::claims::{
    is_log_unsafe_control, sanitise_subject, truncate_to_byte_cap, ValidatedClaims,
    SUBJECT_BYTE_CAP,
};
use mcp_gateway::jwks::JwksCache;
use mcp_gateway::jwt::JwtValidator;
use mcp_gateway::middleware::{reason_description, server_from_route, AuthState};
use mcp_gateway::names::{NameMap, NameSet};
use mcp_gateway::strategy::Validator;
use mcp_gateway::validator::{
    audience_binds_to, bearer_token, check_claims, skew_seconds, Audience, ClaimChecks,
    FailureReason, RawClaims, ASYMMETRIC_ALGORITHM_NAMES,
};

fn policy(entries: &[(&str, &[&str])]) -> ScopePolicy {
    let mut map: NameMap<Vec<String>> = NameMap::new();
    for (server, scopes) in entries {
        map.insert(
            (*server).to_owned(),
            scopes.iter().map(|scope| (*scope).to_owned()).collect(),
        );
    }
    ScopePolicy::new(&map)
}

fn scopes(values: &[&str]) -> NameSet {
    let mut set = NameSet::new();
    for value in values {
        set.insert((*value).to_owned());
    }
    set
}

#[test]
fn matching_scope_authorises() {
    let policy = policy(&[("gitlab", &["mcp:invoke:gitlab"])]);
    assert_eq!(
        policy.authorise("gitlab", &scopes(&["mcp:invoke:gitlab"])),
        Ok("mcp:invoke:gitlab".to_owned()),
    );
}

#[test]
fn non_matching_scope_is_rejected() {
    let policy = policy(&[("github", &["mcp:invoke:github"])]);
    assert_eq!(
        policy.authorise("github", &scopes(&["mcp:invoke:gitlab"])),
        Err(ScopeRejection::InsufficientScope),
    );
}

#[test]
fn wildcard_is_a_literal_scope() {
    let wildcard_server = policy(&[("gitlab", &["mcp:invoke:*"])]);
    assert!(wildcard_server
        .authorise("gitlab", &scopes(&["mcp:invoke:*"]))
        .is_ok());

    let specific_server = policy(&[("gitlab", &["mcp:invoke:gitlab"])]);
    assert_eq!(
        specific_server.authorise("gitlab", &scopes(&["mcp:invoke:*"])),
        Err(ScopeRejection::InsufficientScope),
        "a wildcard token must not authorise a server that lists only a specific scope",
    );
}

#[test]
fn any_matching_scope_authorises() {
    let policy = policy(&[("gitlab", &["mcp:invoke:gitlab"])]);
    assert!(policy
        .authorise("gitlab", &scopes(&["urn:other", "mcp:invoke:gitlab"]))
        .is_ok());
}

#[test]
fn empty_token_scopes_are_rejected() {
    let policy = policy(&[("gitlab", &["mcp:invoke:gitlab"])]);
    assert_eq!(
        policy.authorise("gitlab", &scopes(&[])),
        Err(ScopeRejection::InsufficientScope),
    );
}

#[test]
fn unknown_server_is_rejected() {
    let policy = policy(&[("gitlab", &["mcp:invoke:gitlab"])]);
    assert_eq!(
        policy.authorise("unconfigured", &scopes(&["mcp:invoke:gitlab"])),
        Err(ScopeRejection::InsufficientScope),
    );
}

#[test]
fn scope_rejection_has_a_stable_reason() {
    assert_eq!(ScopeRejection::InsufficientScope.reason(), "insufficient_scope");
}

#[test]
fn renders_realm_and_resource_metadata() {
    let value = BearerChallenge::new(
        "alice.gateway.example.test",
        "https://alice.gateway.example.test/.well-known/oauth-protected-resource",
    )
    .into_header_value();

    assert!(
        value.starts_with("Bearer "),
        "must name the Bearer scheme: {value}"
    );
    assert!(
        value.contains(r#"realm="alice.gateway.example.test""#),
        "{value}"
    );
    assert!(
        value.contains(
            r#"resource_metadata="https://alice.gateway.example.test/.well-known/oauth-protected-resource""#
        ),
        "{value}",
    );
    assert!(
        !value.contains("error="),
        "a bare challenge has no error: {value}"
    );
}

#[test]
fn renders_invalid_token_error() {
    let value = BearerChallenge::new("realm", "https://example.test/metadata")
        .with_error(TokenError::InvalidToken, "the access token expired")
        .into_header_value();

    assert!(value.contains(r#"error="invalid_token""#), "{value}");
    assert!(
        value.contains(r#"error_description="the access token expired""#),
        "{value}",
    );
}

#[test]
fn renders_insufficient_scope_error() {
    let value = BearerChallenge::new("realm", "https://example.test/metadata")
        .with_error(
            TokenError::InsufficientScope,
            "scope mcp:invoke:gitlab required",
        )
        .into_header_value();

    assert!(value.contains(r#"error="insufficient_scope""#), "{value}");
}

#[test]
fn escapes_quotes_and_backslashes_in_parameter_values() {
    let value = BearerChallenge::new(r#"re"al\m"#, "https://example.test/metadata")
        .with_error(TokenError::InsufficientScope, r#"needs "scope" \ here"#)
        .into_header_value();

    assert!(
        value.contains(r#"realm="re\"al\\m""#),
        "the realm's quote and backslash must be escaped: {value}",
    );
    assert!(
        value.contains(r#"error_description="needs \"scope\" \\ here""#),
        "the description's quote and backslash must be escaped: {value}",
    );
}

#[test]
fn escaping_leaves_plain_text_alone() {
    assert_eq!(escape_quoted("plain text"), "plain text");
    assert_eq!(escape_quoted("a\"b\\c"), "a\\\"b\\\\c");
    assert_eq!(TokenError::InvalidToken.code(), "invalid_token");
    assert_eq!(TokenError::InsufficientScope.code(), "insufficient_scope");
}

#[test]
fn percent_encodes_c0_control_characters() {
    assert_eq!(sanitise_subject("a\nb\rc\td"), "a%0Ab%0Dc%09d");
}

#[test]
fn percent_encodes_delete_and_c1_controls() {
    assert_eq!(sanitise_subject("x\u{007F}y\u{0085}z"), "x%7Fy%C2%85z");
}

#[test]
fn leaves_printable_characters_untouched() {
    assert_eq!(
        sanitise_subject("did:arai:example:älice"),
        "did:arai:example:älice"
    );
}

#[test]
fn caps_long_subjects_at_the_byte_limit() {
    let sanitised = sanitise_subject(&"a".repeat(300));
    assert_eq!(sanitised.len(), SUBJECT_BYTE_CAP);
}

#[test]
fn renders_a_log_forging_subject_inert() {
    let sanitised = sanitise_subject("alice\n{\"forged\":true}");
    assert!(!sanitised.contains('\n'), "raw newline must not survive");
    assert!(
        sanitised.contains("%0A"),
        "the newline must be percent-encoded, got {sanitised:?}",
    );
}

#[test]
fn truncation_respects_character_boundaries() {
    assert_eq!(truncate_to_byte_cap("aäb".to_owned(), 2), "a");
    assert_eq!(truncate_to_byte_cap("aäb".to_owned(), 3), "aä");
    assert_eq!(truncate_to_byte_cap("ab".to_owned(), 2), "ab");
    assert!(is_log_unsafe_control('\u{9f}'));
    assert!(!is_log_unsafe_control('\u{a0}'));
}

#[test]
fn validated_claims_give_back_what_they_hold() {
    let claims = ValidatedClaims::new("ali\nce".to_owned(), scopes(&["a", "b", "a"]));
    assert_eq!(claims.subject(), "ali\nce");
    assert_eq!(claims.sanitised_subject(), "ali%0Ace");
    assert_eq!(claims.scopes().len(), 2);
    assert!(claims.scopes().contains("a"));
    assert!(!claims.scopes().contains("c"));
}

#[test]
fn server_is_extracted_from_servers_route() {
    assert_eq!(server_from_route("/servers/gitlab/mcp"), Some("gitlab"));
    assert_eq!(server_from_route("/.well-known/mcp-server-card"), None);
    assert_eq!(server_from_route("/health"), None);
    assert_eq!(server_from_route("/servers//mcp"), None);
}

#[test]
fn only_the_mcp_route_of_a_server_names_it() {
    assert_eq!(server_from_route("/servers/gitlab/tools"), None);
    assert_eq!(server_from_route("/servers/gitlab"), None);
    assert_eq!(server_from_route("/servers/gitlab/"), None);
    assert_eq!(server_from_route("/servers/gitlab/mcp/"), None);
    assert_eq!(server_from_route("/servers/gitlab/mcp/more"), None);
    assert_eq!(server_from_route("/servers/a/b/mcp"), None);
    assert_eq!(server_from_route("/servers/mcp/mcp"), Some("mcp"));
}

#[test]
fn unknown_principal_maps_to_insufficient_scope() {
    let description = reason_description(FailureReason::UnknownPrincipal);
    assert_eq!(description, "the token principal is not permitted");
}

const NOW: i64 = 1_800_000_000;

const SKEW: std::time::Duration = std::time::Duration::from_secs(30);

fn timed_claims(exp: i64, nbf: Option<i64>) -> RawClaims {
    RawClaims {
        iss: "https://issuer.example.test".to_owned(),
        sub: "did:arai:example:alice".to_owned(),
        aud: Some(Audience::One("https://resource.example.test".to_owned())),
        exp,
        nbf,
        scope: None,
    }
}

fn checks() -> ClaimChecks {
    ClaimChecks::new(
        "https://issuer.example.test".to_owned(),
        "https://resource.example.test".to_owned(),
        scopes(&["did:arai:example:alice"]),
        SKEW.as_nanos(),
    )
}

fn check_at_now(raw: RawClaims) -> Result<ValidatedClaims, FailureReason> {
    check_claims(raw, &checks(), NOW)
}

#[test]
fn exp_within_skew_window_is_accepted() {
    let claims = check_at_now(timed_claims(NOW - 5, None));
    assert!(claims.is_ok(), "expected acceptance, got: {:?}", claims.err());
}

#[test]
fn exp_at_skew_boundary_is_rejected() {
    let claims = check_at_now(timed_claims(NOW - 30, None));
    assert_eq!(claims.err(), Some(FailureReason::Expired));
}

#[test]
fn exp_beyond_skew_window_is_rejected() {
    let claims = check_at_now(timed_claims(NOW - 31, None));
    assert_eq!(claims.err(), Some(FailureReason::Expired));
}

#[test]
fn nbf_within_skew_window_is_accepted() {
    let claims = check_at_now(timed_claims(NOW + 3600, Some(NOW + 5)));
    assert!(claims.is_ok(), "expected acceptance, got: {:?}", claims.err());
}

#[test]
fn nbf_beyond_skew_window_is_rejected() {
    let claims = check_at_now(timed_claims(NOW + 3600, Some(NOW + 31)));
    assert_eq!(claims.err(), Some(FailureReason::NotYetValid));
}

#[test]
fn algorithm_names_match_enum() {
    let allowed = [
        jsonwebtoken::Algorithm::RS256,
        jsonwebtoken::Algorithm::RS384,
        jsonwebtoken::Algorithm::RS512,
        jsonwebtoken::Algorithm::PS256,
        jsonwebtoken::Algorithm::PS384,
        jsonwebtoken::Algorithm::PS512,
        jsonwebtoken::Algorithm::ES256,
        jsonwebtoken::Algorithm::ES384,
        jsonwebtoken::Algorithm::EdDSA,
    ];
    assert_eq!(ASYMMETRIC_ALGORITHM_NAMES.len(), allowed.len());
    for (name, algorithm) in ASYMMETRIC_ALGORITHM_NAMES.iter().zip(allowed) {
        let parsed: jsonwebtoken::Algorithm =
            name.parse().expect("name should parse to an algorithm");
        assert_eq!(parsed, algorithm, "name {name} must match its enum entry");
    }
}

#[test]
fn claims_carry_the_subject_and_the_scopes_of_the_token() {
    let mut raw = timed_claims(NOW + 60, None);
    raw.scope = Some("  mcp:invoke:gitlab mcp:invoke:github ".to_owned());
    let claims = check_at_now(raw).unwrap_or_else(|e| panic!("{e:?}"));
    assert_eq!(claims.subject(), "did:arai:example:alice");
    assert_eq!(claims.scopes().len(), 2);
    assert!(claims.scopes().contains("mcp:invoke:github"));
}

#[test]
fn every_claim_is_checked() {
    let mut raw = timed_claims(NOW + 60, None);
    raw.iss = "https://other.example.test".to_owned();
    assert_eq!(check_at_now(raw).err(), Some(FailureReason::InvalidIssuer));

    let mut raw = timed_claims(NOW + 60, None);
    raw.aud = None;
    assert_eq!(check_at_now(raw).err(), Some(FailureReason::InvalidAudience));

    let mut raw = timed_claims(NOW + 60, None);
    raw.sub = "did:arai:example:mallory".to_owned();
    assert_eq!(check_at_now(raw).err(), Some(FailureReason::UnknownPrincipal));
}

#[test]
fn an_audience_binds_to_one_resource() {
    let resource = "https://resource.example.test";
    let one = Audience::One(resource.to_owned());
    assert!(audience_binds_to(Some(&one), resource));
    assert!(!audience_binds_to(Some(&one), "https://other.example.test"));
    let single = Audience::Many(vec![resource.to_owned()]);
    assert!(audience_binds_to(Some(&single), resource));
    let several = Audience::Many(vec![resource.to_owned(), "https://other.example.test".to_owned()]);
    assert!(!audience_binds_to(Some(&several), resource));
    assert!(!audience_binds_to(None, resource));
}

#[test]
fn skew_is_counted_in_whole_seconds() {
    assert_eq!(skew_seconds(SKEW.as_nanos()), 30);
    assert_eq!(skew_seconds(1_999_999_999), 1);
    assert_eq!(skew_seconds(u128::MAX), i64::MAX);
}

#[test]
fn bearer_tokens_are_read_from_the_header() {
    assert_eq!(bearer_token("Bearer abc"), Ok("abc"));
    assert_eq!(bearer_token("bearer abc"), Ok("abc"));
    assert_eq!(bearer_token("Basic abc"), Err(FailureReason::MissingToken));
    assert_eq!(bearer_token("Bearer "), Err(FailureReason::MissingToken));
    assert_eq!(bearer_token(""), Err(FailureReason::MissingToken));
}

fn auth_state() -> AuthState {
    let validator = JwtValidator::new(
        "https://issuer.example.test".to_owned(),
        "https://gateway.example.test".to_owned(),
        NameSet::new(),
        SKEW.as_nanos(),
        JwksCache::new("https://issuer.example.test/jwks".to_owned()),
    );
    AuthState::new(
        Validator::Jwt(validator),
        "https://gateway.example.test",
        "https://gateway.example.test/.well-known/oauth-protected-resource",
        policy(&[("gitlab", &["mcp:invoke:gitlab"])]),
    )
}

fn alice(values: &[&str]) -> ValidatedClaims {
    ValidatedClaims::new("did:arai:example:alice".to_owned(), scopes(values))
}

#[test]
fn scope_decision_is_recorded_for_audit() {
    let state = auth_state();
    let admitted = alice(&["mcp:invoke:gitlab"]);
    assert!(state.pre_dispatch(&admitted, "/servers/gitlab/mcp").is_ok());
    assert_eq!(
        state.scope_decision(&admitted, "/servers/gitlab/mcp"),
        Some(Ok("mcp:invoke:gitlab".to_owned())),
    );
    let rejected = alice(&[]);
    assert!(state.pre_dispatch(&rejected, "/servers/gitlab/mcp").is_err());
    assert_eq!(
        state
            .scope_decision(&rejected, "/servers/gitlab/mcp")
            .and_then(|d| d.err())
            .map(|r| r.reason()),
        Some("insufficient_scope"),
    );
    assert_eq!(state.scope_decision(&rejected, "/health"), None);
}

#[test]
fn missing_authorization_is_rejected_with_challenge() {
    let rejection = auth_state().screen(None).err().expect("no credentials");
    assert_eq!(rejection.status, 401);
    assert_eq!(
        rejection.challenge,
        "Bearer realm=\"https://gateway.example.test\", resource_metadata=\"https://gateway.example.test/.well-known/oauth-protected-resource\"",
    );
    assert_eq!(
        rejection.body,
        "{\"error\":{\"code\":-32001,\"message\":\"Unauthorized\"},\"id\":null,\"jsonrpc\":\"2.0\"}",
    );
}

#[test]
fn unsupported_scheme_is_rejected_advertising_bearer() {
    let rejection = auth_state()
        .screen(Some("Basic dXNlcjpwYXNz"))
        .err()
        .expect("another scheme");
    assert_eq!(rejection.status, 401);
    assert!(rejection.challenge.starts_with("Bearer "));
    assert!(!rejection.challenge.contains("error="));
    assert!(auth_state().screen(Some("bEaReR x")).is_ok());
}

#[test]
fn unknown_principal_is_forbidden() {
    let rejection = auth_state()
        .authenticate(Err(FailureReason::UnknownPrincipal), "/servers/gitlab/mcp")
        .err()
        .expect("not admitted");
    assert_eq!(rejection.status, 403);
    assert!(rejection.challenge.contains("error=\"insufficient_scope\""));
    assert!(rejection
        .challenge
        .contains("error_description=\"the token principal is not permitted\""));
    assert!(rejection.body.contains("Forbidden"));
}

#[test]
fn token_without_required_scope_is_forbidden() {
    let rejection = auth_state()
        .authenticate(Ok(alice(&["mcp:invoke:github"])), "/servers/gitlab/mcp")
        .err()
        .expect("not admitted");
    assert_eq!(rejection.status, 403);
    assert!(rejection
        .challenge
        .contains("a scope authorising server 'gitlab' is required"));
}

#[test]
fn token_with_no_scope_is_forbidden() {
    assert!(auth_state()
        .authenticate(Ok(alice(&[])), "/servers/gitlab/mcp")
        .is_err());
    assert!(auth_state()
        .authenticate(Ok(alice(&[])), "/.well-known/mcp-server-card")
        .is_ok());
}

#[test]
fn expired_tokens_are_unauthorized() {
    let rejection = auth_state().reject(FailureReason::Expired);
    assert_eq!(rejection.status, 401);
    assert!(rejection.challenge.contains("error=\"invalid_token\""));
}

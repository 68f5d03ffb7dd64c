use base64::Engine;

use mcp_gateway::authentication::{
    AuthenticationConfig, CorsConfig, IntrospectionOutagePolicy, IssuerConfig, TrustAnchorsConfig,
    ValidationStrategy,
};
use mcp_gateway::claims::{sanitise_subject, ValidatedClaims};
use mcp_gateway::discovery::{DiscoveryDocument, DiscoveryError};
use mcp_gateway::introspection::{
    introspect, token_key, IntrospectError, IntrospectionCache, IntrospectionPolicy,
    IntrospectionResponse, IntrospectionValidator, Outcome, OutagePolicy, Reply, Step,
};
use mcp_gateway::json::Json;
use mcp_gateway::jwks::{find_key, JwksCache, JwksError, Lookup, UNKNOWN_KID_REFRESH_COOLDOWN};
use mcp_gateway::jwt::{map_decode_error, open_token, JwtStep, JwtValidator};
use mcp_gateway::names::{NameMap, NameSet};
use mcp_gateway::secret::Secret;
use mcp_gateway::setup::{
    assemble_auth_state, auth_certificate_pins, claim_checks, discovery_client,
    introspection_requirements, introspection_validator, issuer_url, jwt_validator, AuthSetupError,
};
use mcp_gateway::strategy::{Opening, Validator};
use mcp_gateway::validator::{
    admit_header, claims_bytes, decoding_key, key_material, now_unix_seconds, time_of_clock, Audience,
    ClaimChecks, DecodeFault, FailureReason, KeyMaterial, RawClaims, TokenHeader,
};

const ISSUER: &str = "https://issuer.example.test";
const RESOURCE: &str = "https://alice.gateway.example.test";
const PRINCIPAL: &str = "did:arai:example:alice";
const SKEW: u128 = 30_000_000_000;
const NOW: i64 = 1_800_000_000;

fn set(values: &[&str]) -> NameSet {
    let mut set = NameSet::new();
    for value in values {
        set.insert((*value).to_owned());
    }
    set
}

fn text(s: &str) -> Json {
    Json::Text(s.to_owned())
}

fn object(members: Vec<(&str, Json)>) -> Json {
    Json::Object(members.into_iter().map(|(k, v)| (k.to_owned(), v)).collect())
}

struct SigningKey {
    encoding: jsonwebtoken::EncodingKey,
    algorithm: jsonwebtoken::Algorithm,
    jwk: Json,
}

fn url_safe(bytes: &[u8]) -> String {
    base64::engine::general_purpose::URL_SAFE_NO_PAD.encode(bytes)
}

fn es256(kid: &str) -> SigningKey {
    let pair = rcgen::KeyPair::generate_for(&rcgen::PKCS_ECDSA_P256_SHA256).expect("a key");
    let raw = pair.public_key_raw().to_vec();
    SigningKey {
        encoding: jsonwebtoken::EncodingKey::from_ec_der(&pair.serialize_der()),
        algorithm: jsonwebtoken::Algorithm::ES256,
        jwk: object(vec![
            ("kty", text("EC")),
            ("crv", text("P-256")),
            ("kid", text(kid)),
            ("x", text(&url_safe(&raw[1..33]))),
            ("y", text(&url_safe(&raw[33..65]))),
        ]),
    }
}

fn ed25519(kid: &str) -> SigningKey {
    let pair = rcgen::KeyPair::generate_for(&rcgen::PKCS_ED25519).expect("a key");
    SigningKey {
        encoding: jsonwebtoken::EncodingKey::from_ed_der(&pair.serialize_der()),
        algorithm: jsonwebtoken::Algorithm::EdDSA,
        jwk: object(vec![
            ("kty", text("OKP")),
            ("crv", text("Ed25519")),
            ("kid", text(kid)),
            ("x", text(&url_safe(pair.public_key_raw()))),
        ]),
    }
}

fn copy(json: &Json) -> Json {
    mcp_gateway::json::copy_json(json)
}

fn mint(key: &SigningKey, kid: &str, claims: &str) -> String {
    let mut header = jsonwebtoken::Header::new(key.algorithm);
    header.kid = Some(kid.to_owned());
    let claims: serde_json::Value = serde_json::from_str(claims).expect("claims are JSON");
    jsonwebtoken::encode(&header, &claims, &key.encoding).expect("the token encodes")
}

fn well_formed_claims() -> String {
    claims_with("", NOW + 3600)
}

fn claims_with(extra: &str, exp: i64) -> String {
    format!(
        "{{\"iss\":\"{ISSUER}\",\"sub\":\"{PRINCIPAL}\",\"aud\":\"{RESOURCE}\",\"exp\":{exp},\
         \"scope\":\"mcp:invoke:gitlab mcp:invoke:github\"{extra}}}"
    )
}

fn validator() -> JwtValidator {
    JwtValidator::new(
        ISSUER.to_owned(),
        RESOURCE.to_owned(),
        set(&[PRINCIPAL]),
        SKEW,
        JwksCache::new(format!("{ISSUER}/jwks")),
    )
    .with_current_time(NOW)
}

fn read_claims(text: &str) -> Option<RawClaims> {
    let value: serde_json::Value = serde_json::from_str(text).ok()?;
    let aud = match &value["aud"] {
        serde_json::Value::String(one) => Some(Audience::One(one.clone())),
        serde_json::Value::Array(many) => Some(Audience::Many(
            many.iter().filter_map(|v| v.as_str().map(str::to_owned)).collect(),
        )),
        _ => None,
    };
    Some(RawClaims {
        iss: value["iss"].as_str()?.to_owned(),
        sub: value["sub"].as_str()?.to_owned(),
        aud,
        exp: value["exp"].as_i64()?,
        nbf: value["nbf"].as_i64(),
        scope: value["scope"].as_str().map(str::to_owned),
    })
}

fn validate(
    mut validator: JwtValidator,
    published: &SigningKey,
    authorization: &str,
) -> Result<ValidatedClaims, FailureReason> {
    let mut step = validator.validate(authorization, 0);
    loop {
        step = match step {
            JwtStep::Done(outcome) => return outcome,
            JwtStep::FetchKeys(token) => {
                validator.fetched(token, Ok(vec![copy(&published.jwk)]), 0)
            }
            JwtStep::ReadClaims(signed) => {
                let claims = read_claims(std::str::from_utf8(signed.as_bytes()).unwrap());
                JwtStep::Done(validator.conclude(signed, claims, 0))
            }
        }
    }
}

#[test]
fn validates_a_well_formed_token() {
    let key = es256("key-1");
    let token = mint(&key, "key-1", &well_formed_claims());
    let claims = validate(validator(), &key, &format!("Bearer {token}"))
        .ok()
        .expect("a well-formed token should validate");
    assert_eq!(claims.subject(), PRINCIPAL);
    assert!(claims.scopes().contains("mcp:invoke:gitlab"));
    assert!(claims.scopes().contains("mcp:invoke:github"));
}

fn sign_bytes(key: &SigningKey, kid: &str, claims: &[u8]) -> String {
    let header = format!("{{\"alg\":\"ES256\",\"kid\":\"{kid}\"}}");
    let message = format!("{}.{}", url_safe(header.as_bytes()), url_safe(claims));
    let signature = jsonwebtoken::crypto::sign(message.as_bytes(), &key.encoding, key.algorithm)
        .expect("the token is signed");
    format!("{message}.{signature}")
}

#[test]
fn an_ignored_claim_need_not_be_text() {
    let key = es256("key-1");
    let mut payload = claims_with(",\"note\":\"", NOW + 3600).into_bytes();
    payload.pop();
    payload.extend_from_slice(b"\xff\xfe\"}");
    let token = sign_bytes(&key, "key-1", &payload);
    let mut validator = validator();
    let signed = match validator.validate(&format!("Bearer {token}"), 0) {
        JwtStep::FetchKeys(admitted) => {
            match validator.fetched(admitted, Ok(vec![copy(&key.jwk)]), 0) {
                JwtStep::ReadClaims(signed) => signed,
                _ => panic!("the signature verifies"),
            }
        }
        _ => panic!("the key set is empty"),
    };
    assert_eq!(signed.as_bytes(), &payload[..]);
    let outcome = validator.conclude(signed, read_claims(&well_formed_claims()), 0);
    assert_eq!(outcome.ok().expect("the claims are good").subject(), PRINCIPAL);
}

#[test]
fn claims_that_are_not_json_are_malformed() {
    let key = es256("key-1");
    for payload in [&b"{\"iss\":"[..], b"", b"plain"] {
        let token = sign_bytes(&key, "key-1", payload);
        assert_eq!(
            validate(validator(), &key, &format!("Bearer {token}")).err(),
            Some(FailureReason::MalformedToken),
        );
    }
}

#[test]
fn the_payload_stands_before_the_signature() {
    assert_eq!(claims_bytes("e30.YWJj.c2ln", Ok(())), Ok(b"abc".to_vec()));
    assert_eq!(claims_bytes("more.e30.YWJj.", Ok(())), Ok(b"abc".to_vec()));
    assert_eq!(claims_bytes("YWJj.c2ln", Ok(())), Err(DecodeFault::Other));
    assert_eq!(claims_bytes("YWJj", Ok(())), Err(DecodeFault::Other));
    assert_eq!(claims_bytes("e30.!.c2ln", Ok(())), Err(DecodeFault::Other));
    for fault in [DecodeFault::Signature, DecodeFault::Algorithm, DecodeFault::Other] {
        assert_eq!(claims_bytes("e30.YWJj.c2ln", Err(fault)), Err(fault));
    }
}

#[test]
fn validates_a_token_of_an_edwards_key() {
    let key = ed25519("key-1");
    let token = mint(&key, "key-1", &well_formed_claims());
    assert!(validate(validator(), &key, &format!("Bearer {token}")).is_ok());
}

fn refused(key: &SigningKey, token: &str) -> Option<FailureReason> {
    validate(validator(), key, &format!("Bearer {token}")).err()
}

#[test]
fn rejects_missing_token() {
    assert_eq!(refused(&es256("key-1"), ""), Some(FailureReason::MissingToken));
}

#[test]
fn rejects_malformed_token() {
    assert_eq!(refused(&es256("key-1"), "not-a-jwt"), Some(FailureReason::MalformedToken));
}

fn with_tampered_signature(token: &str) -> String {
    let (body, signature) = token
        .rsplit_once('.')
        .expect("a JWT has a signature segment");
    let mut characters: Vec<char> = signature.chars().collect();
    characters[0] = if characters[0] == 'A' { 'B' } else { 'A' };
    let signature: String = characters.into_iter().collect();
    format!("{body}.{signature}")
}

#[test]
fn rejects_invalid_signature() {
    let key = es256("key-1");
    let token = mint(&key, "key-1", &well_formed_claims());
    assert_eq!(
        refused(&key, &with_tampered_signature(&token)),
        Some(FailureReason::InvalidSignature),
    );
    let other = es256("key-1");
    assert_eq!(refused(&other, &token), Some(FailureReason::InvalidSignature));
    let unpublished = es256("key-2");
    assert_eq!(refused(&unpublished, &token), Some(FailureReason::InvalidSignature));
}

#[test]
fn rejects_symmetric_algorithm() {
    let mut header = jsonwebtoken::Header::new(jsonwebtoken::Algorithm::HS256);
    header.kid = Some("attacker-key".to_owned());
    let claims: serde_json::Value =
        serde_json::from_str(&well_formed_claims()).expect("claims are JSON");
    let token = jsonwebtoken::encode(
        &header,
        &claims,
        &jsonwebtoken::EncodingKey::from_secret(b"shared-secret"),
    )
    .expect("HS256 token should encode");
    assert_eq!(refused(&es256("key-1"), &token), Some(FailureReason::InvalidAlgorithm));
}

#[test]
fn rejects_wrong_issuer() {
    let key = es256("key-1");
    let token = mint(&key, "key-1", &well_formed_claims());
    let other = JwtValidator::new(
        "https://other-issuer.example.test".to_owned(),
        RESOURCE.to_owned(),
        set(&[PRINCIPAL]),
        SKEW,
        JwksCache::new(format!("{ISSUER}/jwks")),
    )
    .with_current_time(NOW);
    assert_eq!(
        validate(other, &key, &format!("Bearer {token}")).err(),
        Some(FailureReason::InvalidIssuer),
    );
}

fn refused_claims(claims: &str) -> Option<FailureReason> {
    let key = es256("key-1");
    let token = mint(&key, "key-1", claims);
    refused(&key, &token)
}

#[test]
fn rejects_wrong_audience() {
    let claims = well_formed_claims().replace(RESOURCE, "https://someone-else.example.test");
    assert_eq!(refused_claims(&claims), Some(FailureReason::InvalidAudience));
}

#[test]
fn rejects_multi_audience_token() {
    let claims = well_formed_claims().replace(
        &format!("\"{RESOURCE}\""),
        &format!("[\"{RESOURCE}\",\"https://another.example.test\"]"),
    );
    assert_eq!(refused_claims(&claims), Some(FailureReason::InvalidAudience));
}

#[test]
fn rejects_expired_token() {
    assert_eq!(refused_claims(&claims_with("", NOW - 40)), Some(FailureReason::Expired));
}

#[test]
fn accepts_token_within_skew_window() {
    assert_eq!(refused_claims(&claims_with("", NOW - 5)), None);
}

#[test]
fn rejects_not_yet_valid_token() {
    let claims = claims_with(&format!(",\"nbf\":{}", NOW + 120), NOW + 3600);
    assert_eq!(refused_claims(&claims), Some(FailureReason::NotYetValid));
}

#[test]
fn rejects_unknown_principal() {
    let claims = well_formed_claims().replace(PRINCIPAL, "did:arai:example:mallory");
    assert_eq!(refused_claims(&claims), Some(FailureReason::UnknownPrincipal));
}

#[test]
fn rejects_claims_that_cannot_be_read() {
    assert_eq!(refused_claims("{\"iss\":5}"), Some(FailureReason::MalformedToken));
}

#[test]
fn rejects_unpinned_kid() {
    let key = es256("key-1");
    let token = mint(&key, "key-1", &well_formed_claims());
    let authorization = format!("Bearer {token}");
    let pinned = validator().with_kid_pins(set(&["some-other-kid"]));
    assert_eq!(
        validate(pinned, &key, &authorization).err(),
        Some(FailureReason::KidNotPinned),
    );
    let pinned = validator().with_kid_pins(set(&["key-1"]));
    assert!(validate(pinned, &key, &authorization).is_ok());
}

#[test]
fn headers_without_a_key_are_malformed() {
    let header = TokenHeader { algorithm: "ES256".to_owned(), kid: None };
    assert_eq!(
        admit_header("t", Some(header), &None).err(),
        Some(FailureReason::MalformedToken),
    );
    let header = TokenHeader { algorithm: "none".to_owned(), kid: Some("k".to_owned()) };
    assert_eq!(
        admit_header("t", Some(header), &None).err(),
        Some(FailureReason::InvalidAlgorithm),
    );
}

#[test]
fn keys_are_made_of_their_members() {
    let rsa = object(vec![("kty", text("RSA")), ("n", text("AQAB")), ("e", text("AQAB"))]);
    assert!(matches!(key_material(&rsa), Ok(KeyMaterial::Rsa { .. })));
    assert!(decoding_key(&rsa).is_ok());
    let broken = object(vec![("kty", text("RSA")), ("n", text("%%")), ("e", text("AQAB"))]);
    assert_eq!(decoding_key(&broken).err(), Some(FailureReason::InvalidSignature));
    let partial = object(vec![("kty", text("EC")), ("x", text("AQAB"))]);
    assert_eq!(key_material(&partial).err(), Some(FailureReason::InvalidSignature));
    let unknown = object(vec![("kty", text("oct")), ("k", text("AQAB"))]);
    assert_eq!(key_material(&unknown).err(), Some(FailureReason::InvalidSignature));
    assert_eq!(map_decode_error(DecodeFault::Signature), FailureReason::InvalidSignature);
    assert_eq!(map_decode_error(DecodeFault::Algorithm), FailureReason::InvalidAlgorithm);
    assert_eq!(map_decode_error(DecodeFault::Other), FailureReason::MalformedToken);
}

#[test]
fn a_key_of_another_family_does_not_fit() {
    let key = es256("key-1");
    let token = mint(&key, "key-1", &well_formed_claims());
    let admitted = validator()
        .admit_token(&format!("Bearer {token}"))
        .ok()
        .expect("the header is admitted");
    let rsa = object(vec![("kty", text("RSA")), ("n", text("AQAB")), ("e", text("AQAB"))]);
    assert_eq!(open_token(&admitted, Some(&rsa)).err(), Some(FailureReason::InvalidAlgorithm));
    assert_eq!(open_token(&admitted, None).err(), Some(FailureReason::InvalidSignature));
}

#[test]
fn the_clock_stands_after_this_was_written() {
    assert!(now_unix_seconds() > 1_700_000_000);
}

#[test]
fn clocks_out_of_range_show_the_nearest_time() {
    assert_eq!(time_of_clock(None), 0);
    assert_eq!(time_of_clock(Some(1_800_000_000)), NOW);
    assert_eq!(time_of_clock(Some(u64::MAX)), i64::MAX);
}

fn named_key(kid: &str) -> Json {
    object(vec![("kid", text(kid))])
}

#[test]
fn serves_known_kid_from_cache_without_refetching() {
    let mut cache = JwksCache::new("https://issuer.example.test/jwks".to_owned());
    assert!(!cache.has_keys());
    assert!(matches!(cache.lookup("test-key-1", 0), Lookup::Fetch));
    let first = cache.key_for_kid("test-key-1", Ok(vec![named_key("test-key-1")]), 0).unwrap();
    assert!(first.is_some(), "the published key should be found");
    assert!(
        matches!(cache.lookup("test-key-1", 1), Lookup::Found(_)),
        "a known kid must be served from cache without re-fetching",
    );
    assert!(cache.cached_key("test-key-1").is_some());
    assert_eq!(cache.jwks_uri(), "https://issuer.example.test/jwks");
}

#[test]
fn refreshes_when_kid_is_unknown() {
    let mut cache = JwksCache::new("https://issuer.example.test/jwks".to_owned());
    cache.key_for_kid("test-key-1", Ok(vec![named_key("test-key-1")]), 0).unwrap();
    assert!(matches!(cache.lookup("test-key-2", 1), Lookup::Fetch));
    let keys = vec![named_key("test-key-1"), named_key("test-key-2")];
    assert!(cache.key_for_kid("test-key-2", Ok(keys), 1).unwrap().is_some());
    assert!(matches!(cache.lookup("test-key-2", 2), Lookup::Found(_)));
}

#[test]
fn repeated_unknown_kid_is_throttled_after_a_miss() {
    let mut cache = JwksCache::new("https://issuer.example.test/jwks".to_owned());
    assert!(cache
        .key_for_kid("never-published", Ok(vec![named_key("test-key-1")]), 0)
        .unwrap()
        .is_none());
    for now in 1..5 {
        assert!(matches!(cache.lookup("never-published", now), Lookup::Absent));
    }
    assert!(matches!(
        cache.lookup("never-published", UNKNOWN_KID_REFRESH_COOLDOWN - 1),
        Lookup::Absent,
    ));
    assert!(matches!(
        cache.lookup("never-published", UNKNOWN_KID_REFRESH_COOLDOWN),
        Lookup::Fetch,
    ));
}

#[test]
fn refresh_populates_the_cache_ahead_of_a_lazy_lookup() {
    let mut cache = JwksCache::new("https://issuer.example.test/jwks".to_owned());
    cache.key_for_kid("test-key-1", Ok(vec![named_key("test-key-1")]), 0).unwrap();
    cache.refresh(Ok(vec![named_key("test-key-1"), named_key("test-key-2")])).unwrap();
    assert!(
        matches!(cache.lookup("test-key-2", 1), Lookup::Found(_)),
        "the rotated key must be present after a proactive refresh",
    );
}

#[test]
fn refresh_failure_retains_the_last_good_keys() {
    let mut cache = JwksCache::new("https://issuer.example.test/jwks".to_owned());
    cache.key_for_kid("test-key-1", Ok(vec![named_key("test-key-1")]), 0).unwrap();
    let error = cache
        .refresh(Err(JwksError::Request("unreachable".to_owned())))
        .expect_err("the failure is reported");
    assert_eq!(error.message(), "JWKS request failed: unreachable");
    let failed = Err(JwksError::Parse("expected value".to_owned()));
    let error = cache.key_for_kid("other", failed, 1).expect_err("the fetch failed");
    assert_eq!(error.message(), "JWKS document is not valid JSON: expected value");
    assert!(matches!(cache.lookup("other", 1), Lookup::Fetch));
    assert!(matches!(cache.lookup("test-key-1", 1), Lookup::Found(_)));
    assert!(find_key(&vec![named_key("a"), Json::Null], "b").is_none());
}

fn claim_limits() -> ClaimChecks {
    ClaimChecks::new(ISSUER.to_owned(), RESOURCE.to_owned(), set(&[PRINCIPAL]), SKEW)
}

fn introspecting(policy: IntrospectionPolicy) -> IntrospectionValidator {
    IntrospectionValidator::new(
        format!("{ISSUER}/introspect"),
        "gateway-client".to_owned(),
        Secret::new("gateway-secret".to_owned()),
        claim_limits(),
        policy,
    )
}

fn default_policy() -> IntrospectionPolicy {
    IntrospectionPolicy {
        cache_ttl: 30_000_000_000,
        outage: OutagePolicy::FailClosed,
        max_stale: 0,
    }
}

fn active(aud: &str, exp: i64) -> Reply {
    Reply::Response {
        status: 200,
        body: Some(IntrospectionResponse {
            active: true,
            iss: Some(ISSUER.to_owned()),
            sub: Some(PRINCIPAL.to_owned()),
            aud: Some(Audience::One(aud.to_owned())),
            exp: Some(exp),
            nbf: None,
            scope: Some("mcp:invoke:gitlab".to_owned()),
        }),
    }
}

fn inactive() -> Reply {
    Reply::Response {
        status: 200,
        body: Some(IntrospectionResponse {
            active: false,
            iss: None,
            sub: None,
            aud: None,
            exp: None,
            nbf: None,
            scope: None,
        }),
    }
}

fn outage() -> Reply {
    Reply::Response { status: 503, body: None }
}

fn asked(
    validator: &mut IntrospectionValidator,
    token: &str,
    reply: Reply,
    now: u128,
) -> (bool, Result<ValidatedClaims, FailureReason>) {
    match validator.validate(&format!("Bearer {token}"), now, NOW) {
        Step::Done(outcome) => (false, outcome),
        Step::Ask(asked) => {
            assert_eq!(asked, token);
            (true, validator.conclude(token, reply, now, NOW))
        }
    }
}

#[test]
fn active_token_authenticates() {
    let mut validator = introspecting(default_policy());
    let (_, outcome) = asked(&mut validator, "opaque-active", active(RESOURCE, NOW + 3600), 0);
    let claims = outcome
        .ok()
        .expect("an active token with valid claims should authenticate");
    assert_eq!(claims.subject(), PRINCIPAL);
    assert!(claims.scopes().contains("mcp:invoke:gitlab"));
    assert_eq!(validator.endpoint(), "https://issuer.example.test/introspect");
    assert_eq!(validator.client_id(), "gateway-client");
    assert_eq!(validator.client_secret().expose(), "gateway-secret");
    assert_eq!(IntrospectionValidator::request_body("abc"), "token=abc");
}

#[test]
fn inactive_token_is_rejected() {
    let mut validator = introspecting(default_policy());
    let (_, outcome) = asked(&mut validator, "opaque-revoked", inactive(), 0);
    assert_eq!(outcome.err(), Some(FailureReason::Inactive));
}

#[test]
fn active_token_with_wrong_audience_is_rejected() {
    let mut validator = introspecting(default_policy());
    let reply = active("https://someone-else.example.test", NOW + 3600);
    let (_, outcome) = asked(&mut validator, "opaque-wrong-aud", reply, 0);
    assert_eq!(outcome.err(), Some(FailureReason::InvalidAudience));
}

#[test]
fn cache_hit_avoids_second_introspection() {
    let mut validator = introspecting(default_policy());
    assert!(asked(&mut validator, "opaque-cached", active(RESOURCE, NOW + 3600), 0).0);
    assert_eq!(validator.cached_subject("opaque-cached").as_deref(), Some(PRINCIPAL));
    assert_eq!(validator.cached_subject("opaque-other"), None);
    let (went_out, outcome) = asked(&mut validator, "opaque-cached", outage(), 1);
    assert!(!went_out, "the second request must be served from cache");
    assert!(outcome.is_ok());
}

#[test]
fn entry_past_ttl_is_reintrospected() {
    let mut validator = introspecting(IntrospectionPolicy { cache_ttl: 0, ..default_policy() });
    assert!(asked(&mut validator, "opaque-ttl", active(RESOURCE, NOW + 3600), 0).0);
    let (went_out, outcome) = asked(&mut validator, "opaque-ttl", active(RESOURCE, NOW + 3600), 0);
    assert!(went_out, "a past-TTL entry must be re-introspected");
    assert!(outcome.is_ok());
}

#[test]
fn fail_closed_rejects_on_outage() {
    let mut validator = introspecting(default_policy());
    let (_, outcome) = asked(&mut validator, "opaque-unanswerable", outage(), 0);
    assert_eq!(outcome.err(), Some(FailureReason::Inactive));
}

fn serving_cached(max_stale: u128) -> IntrospectionValidator {
    introspecting(IntrospectionPolicy {
        cache_ttl: 0,
        outage: OutagePolicy::ServeCached,
        max_stale,
    })
}

#[test]
fn serve_cached_serves_stale_positive_during_outage() {
    let mut validator = serving_cached(60_000_000_000);
    assert!(asked(&mut validator, "opaque-stale", active(RESOURCE, NOW + 3600), 0).1.is_ok());
    assert!(
        asked(&mut validator, "opaque-stale", outage(), 60_000_000_000).1.is_ok(),
        "a stale positive outcome must be served during an outage",
    );
    let (_, late) = asked(&mut validator, "opaque-stale", Reply::Unreachable, 60_000_000_001);
    assert_eq!(late.err(), Some(FailureReason::Inactive));
}

#[test]
fn serve_cached_rejects_when_stale_window_exhausted() {
    let mut validator = serving_cached(0);
    assert!(asked(&mut validator, "opaque-exhausted", active(RESOURCE, NOW + 3600), 0).1.is_ok());
    let (_, outcome) = asked(&mut validator, "opaque-exhausted", outage(), 1);
    assert_eq!(outcome.err(), Some(FailureReason::Inactive));
}

#[test]
fn serve_cached_does_not_serve_an_expired_token() {
    let mut validator = serving_cached(300_000_000_000);
    let (_, first) = asked(&mut validator, "opaque-expired", active(RESOURCE, NOW - 3600), 0);
    assert_eq!(first.err(), Some(FailureReason::Expired));
    let (_, second) = asked(&mut validator, "opaque-expired", outage(), 1);
    assert_eq!(second.err(), Some(FailureReason::Expired));
}

#[test]
fn unusable_replies_are_malformed() {
    assert_eq!(
        introspect(Reply::Response { status: 200, body: None }).err(),
        Some(IntrospectError::Malformed),
    );
    assert_eq!(introspect(Reply::Unreachable).err(), Some(IntrospectError::Outage));
    let mut validator = introspecting(default_policy());
    let reply = Reply::Response { status: 400, body: None };
    let (_, outcome) = asked(&mut validator, "t", reply, 0);
    assert_eq!(outcome.err(), Some(FailureReason::MalformedToken));
}

#[test]
fn cache_evicts_oldest_at_capacity() {
    let mut cache = IntrospectionCache::new(2);
    cache.insert([1; 32], Outcome::Inactive, 1);
    cache.insert([2; 32], Outcome::Inactive, 2);
    cache.insert([3; 32], Outcome::Inactive, 3);

    assert_eq!(cache.len(), 2, "capacity must be respected");
    assert!(cache.lookup(&[1; 32], 3).is_none(), "the oldest is evicted");
    assert!(cache.lookup(&[3; 32], 3).is_some(), "the newest is kept");
}

#[test]
fn flush_clears_the_cache() {
    let mut cache = IntrospectionCache::new(8);
    cache.insert([1; 32], Outcome::Inactive, 0);
    cache.flush();
    assert_eq!(cache.len(), 0);
}

#[test]
fn tokens_are_cached_under_their_digest() {
    assert_eq!(token_key("abc")[..4], [0xba, 0x78, 0x16, 0xbf]);
    assert_ne!(token_key("abc"), token_key("abd"));
}

fn authentication() -> AuthenticationConfig {
    AuthenticationConfig {
        issuer: vec![IssuerConfig { url: ISSUER.to_owned() }],
        resource: RESOURCE.to_owned(),
        resource_documentation_url: None,
        client_id: None,
        client_secret_credential: None,
        principal_subjects: vec![PRINCIPAL.to_owned()],
        validation: ValidationStrategy::Jwt,
        clock_skew_seconds: 30,
        jwks_cache_seconds: 600,
        discovery_cache_seconds: 3600,
        introspection_cache_seconds: 30,
        introspection_outage_policy: IntrospectionOutagePolicy::FailClosed,
        introspection_max_stale_seconds: 0,
        trust_anchors: Some(TrustAnchorsConfig {
            jwks_kid_pins: vec!["key-1".to_owned()],
            authorization_server_certificate_spki_pins: vec!["pin".to_owned()],
            ..TrustAnchorsConfig::default()
        }),
        cors: CorsConfig::default(),
        server_scopes: NameMap::new(),
    }
}

fn document(introspection: Option<&str>) -> DiscoveryDocument {
    DiscoveryDocument {
        issuer: ISSUER.to_owned(),
        jwks_uri: format!("{ISSUER}/jwks"),
        introspection_endpoint: introspection.map(str::to_owned),
        signing_algorithms: Vec::new(),
        scopes_supported: Vec::new(),
        resource_indicators_supported: true,
    }
}

#[test]
fn refreshing_jwt_auth_state_fetches_the_jwks() {
    let config = authentication();
    let mut state = assemble_auth_state(&config, &document(None), Err("unused".to_owned()))
        .ok()
        .expect("local validation needs no secret");
    state.refresh_keys(Ok(vec![named_key("key-1")]));
    match state.validator() {
        Validator::Jwt(jwt) => {
            assert_eq!(jwt.jwks_uri(), "https://issuer.example.test/jwks");
            assert!(matches!(jwt.lookup_key("key-1", 0), Lookup::Found(_)));
        }
        Validator::Introspection(_) => panic!("expected local validation"),
    }
}

#[test]
fn refreshing_introspection_auth_state_is_a_noop() {
    let mut strategy = Validator::Introspection(introspecting(default_policy()));
    strategy.refresh_keys(Ok(vec![named_key("key-1")]));
    assert!(matches!(strategy.validate("Bearer opaque", 0, NOW), Opening::Remote(Step::Ask(_))));
    if let Validator::Introspection(v) = &mut strategy {
        assert!(v.conclude("opaque", active(RESOURCE, NOW + 60), 0, NOW).is_ok());
    }
    assert!(matches!(strategy.validate("Bearer opaque", 1, NOW), Opening::Remote(Step::Done(Ok(_)))));
    strategy.flush_cache();
    assert!(matches!(strategy.validate("Bearer opaque", 1, NOW), Opening::Remote(Step::Ask(_))));
    assert!(matches!(
        strategy.validate("Bearer", 1, NOW),
        Opening::Remote(Step::Done(Err(FailureReason::MissingToken))),
    ));
}

#[test]
fn misconfigured_introspection_secret_fails_at_startup() {
    let mut config = authentication();
    config.validation = ValidationStrategy::Introspection;
    config.client_id = Some("gateway".to_owned());
    config.client_secret_credential = Some("missing-secret".to_owned());
    let endpoint = "https://issuer.example.test/introspect";
    let error = introspection_validator(
        &config,
        ISSUER,
        &document(Some(endpoint)),
        Err("not found".to_owned()),
    )
    .err()
    .expect("the secret is missing");
    assert_eq!(
        error.message(),
        "could not resolve introspection client secret 'missing-secret': not found",
    );
    let needs = introspection_requirements(&config, &document(Some(endpoint)))
        .ok()
        .expect("everything is configured");
    assert_eq!(needs.2, "missing-secret");
    assert!(matches!(
        introspection_requirements(&config, &document(None)).err(),
        Some(AuthSetupError::NoIntrospectionEndpoint),
    ));
    config.client_secret_credential = None;
    assert!(matches!(
        introspection_requirements(&config, &document(Some(endpoint))).err(),
        Some(AuthSetupError::MissingClientSecret),
    ));
    config.client_id = None;
    assert!(matches!(
        introspection_requirements(&config, &document(Some(endpoint))).err(),
        Some(AuthSetupError::MissingClientId),
    ));
    config.issuer.clear();
    assert!(matches!(issuer_url(&config).err(), Some(AuthSetupError::NoIssuer)));
    let failed = AuthSetupError::Discovery(DiscoveryError::UnexpectedStatus { status: 500 });
    assert!(failed
        .message()
        .starts_with("could not fetch the issuer's discovery document: "));
}

#[test]
fn pins_of_the_configuration_are_used() {
    let config = authentication();
    assert_eq!(auth_certificate_pins(&config), Some(vec!["pin".to_owned()]));
    assert_eq!(discovery_client(&config, ISSUER).spki_pins(), &Some(vec!["pin".to_owned()]));
    let mut unpinned = authentication();
    if let Some(anchors) = &mut unpinned.trust_anchors {
        anchors.authorization_server_certificate_spki_pins.clear();
    }
    assert_eq!(auth_certificate_pins(&unpinned), None);
    assert_eq!(discovery_client(&unpinned, ISSUER).spki_pins(), &None);
    assert_eq!(claim_checks(&config, ISSUER).clock_skew, SKEW);
    let key = es256("key-2");
    let token = mint(&key, "key-2", &well_formed_claims());
    let pinned = jwt_validator(&config, ISSUER, &document(None));
    assert_eq!(
        pinned.admit_token(&format!("Bearer {token}")).err(),
        Some(FailureReason::KidNotPinned),
    );
}

#[test]
fn sanitises_subject_before_logging() {
    let hostile = "mallory\n{\"forged\":true}";
    let claims = well_formed_claims().replace(PRINCIPAL, "mallory\\n{\\\"forged\\\":true}");
    assert_eq!(
        read_claims(&claims).map(|claims| claims.sub),
        Some(hostile.to_owned()),
    );
    assert_eq!(refused_claims(&claims), Some(FailureReason::UnknownPrincipal));
    let logged = sanitise_subject(hostile);
    assert!(
        logged.contains("%0A"),
        "the newline must be percent-encoded in the log, got: {logged:?}",
    );
    assert!(
        !logged.contains("mallory\n"),
        "the raw newline must not reach the log",
    );
}

fn scoped(mut config: AuthenticationConfig) -> AuthenticationConfig {
    config
        .server_scopes
        .insert("gitlab".to_owned(), vec!["mcp:invoke:gitlab".to_owned()]);
    config
}

#[test]
fn valid_token_reaches_handler_with_claims() {
    let key = es256("key-1");
    let token = mint(&key, "key-1", &well_formed_claims());
    let header = format!("Bearer {token}");
    let config = scoped(authentication());
    let mut state = assemble_auth_state(&config, &document(None), Err("unused".to_owned()))
        .ok()
        .expect("local validation needs no secret");
    assert!(state.screen(Some(&header)).is_ok());
    let mut step = match state.validator().validate(&header, 0, NOW) {
        Opening::Local(step) => step,
        Opening::Remote(_) => panic!("expected local validation"),
    };
    let validation = loop {
        let Validator::Jwt(jwt) = state.validator_mut() else {
            panic!("expected local validation");
        };
        step = match step {
            JwtStep::Done(outcome) => break outcome,
            JwtStep::FetchKeys(token) => jwt.fetched(token, Ok(vec![copy(&key.jwk)]), 0),
            JwtStep::ReadClaims(signed) => {
                let claims = read_claims(std::str::from_utf8(signed.as_bytes()).unwrap());
                JwtStep::Done(jwt.conclude(signed, claims, NOW))
            }
        };
    };
    let claims = state
        .authenticate(validation, "/servers/gitlab/mcp")
        .ok()
        .expect("the request is let through");
    assert_eq!(claims.subject(), PRINCIPAL, "the handler should see the validated subject");
}

#[test]
fn introspection_strategy_reaches_handler_with_claims() {
    let mut config = scoped(authentication());
    config.validation = ValidationStrategy::Introspection;
    config.client_id = Some("gateway".to_owned());
    config.client_secret_credential = Some("introspection-secret".to_owned());
    let endpoint = "https://issuer.example.test/introspect";
    let secret = Secret::new("value".to_owned());
    let mut state = assemble_auth_state(&config, &document(Some(endpoint)), Ok(secret))
        .ok()
        .expect("introspection auth state should build");
    assert!(matches!(
        state.validator().validate("Bearer opaque-handler", 0, NOW),
        Opening::Remote(Step::Ask(_)),
    ));
    let Validator::Introspection(validator) = state.validator_mut() else {
        panic!("expected remote validation");
    };
    let validation = validator.conclude("opaque-handler", active(RESOURCE, NOW + 3600), 0, NOW);
    let claims = state
        .authenticate(validation, "/servers/gitlab/mcp")
        .ok()
        .expect("the request is let through");
    assert_eq!(claims.subject(), PRINCIPAL, "the handler should see the validated subject");
}

use mcp_gateway::authentication::{
    AuthenticationConfig, CorsConfig, IntrospectionOutagePolicy, IssuerConfig, TrustAnchorsConfig,
    ValidationStrategy,
};
use mcp_gateway::digest::sha256_hex;
use mcp_gateway::discovery::{
    emit_discovery_warnings, is_symmetric_or_none, split_origin_and_path, well_known_url,
    DiscoveryClient, DiscoveryDocument, DiscoveryError, FetchAction, FetchEvent, FetchStage, Next,
    Path,
};
use mcp_gateway::metadata::protected_resource_metadata;
use mcp_gateway::names::NameMap;
use mcp_gateway::trust::{
    check_hostname, check_validity, dns_name_matches, ip_address_matches, spki_sha256_base64,
    AltName, Certificate, Host, SpkiPinVerifier,
};

fn document_with_resource_indicators(supported: bool) -> DiscoveryDocument {
    DiscoveryDocument {
        issuer: "https://issuer.example.test".to_owned(),
        jwks_uri: "https://issuer.example.test/jwks".to_owned(),
        introspection_endpoint: None,
        signing_algorithms: vec!["ES256".to_owned()],
        scopes_supported: Vec::new(),
        resource_indicators_supported: supported,
    }
}

#[test]
fn warns_when_resource_indicators_unadvertised() {
    let document = document_with_resource_indicators(false);
    let captured = emit_discovery_warnings(&document).join("\n");
    assert!(
        captured.contains("RFC 8707"),
        "expected an RFC 8707 advisory, got: {captured:?}",
    );
}

#[test]
fn no_warning_when_resource_indicators_advertised() {
    let document = document_with_resource_indicators(true);
    let captured = emit_discovery_warnings(&document).join("\n");
    assert!(
        !captured.contains("RFC 8707"),
        "unexpected RFC 8707 advisory when support is advertised: {captured:?}",
    );
}

#[test]
fn well_known_url_appends_for_a_path_less_base() {
    assert_eq!(
        well_known_url("https://issuer.example.test", "oauth-authorization-server"),
        "https://issuer.example.test/.well-known/oauth-authorization-server",
    );
}

#[test]
fn well_known_url_inserts_before_a_path() {
    assert_eq!(
        well_known_url(
            "https://issuer.example.test/tenant1",
            "oauth-authorization-server",
        ),
        "https://issuer.example.test/.well-known/oauth-authorization-server/tenant1",
    );
}

#[test]
fn well_known_url_ignores_a_trailing_slash() {
    assert_eq!(
        well_known_url("https://issuer.example.test/", "oauth-protected-resource"),
        "https://issuer.example.test/.well-known/oauth-protected-resource",
    );
}

#[test]
fn well_known_url_preserves_port_and_multi_segment_path() {
    assert_eq!(
        well_known_url("https://host.example:8443/a/b", "oauth-protected-resource"),
        "https://host.example:8443/.well-known/oauth-protected-resource/a/b",
    );
}

#[test]
fn urls_split_into_origin_and_path() {
    assert_eq!(
        split_origin_and_path("https://host.example/a"),
        Some(("https://host.example".to_owned(), "a".to_owned())),
    );
    assert_eq!(split_origin_and_path("host.example/a"), None);
}

const ISSUER: &str = "https://issuer.example.test";

fn client() -> DiscoveryClient {
    DiscoveryClient::new(ISSUER.to_owned())
}

#[test]
fn fetches_oidc_discovery_document() {
    assert_eq!(
        client().primary_url(),
        "https://issuer.example.test/.well-known/openid-configuration",
    );
    assert!(matches!(client().on_status(Path::Primary, 200), Next::ReadBody));
    let document = client()
        .accept("{}", Ok(document_with_resource_indicators(true)))
        .expect("an acceptable document");
    assert_eq!(document.jwks_uri, "https://issuer.example.test/jwks");
}

#[test]
fn a_fetch_goes_through_both_paths_to_the_document() {
    let client = client();
    let (stage, action) = client.begin_fetch();
    match action {
        FetchAction::Ask(url) => {
            assert_eq!(url, "https://issuer.example.test/.well-known/openid-configuration");
        }
        other => panic!("expected a request, got {other:?}"),
    }
    let (stage, action) = client.fetch(stage, FetchEvent::Answered(404));
    match action {
        FetchAction::Ask(url) => {
            assert_eq!(url, "https://issuer.example.test/.well-known/oauth-authorization-server");
        }
        other => panic!("expected a second request, got {other:?}"),
    }
    let (stage, action) = client.fetch(stage, FetchEvent::Answered(200));
    assert!(matches!(action, FetchAction::ReadBody));
    let read = FetchEvent::Read {
        body: "{}".to_owned(),
        parsed: Ok(document_with_resource_indicators(true)),
    };
    let (stage, action) = client.fetch(stage, read);
    assert_eq!(stage, FetchStage::Ended);
    match action {
        FetchAction::Finish(Ok(document)) => assert_eq!(document.issuer, ISSUER),
        other => panic!("expected the document, got {other:?}"),
    }
}

#[test]
fn a_fetch_ends_with_the_first_failure() {
    let client = client();
    let asking = FetchStage::Asking(Path::Fallback);
    let (stage, action) = client.fetch(asking, FetchEvent::Answered(404));
    assert_eq!(stage, FetchStage::Ended);
    assert!(matches!(
        action,
        FetchAction::Finish(Err(DiscoveryError::UnexpectedStatus { status: 404 })),
    ));
    let broken = FetchEvent::Failed("connection reset".to_owned());
    match client.fetch(FetchStage::Reading, broken) {
        (FetchStage::Ended, FetchAction::Finish(Err(error))) => {
            assert_eq!(error.message(), "discovery request failed: connection reset");
        }
        other => panic!("expected a failure, got {other:?}"),
    }
}

#[test]
fn falls_back_to_rfc8414_when_oidc_path_is_404() {
    match client().on_status(Path::Primary, 404) {
        Next::TryFallback(url) => assert_eq!(
            url,
            "https://issuer.example.test/.well-known/oauth-authorization-server",
        ),
        other => panic!("expected the other path, got {other:?}"),
    }
}

#[test]
fn rejects_non_success_oidc_status() {
    assert!(matches!(
        client().on_status(Path::Primary, 500),
        Next::Fail(DiscoveryError::UnexpectedStatus { status: 500 }),
    ));
}

#[test]
fn rejects_non_success_rfc8414_fallback_status() {
    assert!(matches!(
        client().on_status(Path::Fallback, 404),
        Next::Fail(DiscoveryError::UnexpectedStatus { status: 404 }),
    ));
}

#[test]
fn rejects_issuer_mismatch() {
    let mut document = document_with_resource_indicators(true);
    document.issuer = "https://evil.example.test".to_owned();
    match client().accept("{}", Ok(document)) {
        Err(DiscoveryError::IssuerMismatch { configured, advertised }) => {
            assert_eq!(configured, ISSUER);
            assert_eq!(advertised, "https://evil.example.test");
        }
        other => panic!("expected a mismatch, got {other:?}"),
    }
}

#[test]
fn rejects_symmetric_or_none_algorithms() {
    for name in ["HS256", "none"] {
        let mut document = document_with_resource_indicators(true);
        document.signing_algorithms.push(name.to_owned());
        assert!(matches!(
            client().accept("{}", Ok(document)),
            Err(DiscoveryError::UnsupportedAlgorithm(rejected)) if rejected == name,
        ));
    }
}

#[test]
fn rejects_lowercase_symmetric_algorithm() {
    let mut document = document_with_resource_indicators(true);
    document.signing_algorithms.push("hs256".to_owned());
    assert!(client().accept("{}", Ok(document)).is_err());
    assert!(is_symmetric_or_none("None"));
    assert!(!is_symmetric_or_none("RS256"));
}

#[test]
fn rejects_discovery_document_hash_mismatch() {
    let pinned = client().with_discovery_document_sha256("00".repeat(32));
    match pinned.accept("{}", Ok(document_with_resource_indicators(true))) {
        Err(DiscoveryError::DiscoveryHashMismatch { expected, actual }) => {
            assert_eq!(expected, "00".repeat(32));
            assert_eq!(actual, sha256_hex("{}"));
        }
        other => panic!("expected a mismatch, got {other:?}"),
    }
}

#[test]
fn accepts_matching_discovery_document_hash() {
    let pinned = client().with_discovery_document_sha256(sha256_hex("{}").to_uppercase());
    assert!(pinned
        .accept("{}", Ok(document_with_resource_indicators(true)))
        .is_ok());
}

#[test]
fn an_unreadable_document_is_a_parse_error() {
    let error = client()
        .accept("{}", Err("missing field `issuer`".to_owned()))
        .err()
        .expect("not a document");
    assert!(matches!(error, DiscoveryError::Parse(_)));
    assert!(error.message().contains("missing field `issuer`"), "{}", error.message());
}

#[test]
fn the_digest_of_a_text_is_its_sha256() {
    assert_eq!(
        sha256_hex("abc"),
        "ba7816bf8f01cfea414140de5dae2223b00361a396177a9cb410ff61f20015ad",
    );
}

#[test]
fn pins_reach_the_verifier() {
    let pins = vec!["a".to_owned(), "b".to_owned()];
    assert_eq!(client().with_spki_pins(&pins).spki_pins(), &Some(pins));
    assert_eq!(client().with_spki_pins(&Vec::new()).spki_pins(), &Some(Vec::new()));
    assert_eq!(client().spki_pins(), &None);
}

fn config() -> AuthenticationConfig {
    AuthenticationConfig {
        issuer: vec![IssuerConfig { url: "https://identity.example.coop".to_owned() }],
        resource: "https://alice.gateway.example.coop".to_owned(),
        resource_documentation_url: None,
        client_id: None,
        client_secret_credential: None,
        principal_subjects: vec!["did:arai:alice".to_owned()],
        validation: ValidationStrategy::default(),
        clock_skew_seconds: 30,
        jwks_cache_seconds: 3600,
        discovery_cache_seconds: 3600,
        introspection_cache_seconds: 60,
        introspection_outage_policy: IntrospectionOutagePolicy::default(),
        introspection_max_stale_seconds: 0,
        trust_anchors: None,
        cors: CorsConfig {
            allowed_origins: vec!["https://app.example.coop".to_owned()],
            ..CorsConfig::default()
        },
        server_scopes: NameMap::new(),
    }
}

#[test]
fn publishes_required_fields() {
    let metadata = protected_resource_metadata(&config());

    assert_eq!(metadata.resource, "https://alice.gateway.example.coop");
    assert_eq!(
        metadata.authorization_servers,
        vec!["https://identity.example.coop".to_owned()],
    );
    assert_eq!(metadata.bearer_methods_supported, vec!["header".to_owned()]);
    assert!(
        !format!("{metadata:?}").contains("resource_signing_alg_values_supported"),
        "the gateway must not publish resource_signing_alg_values_supported: {metadata:?}",
    );
}

#[test]
fn scopes_supported_is_the_sorted_union() {
    let mut config = config();
    config.server_scopes.insert(
        "gitlab".to_owned(),
        vec!["mcp:invoke:gitlab".to_owned(), "mcp:invoke:shared".to_owned()],
    );
    config.server_scopes.insert(
        "github".to_owned(),
        vec!["mcp:invoke:shared".to_owned(), "mcp:invoke:github".to_owned()],
    );
    let metadata = protected_resource_metadata(&config);

    assert_eq!(
        metadata.scopes_supported,
        vec![
            "mcp:invoke:github".to_owned(),
            "mcp:invoke:gitlab".to_owned(),
            "mcp:invoke:shared".to_owned(),
        ],
    );
}

#[test]
fn resource_documentation_only_when_configured() {
    let without = protected_resource_metadata(&config());
    assert!(without.resource_documentation.is_none());

    let mut documented = config();
    documented.resource_documentation_url = Some("https://gateway.example.coop/docs".to_owned());
    let with = protected_resource_metadata(&documented);
    assert_eq!(
        with.resource_documentation.as_deref(),
        Some("https://gateway.example.coop/docs"),
    );
}

#[test]
fn empty_trust_anchors_are_empty() {
    assert!(TrustAnchorsConfig::default().is_empty());
}

fn loopback_certificate_der() -> Vec<u8> {
    rcgen::generate_simple_self_signed(vec!["localhost".to_owned(), "127.0.0.1".to_owned()])
        .expect("certificate should generate")
        .cert
        .der()
        .to_vec()
}

fn read(der: &[u8]) -> Certificate {
    let (_, parsed) = x509_parser::parse_x509_certificate(der).expect("certificate parses");
    Certificate {
        spki: parsed.public_key().raw.to_vec(),
        not_before: parsed.validity().not_before.timestamp(),
        not_after: parsed.validity().not_after.timestamp(),
    }
}

fn seconds_now() -> u64 {
    std::time::SystemTime::now()
        .duration_since(std::time::UNIX_EPOCH)
        .expect("the clock is past the epoch")
        .as_secs()
}

fn dns_host(name: &str) -> Host {
    Host { name: AltName::Dns(name.to_owned()), shown: name.to_owned() }
}

fn loopback_names() -> Result<Option<Vec<AltName>>, String> {
    Ok(Some(vec![
        AltName::Dns("localhost".to_owned()),
        AltName::Ip(vec![127, 0, 0, 1]),
    ]))
}

#[test]
fn validity_accepts_a_current_certificate() {
    let parsed = read(&loopback_certificate_der());
    assert!(check_validity(&parsed, seconds_now()).is_ok());
}

#[test]
fn validity_rejects_an_expired_certificate() {
    let parsed = read(&loopback_certificate_der());
    let not_after = u64::try_from(parsed.not_after).unwrap_or(u64::MAX);
    let past_expiry = not_after.saturating_add(60 * 60 * 24);
    assert!(check_validity(&parsed, past_expiry).is_err());
}

#[test]
fn validity_rejects_a_certificate_of_the_future() {
    let parsed = Certificate { spki: Vec::new(), not_before: 100, not_after: 200 };
    assert!(check_validity(&parsed, 99).is_err());
    assert!(check_validity(&parsed, 100).is_ok());
    assert!(check_validity(&parsed, 200).is_ok());
    assert!(check_validity(&parsed, 201).is_err());
}

#[test]
fn hostname_accepts_a_listed_name() {
    assert!(check_hostname(&loopback_names(), &dns_host("localhost")).is_ok());
}

#[test]
fn hostname_rejects_an_unlisted_name() {
    assert!(check_hostname(&loopback_names(), &dns_host("evil.example")).is_err());
}

#[test]
fn hostname_accepts_a_listed_address_only() {
    let here = Host { name: AltName::Ip(vec![127, 0, 0, 1]), shown: "127.0.0.1".to_owned() };
    let there = Host { name: AltName::Ip(vec![127, 0, 0, 2]), shown: "127.0.0.2".to_owned() };
    assert!(check_hostname(&loopback_names(), &here).is_ok());
    assert!(check_hostname(&loopback_names(), &there).is_err());
    assert!(check_hostname(&Ok(None), &here).is_err());
    assert!(check_hostname(&Err("broken".to_owned()), &here).is_err());
    assert!(ip_address_matches(&vec![1, 2, 3, 4], &vec![1, 2, 3, 4]));
    assert!(!ip_address_matches(&vec![1, 2, 3, 4], &vec![1, 2, 3]));
}

#[test]
fn wildcard_dns_name_matches_one_label() {
    assert!(dns_name_matches("*.example.coop", "auth.example.coop"));
    assert!(!dns_name_matches("*.example.coop", "example.coop"));
    assert!(!dns_name_matches("*.example.coop", "a.b.example.coop"));
    assert!(dns_name_matches("auth.example.coop", "auth.example.coop"));
    assert!(dns_name_matches("Auth.Example.Coop", "auth.example.coop"));
}

#[test]
fn accepts_matching_spki_pin() {
    let der = loopback_certificate_der();
    let pin = spki_sha256_base64(&read(&der));
    let verifier = SpkiPinVerifier::new(&vec![pin]);
    assert!(verifier
        .verify_server_cert(&der, &dns_host("localhost"), seconds_now())
        .is_ok());
}

#[test]
fn rejects_spki_pin_mismatch() {
    let der = loopback_certificate_der();
    let other = spki_sha256_base64(&read(&loopback_certificate_der()));
    let verifier = SpkiPinVerifier::new(&vec![other]);
    assert!(verifier
        .verify_server_cert(&der, &dns_host("localhost"), seconds_now())
        .is_err());
}

#[test]
fn rejects_certificate_not_issued_for_the_host() {
    let der = loopback_certificate_der();
    let pin = spki_sha256_base64(&read(&der));
    let verifier = SpkiPinVerifier::new(&vec![pin]);
    assert!(verifier
        .verify_server_cert(&der, &dns_host("evil.example"), seconds_now())
        .is_err());
    assert!(verifier
        .verify_server_cert(&[1, 2, 3], &dns_host("localhost"), seconds_now())
        .is_err());
    let nothing = SpkiPinVerifier::new(&Vec::new());
    assert!(nothing
        .verify_server_cert(&der, &dns_host("localhost"), seconds_now())
        .is_err());
}

#[test]
fn the_pin_of_a_key_is_the_base64_of_its_digest() {
    let certificate = Certificate { spki: b"abc".to_vec(), not_before: 0, not_after: 0 };
    assert_eq!(
        spki_sha256_base64(&certificate),
        "ungWv48Bz+pBQUDeXa4iI7ADYaOWF3qctBD/YfIAFa0=",
    );
}

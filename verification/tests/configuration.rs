use std::borrow::Cow;

use mcp_gateway::authentication::{
    emit_load_time_warnings, issuers_of, validate as validate_authentication,
    AuthenticationConfig, CorsConfig, IntrospectionOutagePolicy, IssuerConfig, IssuerField,
    TrustAnchorsConfig, ValidationStrategy, MAXIMUM_INTROSPECTION_MAX_STALE_SECONDS,
};
use mcp_gateway::config::{interpolate_configuration, resolve_credentials, validate};
use mcp_gateway::cors::cors_layer;
use mcp_gateway::interpolate::{interpolate, InterpolationError};
use mcp_gateway::load::{load, ConfigError, ConfigFile};
use mcp_gateway::names::NameMap;
use mcp_gateway::secret::Secret;
use mcp_gateway::server::{
    ClientIdentityHeaders, CredentialInjection, GatewayConfig, ServerDefinition, Transport,
};

fn baseline_authentication() -> AuthenticationConfig {
    AuthenticationConfig {
        issuer: vec![IssuerConfig {
            url: "https://identity.example.coop".to_owned(),
        }],
        resource: "https://alice.gateway.example.coop".to_owned(),
        resource_documentation_url: None,
        client_id: None,
        client_secret_credential: None,
        principal_subjects: vec!["did:arai:example:alice".to_owned()],
        validation: ValidationStrategy::Jwt,
        clock_skew_seconds: 30,
        jwks_cache_seconds: 600,
        discovery_cache_seconds: 3600,
        introspection_cache_seconds: 30,
        introspection_outage_policy: IntrospectionOutagePolicy::FailClosed,
        introspection_max_stale_seconds: 0,
        trust_anchors: Some(TrustAnchorsConfig {
            jwks_kid_pins: vec!["kid-2026-01".to_owned()],
            ..TrustAnchorsConfig::default()
        }),
        cors: CorsConfig {
            allowed_origins: vec!["https://app.example.coop".to_owned()],
            ..CorsConfig::default()
        },
        server_scopes: NameMap::new(),
    }
}

fn server(transport: Transport) -> ServerDefinition {
    ServerDefinition {
        enabled: true,
        env: NameMap::new(),
        credential: None,
        credential_header: None,
        credential_prefix: None,
        request_timeout_seconds: None,
        credential_injection: None,
        transport,
    }
}

fn stdio(command: &str) -> ServerDefinition {
    server(Transport::Stdio { command: command.to_owned(), args: vec![] })
}

fn http(url: &str) -> ServerDefinition {
    server(Transport::Http { url: url.to_owned(), headers: NameMap::new() })
}

fn gateway(servers: Vec<(&str, ServerDefinition)>) -> GatewayConfig {
    let mut config = GatewayConfig::default();
    for (name, definition) in servers {
        config.servers.insert(name.to_owned(), definition);
    }
    config
}

fn secrets(entries: &[(&str, &str)]) -> NameMap<Secret> {
    let mut map = NameMap::new();
    for (key, value) in entries {
        map.insert((*key).to_owned(), Secret::new((*value).to_owned()));
    }
    map
}

fn source(entries: &[(&str, &str)]) -> NameMap<String> {
    let mut map = NameMap::new();
    for (key, value) in entries {
        map.insert((*key).to_owned(), (*value).to_owned());
    }
    map
}

fn no_servers() -> NameMap<ServerDefinition> {
    NameMap::new()
}

#[test]
fn issuer_accepts_string_form() {
    let issuers = issuers_of(IssuerField::Single("https://identity.example.coop".to_owned()));
    assert_eq!(issuers.len(), 1);
    assert_eq!(issuers[0].url, "https://identity.example.coop");
}

#[test]
fn issuer_accepts_array_form() {
    let issuers = issuers_of(IssuerField::Many(vec![
        "https://identity.example.coop".to_owned(),
    ]));
    assert_eq!(issuers.len(), 1);
    assert_eq!(issuers[0].url, "https://identity.example.coop");
}

#[test]
fn baseline_configuration_validates() {
    let authentication = baseline_authentication();
    assert!(validate_authentication(&authentication, &no_servers()).is_empty());
}

#[test]
fn introspection_without_client_id_rejects() {
    let mut authentication = baseline_authentication();
    authentication.validation = ValidationStrategy::Introspection;
    authentication.client_id = None;
    authentication.client_secret_credential = Some("secret".to_owned());

    let errors = validate_authentication(&authentication, &no_servers());
    assert!(
        errors.iter().any(|message| message.contains("client_id")),
        "expected client_id error, got {errors:?}"
    );
}

#[test]
fn introspection_without_client_secret_credential_rejects() {
    let mut authentication = baseline_authentication();
    authentication.validation = ValidationStrategy::Introspection;
    authentication.client_id = Some("gateway-alice".to_owned());
    authentication.client_secret_credential = None;

    let errors = validate_authentication(&authentication, &no_servers());
    assert!(
        errors
            .iter()
            .any(|message| message.contains("client_secret_credential")),
        "expected client_secret_credential error, got {errors:?}"
    );
}

#[test]
fn clock_skew_above_ceiling_rejects() {
    let mut authentication = baseline_authentication();
    authentication.clock_skew_seconds = 301;
    let errors = validate_authentication(&authentication, &no_servers());
    assert!(
        errors
            .iter()
            .any(|message| message.contains("clock_skew_seconds")),
        "expected clock_skew_seconds error, got {errors:?}"
    );
}

#[test]
fn clock_skew_at_ceiling_accepts() {
    let mut authentication = baseline_authentication();
    authentication.clock_skew_seconds = 300;
    assert!(validate_authentication(&authentication, &no_servers()).is_empty());
}

#[test]
fn introspection_max_stale_above_ceiling_rejects() {
    let mut authentication = baseline_authentication();
    authentication.introspection_max_stale_seconds = MAXIMUM_INTROSPECTION_MAX_STALE_SECONDS + 1;
    let errors = validate_authentication(&authentication, &no_servers());
    assert!(
        errors
            .iter()
            .any(|message| message.contains("introspection_max_stale_seconds")),
        "expected introspection_max_stale_seconds error, got {errors:?}",
    );
}

#[test]
fn introspection_max_stale_at_ceiling_accepts() {
    let mut authentication = baseline_authentication();
    authentication.introspection_max_stale_seconds = MAXIMUM_INTROSPECTION_MAX_STALE_SECONDS;
    assert!(validate_authentication(&authentication, &no_servers()).is_empty());
}

#[test]
fn multi_issuer_rejects_in_v0() {
    let mut authentication = baseline_authentication();
    authentication.issuer = vec![
        IssuerConfig {
            url: "https://one.example.coop".to_owned(),
        },
        IssuerConfig {
            url: "https://two.example.coop".to_owned(),
        },
    ];

    let errors = validate_authentication(&authentication, &no_servers());
    assert!(
        errors.iter().any(|message| message.contains("issuer")),
        "expected issuer error, got {errors:?}"
    );
}

#[test]
fn empty_issuer_rejects() {
    let mut authentication = baseline_authentication();
    authentication.issuer.clear();
    let errors = validate_authentication(&authentication, &no_servers());
    assert!(errors.iter().any(|message| message.contains("issuer")));
}

#[test]
fn empty_principal_subjects_rejects() {
    let mut authentication = baseline_authentication();
    authentication.principal_subjects.clear();
    let errors = validate_authentication(&authentication, &no_servers());
    assert!(
        errors
            .iter()
            .any(|message| message.contains("principal_subjects")),
        "expected principal_subjects error, got {errors:?}"
    );
}

#[test]
fn cors_wildcard_origin_rejects() {
    let mut authentication = baseline_authentication();
    authentication.cors.allowed_origins.push("*".to_owned());
    let errors = validate_authentication(&authentication, &no_servers());
    assert!(
        errors
            .iter()
            .any(|message| message.contains("allowed_origins") && message.contains("wildcard")),
        "expected wildcard CORS error, got {errors:?}"
    );
}

fn cors_errors(origins: &[&str], headers: &[&str]) -> Vec<String> {
    let mut authentication = baseline_authentication();
    authentication.cors.allowed_origins = origins.iter().map(|o| (*o).to_owned()).collect();
    authentication.cors.allowed_headers = headers.iter().map(|h| (*h).to_owned()).collect();
    validate_authentication(&authentication, &no_servers())
}

#[test]
fn origins_have_a_scheme_and_a_host() {
    let accepted = [
        "https://app.example.coop",
        "http://localhost:8080",
        "https://[::1]:8443",
        "chrome-extension://abcdef",
    ];
    assert_eq!(cors_errors(&accepted, &[]), Vec::<String>::new());
    let malformed = [
        "",
        "app.example.coop",
        "https:app.example.coop",
        "https:/app.example.coop",
        "://app.example.coop",
        "https://",
        "https:///path",
        "https://:8080",
        "ht tps://app.example.coop",
        "https://app example.coop",
        "https://bad\n.example",
    ];
    for origin in malformed {
        assert_eq!(
            cors_errors(&[origin], &[]),
            vec![format!(
                "authentication.cors.allowed_origins: \"{origin}\" is not a URL with a scheme and a host"
            )],
        );
    }
    assert_eq!(cors_errors(&["*", "https://app.example.coop"], &[]).len(), 1);
}

#[test]
fn request_headers_are_header_names() {
    assert_eq!(
        cors_errors(&[], &["X-Trace", "not a name", ""]),
        vec![
            "authentication.cors.allowed_headers: \"not a name\" is not a header name".to_owned(),
            "authentication.cors.allowed_headers: \"\" is not a header name".to_owned(),
        ],
    );
}

#[test]
fn server_scopes_referencing_unknown_server_rejects() {
    let mut authentication = baseline_authentication();
    authentication
        .server_scopes
        .insert("missing".to_owned(), vec!["mcp:invoke:missing".to_owned()]);

    let errors = validate_authentication(&authentication, &no_servers());
    assert!(
        errors
            .iter()
            .any(|message| message.contains("server_scopes") && message.contains("missing")),
        "expected server_scopes/unknown-server error, got {errors:?}"
    );
}

#[test]
fn server_in_servers_without_scope_entry_rejects() {
    let authentication = baseline_authentication();
    let mut servers = no_servers();
    servers.insert("gitlab".to_owned(), stdio("/bin/gitlab"));

    let errors = validate_authentication(&authentication, &servers);
    assert!(
        errors
            .iter()
            .any(|message| message.contains("gitlab") && message.contains("scope")),
        "expected missing-scope error for gitlab, got {errors:?}"
    );
}

#[test]
fn matched_server_and_scope_validates() {
    let mut authentication = baseline_authentication();
    authentication
        .server_scopes
        .insert("gitlab".to_owned(), vec!["mcp:invoke:gitlab".to_owned()]);

    let mut servers = no_servers();
    servers.insert("gitlab".to_owned(), stdio("/bin/gitlab"));

    assert!(validate_authentication(&authentication, &servers).is_empty());
}

#[test]
fn warning_emitted_when_trust_anchors_absent() {
    let mut authentication = baseline_authentication();
    authentication.trust_anchors = None;

    let captured = emit_load_time_warnings(&authentication).join("\n");
    assert!(
        captured.contains("trust_anchors"),
        "expected trust_anchors warning, got: {captured}"
    );
}

#[test]
fn warning_emitted_when_trust_anchors_empty() {
    let mut authentication = baseline_authentication();
    authentication.trust_anchors = Some(TrustAnchorsConfig::default());

    let captured = emit_load_time_warnings(&authentication).join("\n");
    assert!(captured.contains("trust_anchors"));
}

#[test]
fn no_warning_emitted_when_any_pin_set() {
    let authentication = baseline_authentication();
    let captured = emit_load_time_warnings(&authentication).join("\n");
    assert!(
        !captured.contains("trust_anchors"),
        "unexpected trust_anchors warning when a pin is set: {captured}"
    );
}

#[test]
fn templates_without_dollar_are_borrowed_unchanged() {
    let env = source(&[]);
    let result = interpolate("plain string with no markers", &env).unwrap();
    assert_eq!(result, "plain string with no markers");
    assert!(matches!(result, Cow::Borrowed(_)));
}

#[test]
fn expands_simple_variable() {
    let env = source(&[("HOST", "example.com")]);
    let result = interpolate("https://${HOST}/path", &env).unwrap();
    assert_eq!(result, "https://example.com/path");
}

#[test]
fn expands_multiple_variables() {
    let env = source(&[("USER", "alice"), ("HOST", "example.com")]);
    let result = interpolate("user=${USER}, host=${HOST}", &env).unwrap();
    assert_eq!(result, "user=alice, host=example.com");
}

#[test]
fn default_fallback_used_when_variable_absent() {
    let env = source(&[]);
    let result = interpolate("${MISSING:-fallback}", &env).unwrap();
    assert_eq!(result, "fallback");
}

#[test]
fn default_fallback_used_when_variable_is_empty() {
    let env = source(&[("EMPTY", "")]);
    let result = interpolate("${EMPTY:-fallback}", &env).unwrap();
    assert_eq!(result, "fallback");
}

#[test]
fn set_variable_takes_precedence_over_default() {
    let env = source(&[("SET", "actual")]);
    let result = interpolate("${SET:-fallback}", &env).unwrap();
    assert_eq!(result, "actual");
}

#[test]
fn double_dollar_escapes_to_literal_dollar() {
    let env = source(&[("VAR", "should-not-appear")]);
    let result = interpolate("price: $$50; literal: $${VAR}", &env).unwrap();
    assert_eq!(result, "price: $50; literal: ${VAR}");
}

#[test]
fn missing_variable_returns_named_error() {
    let env = source(&[]);
    let outcome = interpolate("hello ${ABSENT}", &env);
    match outcome {
        Err(InterpolationError::Missing(name)) => assert_eq!(name, "ABSENT"),
        other => panic!("expected Missing error, got {other:?}"),
    }
}

#[test]
fn unterminated_expression_fails() {
    let env = source(&[]);
    let outcome = interpolate("hello ${UNCLOSED", &env);
    assert!(matches!(outcome, Err(InterpolationError::Malformed(_))));
}

#[test]
fn empty_variable_name_fails() {
    let env = source(&[]);
    let outcome = interpolate("oops ${}", &env);
    assert!(matches!(outcome, Err(InterpolationError::Malformed(_))));
}

#[test]
fn bare_dollar_is_rejected() {
    let env = source(&[]);
    let outcome = interpolate("price: $50", &env);
    assert!(matches!(outcome, Err(InterpolationError::Malformed(_))));
}

#[test]
fn expanded_values_are_not_expanded_again() {
    let env = source(&[("A", "${B}"), ("B", "no")]);
    assert_eq!(interpolate("<${A}>", &env).unwrap(), "<${B}>");
    let message = interpolate("${C}", &env).err().map(|e| e.message());
    assert_eq!(
        message.as_deref(),
        Some("variable `C` is not set and no default was provided"),
    );
}

#[test]
fn configuration_interpolation_expands_env_values() {
    let mut definition = stdio("/usr/bin/example");
    definition.env = secrets(&[("API_KEY", "${TOKEN}")]);
    let mut config = gateway(vec![("alpha", definition)]);
    let env = source(&[("TOKEN", "secret-value")]);

    interpolate_configuration(&mut config, &env).expect("interpolation succeeds");

    let alpha = config.servers.get("alpha").expect("alpha");
    assert_eq!(
        alpha.env.get("API_KEY").map(Secret::expose),
        Some("secret-value")
    );
}

#[test]
fn configuration_interpolation_expands_header_values() {
    let definition = server(Transport::Http {
        url: "https://upstream.invalid/mcp/".to_owned(),
        headers: secrets(&[("X-Region", "${REGION}")]),
    });
    let mut config = gateway(vec![("beta", definition)]);
    let env = source(&[("REGION", "eu-west-1")]);

    interpolate_configuration(&mut config, &env).expect("interpolation succeeds");

    let Transport::Http { headers, .. } = &config.servers.get("beta").expect("beta").transport
    else {
        panic!("expected HTTP transport");
    };
    assert_eq!(
        headers.get("X-Region").map(Secret::expose),
        Some("eu-west-1")
    );
}

#[test]
fn missing_variable_error_carries_field_path() {
    let mut definition = stdio("/usr/bin/example");
    definition.env = secrets(&[("API_KEY", "${MISSING}")]);
    let mut config = gateway(vec![("gamma", definition)]);
    let env = source(&[]);

    let error =
        interpolate_configuration(&mut config, &env).expect_err("missing variable must error");
    assert_eq!(error.field, "servers.gamma.env.API_KEY");
    assert!(matches!(&error.source, InterpolationError::Missing(name) if name == "MISSING"));
    assert_eq!(
        error.message(),
        "failed to interpolate servers.gamma.env.API_KEY: variable `MISSING` is not set and no default was provided",
    );
}

#[test]
fn a_failed_interpolation_keeps_what_it_has_expanded() {
    let mut first = stdio("/usr/bin/first");
    first.env = secrets(&[("A", "${SET}")]);
    let mut second = stdio("/usr/bin/second");
    second.env = secrets(&[("B", "${SET}"), ("C", "${MISSING}"), ("D", "${SET}")]);
    let mut third = stdio("/usr/bin/third");
    third.env = secrets(&[("E", "${SET}")]);
    let mut config = gateway(vec![("first", first), ("second", second), ("third", third)]);
    let env = source(&[("SET", "value")]);
    let error = interpolate_configuration(&mut config, &env).expect_err("a variable is missing");
    assert_eq!(error.field, "servers.second.env.C");
    let value = |server: &str, name: &str| -> Option<String> {
        let definition = config.servers.get(server)?;
        definition.env.get(name).map(|secret| secret.expose().to_owned())
    };
    assert_eq!(value("first", "A").as_deref(), Some("value"));
    assert_eq!(value("second", "B").as_deref(), Some("value"));
    assert_eq!(value("second", "C").as_deref(), Some("${MISSING}"));
    assert_eq!(value("second", "D").as_deref(), Some("${SET}"));
    assert_eq!(value("third", "E").as_deref(), Some("${SET}"));
}

#[test]
fn urls_and_commands_are_not_interpolated() {
    let mut config = gateway(vec![("delta", http("https://${HOST}/path"))]);
    let env = source(&[("HOST", "should-not-substitute")]);

    interpolate_configuration(&mut config, &env)
        .expect("URLs left alone, no interpolation invoked");

    let Transport::Http { url, .. } = &config.servers.get("delta").expect("delta").transport else {
        panic!("expected HTTP transport");
    };
    assert_eq!(url, "https://${HOST}/path");
}

#[test]
fn loading_reports_where_it_failed() {
    let env = source(&[("TOKEN", "value")]);
    let unreadable = load(ConfigFile::Unreadable("no such file".to_owned()), &env);
    assert_eq!(
        unreadable.err().map(|e| e.message()).as_deref(),
        Some("failed to read configuration file: no such file"),
    );
    let malformed = load(ConfigFile::Malformed("line 1".to_owned()), &env);
    assert_eq!(
        malformed.err().map(|e| e.message()).as_deref(),
        Some("failed to parse configuration: line 1"),
    );
    let mut definition = stdio("x");
    definition.env = secrets(&[("A", "${TOKEN}"), ("B", "${NOPE}")]);
    let failed = load(ConfigFile::Parsed(gateway(vec![("s", definition)])), &env);
    assert!(matches!(
        failed.err(),
        Some(ConfigError::Interpolation(e)) if e.field == "servers.s.env.B",
    ));
    let mut definition = stdio("x");
    definition.env = secrets(&[("A", "${TOKEN}")]);
    let loaded = load(ConfigFile::Parsed(gateway(vec![("s", definition)])), &env)
        .ok()
        .expect("loads");
    let value = loaded.servers.get("s").and_then(|s| s.env.get("A"));
    assert_eq!(value.map(Secret::expose), Some("value"));
}

fn injection_of<'a>(config: &'a GatewayConfig, name: &str) -> &'a Option<CredentialInjection> {
    &config.servers.get(name).expect("the server").credential_injection
}

fn assert_header(injection: &Option<CredentialInjection>, name: &str, header: &str, prefix: &str) {
    match injection {
        Some(CredentialInjection::Header { credential_name, header_name, header_prefix }) => {
            assert_eq!(credential_name, name);
            assert_eq!(header_name, header);
            assert_eq!(header_prefix, prefix);
        }
        other => panic!("expected a header, got {other:?}"),
    }
}

fn assert_env(injection: &Option<CredentialInjection>, name: &str) {
    match injection {
        Some(CredentialInjection::Env { credential_name }) => assert_eq!(credential_name, name),
        other => panic!("expected a variable, got {other:?}"),
    }
}

fn with_credential(mut definition: ServerDefinition, name: &str) -> ServerDefinition {
    definition.credential = Some(name.to_owned());
    definition
}

#[test]
fn http_credential_produces_header_injection_with_defaults() {
    let config = gateway(vec![(
        "github",
        with_credential(http("https://api.github.com/mcp/"), "github-token"),
    )]);

    let resolved = resolve_credentials(&config);
    let server = resolved.servers.get("github").expect("github");

    assert_header(&server.credential_injection, "github-token", "Authorization", "Bearer ");
    let Transport::Http { headers, .. } = &server.transport else {
        panic!("expected HTTP transport");
    };
    assert!(
        headers.is_empty(),
        "resolve_credentials must no longer eager-inject headers",
    );
    assert!(
        server.credential.is_none(),
        "the credential reference is consumed by resolution",
    );
}

#[test]
fn http_credential_carries_custom_header_and_prefix() {
    let mut definition = with_credential(http("https://api.example.com/mcp/"), "api-key");
    definition.credential_header = Some("X-Api-Key".to_owned());
    definition.credential_prefix = Some(String::new());
    let resolved = resolve_credentials(&gateway(vec![("custom", definition)]));
    assert_header(injection_of(&resolved, "custom"), "api-key", "X-Api-Key", "");
}

#[test]
fn stdio_credential_produces_env_injection() {
    let config = gateway(vec![(
        "local-server",
        with_credential(stdio("mcp-server"), "github-token"),
    )]);
    let resolved = resolve_credentials(&config);
    assert_env(injection_of(&resolved, "local-server"), "github-token");
    assert!(
        !resolved
            .servers
            .get("local-server")
            .expect("local-server")
            .env
            .contains_key("MCP_CREDENTIAL"),
        "resolve_credentials must no longer eager-inject env vars",
    );
}

#[test]
fn operator_supplied_headers_and_env_pass_through_unchanged() {
    let mut definition = with_credential(
        server(Transport::Http {
            url: "https://api.example.com/mcp/".to_owned(),
            headers: secrets(&[("X-Custom", "preserved")]),
        }),
        "github-token",
    );
    definition.env = secrets(&[("LOG_LEVEL", "debug")]);
    let resolved = resolve_credentials(&gateway(vec![("mixed", definition)]));
    let server = resolved.servers.get("mixed").expect("mixed");

    let Transport::Http { headers, .. } = &server.transport else {
        panic!("expected HTTP transport");
    };
    assert_eq!(
        headers.get("X-Custom").map(Secret::expose),
        Some("preserved"),
    );
    assert_eq!(headers.len(), 1, "no eager Authorization injection");
    assert_eq!(
        server.env.get("LOG_LEVEL").map(Secret::expose),
        Some("debug"),
    );
}

#[test]
fn server_without_credential_has_no_injection() {
    let config = gateway(vec![("public", http("https://public.example.com/mcp/"))]);
    let resolved = resolve_credentials(&config);
    assert!(injection_of(&resolved, "public").is_none());
    let Transport::Http { headers, .. } = &resolved.servers.get("public").expect("public").transport
    else {
        panic!("expected HTTP transport");
    };
    assert!(headers.is_empty());
}

#[test]
fn multiple_servers_each_get_their_own_injection() {
    let config = gateway(vec![
        (
            "github",
            with_credential(http("https://api.github.com/mcp/"), "github-token"),
        ),
        ("local", with_credential(stdio("mcp-local"), "local-token")),
    ]);
    let resolved = resolve_credentials(&config);
    assert_header(
        injection_of(&resolved, "github"),
        "github-token",
        "Authorization",
        "Bearer ",
    );
    assert_env(injection_of(&resolved, "local"), "local-token");
}

#[test]
fn sse_credential_produces_header_injection() {
    let definition = server(Transport::Sse {
        url: "https://stream.example.com/mcp/".to_owned(),
        headers: NameMap::new(),
    });
    let config = gateway(vec![("streaming", with_credential(definition, "sse-token"))]);
    let resolved = resolve_credentials(&config);
    assert_header(
        injection_of(&resolved, "streaming"),
        "sse-token",
        "Authorization",
        "Bearer ",
    );
}

#[test]
fn client_identity_headers_default_to_rfc_9440() {
    let headers = ClientIdentityHeaders::default();
    assert_eq!(headers.certificate, "Client-Cert");
    assert_eq!(headers.certificate_chain, "Client-Cert-Chain");
}

#[test]
fn valid_config_passes() {
    let config = gateway(vec![
        ("echo", stdio("echo")),
        ("remote", http("https://api.example.com/mcp/")),
    ]);
    let errors = validate(&config);
    assert!(errors.is_empty(), "expected no errors, got: {errors:?}");
}

#[test]
fn empty_config_passes() {
    let errors = validate(&GatewayConfig::default());
    assert!(errors.is_empty());
}

#[test]
fn empty_stdio_command_is_invalid() {
    let errors = validate(&gateway(vec![("bad", stdio(""))]));
    assert_eq!(errors.len(), 1);
    assert!(errors[0].contains("bad"));
    assert!(errors[0].contains("command"));
}

#[test]
fn empty_http_url_is_invalid() {
    let errors = validate(&gateway(vec![("broken", http(""))]));
    assert_eq!(errors.len(), 1);
    assert!(errors[0].contains("broken"));
    assert!(errors[0].contains("url"));
}

#[test]
fn http_url_without_scheme_is_invalid() {
    let errors = validate(&gateway(vec![("no-scheme", http("api.example.com/mcp/"))]));
    assert!(!errors.is_empty());
    assert!(errors[0].contains("no-scheme"));
}

#[test]
fn disabled_servers_are_skipped() {
    let mut definition = stdio("");
    definition.enabled = false;
    let errors = validate(&gateway(vec![("disabled", definition)]));
    assert!(errors.is_empty());
}

#[test]
fn multiple_errors_collected() {
    let errors = validate(&gateway(vec![("bad-stdio", stdio("")), ("bad-http", http(""))]));
    assert_eq!(errors.len(), 2);
}

fn patient(name: &str, seconds: u64) -> Vec<String> {
    let mut definition = stdio("cat");
    definition.request_timeout_seconds = Some(seconds);
    validate(&gateway(vec![(name, definition)]))
}

#[test]
fn zero_request_timeout_is_invalid() {
    let errors = patient("instant", 0);
    assert_eq!(errors.len(), 1);
    assert!(errors[0].contains("instant"));
    assert!(errors[0].contains("request_timeout_seconds"));
}

#[test]
fn excessive_request_timeout_is_invalid() {
    let errors = patient("day-long", 86_400);
    assert_eq!(errors.len(), 1);
    assert!(errors[0].contains("day-long"));
    assert!(errors[0].contains("request_timeout_seconds"));
}

#[test]
fn in_bounds_request_timeout_passes() {
    let errors = patient("patient", 120);
    assert!(errors.is_empty(), "expected no errors, got: {errors:?}");
}

#[test]
fn unusable_cors_entries_are_left_out() {
    let policy = cors_layer(&CorsConfig {
        allowed_origins: vec![
            "https://app.example.coop".to_owned(),
            "https://bad\n.example".to_owned(),
        ],
        allowed_headers: vec![
            "Authorization".to_owned(),
            "not a name".to_owned(),
            String::new(),
        ],
        max_age_seconds: 60,
    });
    assert_eq!(policy.origins, vec!["https://app.example.coop".to_owned()]);
    assert_eq!(policy.request_headers, ["authorization", "content-type", "mcp-session-id"]);
    assert_eq!(policy.methods, ["GET", "POST", "OPTIONS"]);
    assert_eq!(policy.exposed_headers, ["mcp-session-id", "traceparent", "tracestate"]);
    assert_eq!(policy.max_age_seconds, 60);
    let nobody = cors_layer(&CorsConfig {
        allowed_origins: Vec::new(),
        ..CorsConfig::default()
    });
    assert!(nobody.origins.is_empty());
    assert_eq!(nobody.request_headers, CorsConfig::default().allowed_headers);
}

#[test]
fn required_request_headers_cannot_be_taken_away() {
    let policy = cors_layer(&CorsConfig {
        allowed_headers: vec!["X-Trace".to_owned(), "Content-Type".to_owned()],
        ..CorsConfig::default()
    });
    assert_eq!(
        policy.request_headers,
        ["x-trace", "content-type", "authorization", "mcp-session-id"],
    );
}

#[test]
fn credential_header_defaults() {
    let mut definition = http("https://api.example.com/mcp/");
    definition.credential = Some("my-token".to_owned());
    assert_eq!(definition.resolved_credential_header(), "Authorization");
    assert_eq!(definition.resolved_credential_prefix(), "Bearer ");
}

#[test]
fn custom_credential_header_and_prefix() {
    let mut definition = http("https://api.example.com/mcp/");
    definition.credential = Some("api-key".to_owned());
    definition.credential_header = Some("X-Api-Key".to_owned());
    definition.credential_prefix = Some(String::new());
    assert_eq!(definition.resolved_credential_header(), "X-Api-Key");
    assert_eq!(definition.resolved_credential_prefix(), "");
}

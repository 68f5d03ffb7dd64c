use mcp_gateway::chain::{CredentialError, CredentialProvider, FileOutcome, DEFAULT_COMMAND_TIMEOUT};
use mcp_gateway::console::{Console, ConsoleError};
use mcp_gateway::crypto::{install, provider};
use mcp_gateway::load::ConfigError;
use mcp_gateway::memory::{disable_core_dumps, hardened, HardeningError};
use mcp_gateway::names::NameMap;
use mcp_gateway::oauth::{TokenPayload, TokenReply};
use mcp_gateway::references::{collect_credential_references, resolve_all};
use mcp_gateway::reload::{Installed, ReloadAction, ReloadEvent, ReloadHandle};
use mcp_gateway::resolver::{build_resolver, Resolver, Step};
use mcp_gateway::secret::Secret;
use mcp_gateway::serve::{
    begin, build_credential_provider, handle_hangup_signal, is_moderate,
    log_reload_trigger_status, parse_humantime_duration, report_listening, report_startup,
    resolve_command_timeout, run, serve_tls, Action, Event, HangupAction, ListenerAction,
    ListenerEvent, ServeArguments, Stage,
};
use mcp_gateway::server::{GatewayConfig, OAuthCredential, ServerDefinition, Transport};

fn test_command() -> clap::Command {
    clap::Command::new("test")
        .arg(clap::Arg::new("config").long("config").required(true))
        .arg(
            clap::Arg::new("credential_timeout")
                .long("credential-timeout")
                .value_parser(|input: &str| parse_humantime_duration(input)),
        )
}

#[test]
fn credential_timeout_flag_parses_humantime_duration() {
    let parsed = test_command()
        .try_get_matches_from([
            "test",
            "--config",
            "/tmp/config.json",
            "--credential-timeout",
            "45s",
        ])
        .expect("parses with explicit timeout");
    assert_eq!(
        parsed.get_one::<u128>("credential_timeout").copied(),
        Some(std::time::Duration::from_secs(45).as_nanos())
    );
}

#[test]
fn credential_timeout_flag_absent_yields_none() {
    let parsed = test_command()
        .try_get_matches_from(["test", "--config", "/tmp/config.json"])
        .expect("parses without timeout");
    assert!(parsed.get_one::<u128>("credential_timeout").is_none());
}

#[test]
fn credential_timeout_flag_rejects_invalid_duration() {
    let outcome = test_command().try_get_matches_from([
        "test",
        "--config",
        "/tmp/config.json",
        "--credential-timeout",
        "forty-five",
    ]);
    assert!(outcome.is_err(), "invalid duration must fail to parse");
}

fn seconds(n: u64) -> u128 {
    std::time::Duration::from_secs(n).as_nanos()
}

#[test]
fn command_line_credential_timeout_wins_over_environment_and_default() {
    let resolved = resolve_command_timeout(Some(seconds(45)), Some("90s"))
        .expect("explicit command-line value resolves");
    assert_eq!(resolved, seconds(45));
}

#[test]
fn environment_credential_timeout_used_when_command_line_absent() {
    let resolved = resolve_command_timeout(None, Some("90s"))
        .expect("environment value resolves when command-line is absent");
    assert_eq!(resolved, seconds(90));
}

#[test]
fn default_credential_timeout_applied_when_unspecified() {
    let resolved =
        resolve_command_timeout(None, None).expect("default applies when nothing is specified");
    assert_eq!(resolved, DEFAULT_COMMAND_TIMEOUT);
}

#[test]
fn malformed_environment_credential_timeout_returns_error() {
    let outcome = resolve_command_timeout(None, Some("forty-five"));
    assert!(
        outcome.is_err(),
        "malformed environment value must fail loudly"
    );
}

#[test]
fn only_a_completed_last_second_is_not_moderate() {
    for text in ["45s", "2m 30s", "1h 30m 15s 500ms 250us 125ns", "1.5h", "forty-five", ""] {
        assert!(is_moderate(text), "{text:?}");
    }
    for text in ["584542000000y", "584542046090y", "584 542 046 000y 1w", "86400000000000ns"] {
        assert!(is_moderate(text), "{text:?}");
        assert!(parse_humantime_duration(text).is_ok(), "{text:?}");
    }
    let largest = "18446744073709551615s";
    for rest in ["", " 999ms", " 999ms 999us 999ns", " 0.5s", " 0.25s 0.25s"] {
        let text = format!("{largest}{rest}");
        assert!(is_moderate(&text), "{text:?}");
        assert!(parse_humantime_duration(&text).is_ok(), "{text:?}");
    }
    for rest in [" 1s", " 1001ms", " 1m", " 1.5s", " 0.1h"] {
        let text = format!("{largest}{rest}");
        assert!(is_moderate(&text), "{text:?}");
        assert!(parse_humantime_duration(&text).is_err(), "{text:?}");
    }
    assert!(is_moderate("18446744073709551614s 2000ms"));
    assert!(parse_humantime_duration("18446744073709551614s 2000ms").is_err());
    for rest in [" 1000ms", " 1000000us", " 0.5s 0.5s", " 500ms 500ms", " 999.9ms 100us"] {
        assert!(!is_moderate(&format!("{largest}{rest}")), "{rest:?}");
    }
}

#[test]
fn enormous_durations_are_refused() {
    assert!(is_moderate("584542046091y"));
    assert!(parse_humantime_duration("584542046091y").is_err());
    assert!(is_moderate("99999999999999999999s"));
    assert!(parse_humantime_duration("99999999999999999999s").is_err());
    assert_eq!(
        parse_humantime_duration("86400000000000ns"),
        Ok(86_400_000_000_000),
    );
}

#[test]
fn the_provider_follows_the_options() {
    let provider = build_credential_provider(
        Some(std::path::PathBuf::from("/credentials")),
        None,
        Some("2m 30s"),
    )
    .ok()
    .expect("a provider");
    assert_eq!(provider.command_timeout(), seconds(150));
    assert_eq!(
        provider.credentials_dir(),
        Some(&std::path::PathBuf::from("/credentials")),
    );
}

#[test]
fn exit_code_for_config_error() {
    let error = ConsoleError::Config(ConfigError::Io("not found".to_owned()));
    assert_eq!(error.exit_code(), 78);
    assert_eq!(error.message(), "failed to read configuration file: not found");
}

#[test]
fn exit_code_for_bind_error() {
    let error = ConsoleError::Bind("address in use".to_owned());
    assert_eq!(error.exit_code(), 71);
    assert_eq!(error.message(), "failed to bind to address: address in use");
}

#[test]
fn exit_code_for_serve_error() {
    let error = ConsoleError::Serve("unexpected shutdown".to_owned());
    assert_eq!(error.exit_code(), 70);
    assert_eq!(error.message(), "gateway stopped: unexpected shutdown");
}

#[test]
fn exit_code_for_io_error() {
    let error = ConsoleError::Io("disk full".to_owned());
    assert_eq!(error.exit_code(), 1);
    assert_eq!(error.message(), "disk full");
}

#[test]
fn exit_code_for_environment_error() {
    let error = ConsoleError::Environment {
        variable: "MCP_CREDENTIAL_TIMEOUT".to_owned(),
        reason: "not a duration".to_owned(),
    };
    assert_eq!(error.exit_code(), 78);
    assert_eq!(
        error.message(),
        "invalid value for environment variable MCP_CREDENTIAL_TIMEOUT: not a duration",
    );
}

#[test]
fn exit_codes_of_the_other_errors() {
    assert_eq!(ConsoleError::AppState("x".to_owned()).exit_code(), 78);
    assert_eq!(ConsoleError::Tls("x".to_owned()).exit_code(), 78);
    let console = Console::new(true, false);
    assert!(console.uses_json_output());
    assert!(!console.is_quiet());
}

#[test]
fn disable_core_dumps_lowers_both_limits_to_zero() {
    disable_core_dumps().expect("disabling core dumps must succeed in unprivileged tests");
    let (soft, hard) =
        rlimit::getrlimit(rlimit::Resource::CORE).expect("getrlimit reads the current limits");
    assert_eq!(
        (soft, hard),
        (0, 0),
        "both limits must be zero after disabling core dumps",
    );
    assert_eq!(
        HardeningError::CoreDumpDisable("denied".to_owned()).message(),
        "failed to disable core dumps: denied",
    );
}

#[test]
fn provider_is_populated() {
    assert!(!provider().cipher_suites.is_empty());
}

#[test]
fn install_is_idempotent() {
    install();
    install();
}

#[test]
fn provider_less_client_config_builds_after_install() {
    install();
    let _config = rustls::ClientConfig::builder()
        .with_root_certificates(rustls::RootCertStore::empty())
        .with_no_client_auth();
}

fn server_definition(credential: Option<&str>, enabled: bool) -> ServerDefinition {
    ServerDefinition {
        enabled,
        env: NameMap::new(),
        credential: credential.map(str::to_owned),
        credential_header: None,
        credential_prefix: None,
        request_timeout_seconds: None,
        credential_injection: None,
        transport: Transport::Http {
            url: "https://example.com/mcp/".to_owned(),
            headers: NameMap::new(),
        },
    }
}

fn gateway(servers: Vec<(&str, ServerDefinition)>) -> GatewayConfig {
    let mut config = GatewayConfig::default();
    for (name, definition) in servers {
        config.servers.insert(name.to_owned(), definition);
    }
    config
}

fn oauth_credential(client_secret: &str) -> OAuthCredential {
    OAuthCredential {
        token_endpoint: "https://github.com/login/oauth/access_token".to_owned(),
        client_id: "client-id".to_owned(),
        client_secret_credential: client_secret.to_owned(),
        scope: None,
        audience: None,
        refresh_skew: None,
    }
}

fn resolved(config: &GatewayConfig, values: &[(&str, &str)]) -> NameMap<Secret> {
    let mut resolving = resolve_all(collect_credential_references(config));
    while let Some(name) = resolving.next_credential().map(str::to_owned) {
        let value = values
            .iter()
            .find(|(known, _)| *known == name)
            .map(|(_, value)| FileOutcome::Contents((*value).to_owned()))
            .unwrap_or(FileOutcome::Absent);
        let outcome = CredentialProvider::resolve_from_search(&name, value, None);
        resolving.step(outcome).expect("pre-resolution succeeds");
    }
    assert!(resolving.is_complete());
    resolving.into_secrets()
}

#[test]
fn pre_resolved_secrets_are_accessible_through_resolver_trait() {
    let config = gateway(vec![("service", server_definition(Some("foo"), true))]);
    let resolver = build_resolver(resolved(&config, &[("foo", "test-value")]), &config.oauth);
    match resolver.resolve("foo", 0) {
        Step::Done(Ok(known)) => assert_eq!(known.expose(), "test-value"),
        _ => panic!("known credential resolves"),
    }
    match resolver.resolve("absent", 0) {
        Step::Done(Err(message)) => assert!(
            message.contains("absent"),
            "missing credential error should name it, got {message:?}",
        ),
        _ => panic!("a credential that was never pre-resolved must fail"),
    }
}

#[test]
fn missing_credential_fails_with_server_attribution() {
    let config = gateway(vec![("service", server_definition(Some("missing"), true))]);
    let mut resolving = resolve_all(collect_credential_references(&config));
    assert_eq!(resolving.next_credential(), Some("missing"));
    let error = resolving
        .step(Err(CredentialError::NotFound("missing".to_owned())))
        .expect_err("missing credential must fail pre-resolution");
    assert_eq!(error.server, "service");
    assert_eq!(error.credential, "missing");
    assert!(
        error.reason.contains("not found"),
        "reason should mention the underlying not-found error, got: {}",
        error.reason,
    );
}

#[test]
fn servers_without_credentials_skip_resolution() {
    let config = gateway(vec![
        ("public-a", server_definition(None, true)),
        ("public-b", server_definition(None, true)),
    ]);
    let references = collect_credential_references(&config);
    assert!(references.is_empty());
    let resolving = resolve_all(references);
    assert!(resolving.next_credential().is_none());
    assert!(resolving.into_secrets().is_empty());
}

#[test]
fn disabled_servers_credentials_are_pre_resolved() {
    let config = gateway(vec![("dormant", server_definition(Some("must-resolve"), false))]);
    let references = collect_credential_references(&config);
    assert_eq!(
        references.get("must-resolve").map(String::as_str),
        Some("dormant"),
        "disabled server should still appear in references",
    );
    let secrets = resolved(&config, &[("must-resolve", "value-for-disabled")]);
    assert_eq!(
        secrets.get("must-resolve").map(Secret::expose),
        Some("value-for-disabled"),
    );
}

#[test]
fn oauth_named_server_credentials_are_skipped_but_their_client_secrets_are_collected() {
    let mut config = gateway(vec![("github", server_definition(Some("github-oauth"), true))]);
    config
        .oauth
        .insert("github-oauth".to_owned(), oauth_credential("github-app-secret"));

    let references = collect_credential_references(&config);

    assert!(
        !references.contains_key("github-oauth"),
        "oauth-named server credentials must not appear in the static reference set",
    );
    assert_eq!(
        references.get("github-app-secret").map(String::as_str),
        Some("oauth:github-oauth"),
        "every oauth client_secret_credential must be in the static reference set, attributed to its oauth entry",
    );
}

#[test]
fn references_come_in_order_with_their_first_context() {
    let config = gateway(vec![
        ("one", server_definition(Some("zeta"), true)),
        ("two", server_definition(Some("alpha"), true)),
        ("three", server_definition(Some("zeta"), true)),
    ]);
    let references = collect_credential_references(&config);
    assert_eq!(references.len(), 2);
    assert_eq!(references.key_at(0), "alpha");
    assert_eq!(references.key_at(1), "zeta");
    assert_eq!(references.get("zeta").map(String::as_str), Some("one"));
}

#[test]
fn build_resolver_without_oauth_returns_static_resolver_directly() {
    let mut secrets = NameMap::new();
    secrets.insert("github-token".to_owned(), Secret::new("ghp_test".to_owned()));
    let resolver = build_resolver(secrets, &NameMap::new());
    assert!(matches!(resolver, Resolver::Static(_)));
    match resolver.resolve("github-token", 0) {
        Step::Done(Ok(value)) => assert_eq!(value.expose(), "ghp_test"),
        _ => panic!("static resolver returns the pre-resolved value"),
    }
}

#[test]
fn build_resolver_routes_oauth_names_to_oauth_resolver() {
    let mut secrets = NameMap::new();
    secrets.insert("static-name".to_owned(), Secret::new("static-value".to_owned()));
    secrets.insert("app-secret".to_owned(), Secret::new("client-secret-value".to_owned()));
    let mut oauth = NameMap::new();
    oauth.insert("oauth-name".to_owned(), oauth_credential("app-secret"));

    let mut resolver = build_resolver(secrets, &oauth);

    assert!(matches!(resolver.resolve("oauth-name", 0), Step::Fetch));
    match resolver.resolve("static-name", 0) {
        Step::Done(Ok(value)) => assert_eq!(value.expose(), "static-value"),
        _ => panic!("static credential still resolves through the fallback"),
    }
    let Resolver::Composite { issued, .. } = &mut resolver else {
        panic!("an oauth section needs a composite resolver");
    };
    assert_eq!(
        issued.request("oauth-name").map(|r| r.client_secret.expose().to_owned()),
        Some("client-secret-value".to_owned()),
    );
    let reply = TokenReply::Response {
        status: 200,
        body: String::new(),
        payload: Ok(TokenPayload {
            access_token: "oauth-token-1".to_owned(),
            expires_in: 3600,
            token_type: "Bearer".to_owned(),
        }),
    };
    let value = issued.fetched("oauth-name", reply, 0).ok().expect("a token");
    assert_eq!(value.expose(), "oauth-token-1");
    match resolver.resolve("oauth-name", 1) {
        Step::Done(Ok(value)) => assert_eq!(value.expose(), "oauth-token-1"),
        _ => panic!("the token is kept"),
    }
}

fn installed(name: &str) -> Installed {
    let config = gateway(vec![(name, server_definition(None, true))]);
    let resolver = build_resolver(NameMap::new(), &config.oauth);
    Installed { config, resolver }
}

#[test]
fn reload_picks_up_new_server_entries() {
    let mut live = installed("alpha");
    let next = gateway(vec![("beta", server_definition(None, true))]);
    let (handle, action) =
        ReloadHandle::new().reload(ReloadEvent::Loaded(Ok(next)), &mut live);
    assert!(matches!(action, ReloadAction::Build));
    assert!(live.config.servers.contains_key("alpha"));
    assert!(handle.candidate().is_some_and(|c| c.config.servers.contains_key("beta")));
    let (_, action) = handle.reload(ReloadEvent::Built(Ok(())), &mut live);
    assert!(matches!(action, ReloadAction::Finished(Ok(()))));
    assert!(live.config.servers.contains_key("beta"));
    assert!(
        !live.config.servers.contains_key("alpha"),
        "old server should be gone after reload",
    );
}

#[test]
fn reload_failure_keeps_previous_state() {
    let mut live = installed("alpha");
    let next = gateway(vec![("beta", server_definition(Some("missing-token"), true))]);
    let (handle, action) =
        ReloadHandle::new().reload(ReloadEvent::Loaded(Ok(next)), &mut live);
    assert!(matches!(action, ReloadAction::Resolve(name) if name == "missing-token"));
    let outcome = Err(CredentialError::NotFound("missing-token".to_owned()));
    let (_, action) = handle.reload(ReloadEvent::Resolved(outcome), &mut live);
    match action {
        ReloadAction::Finished(Err(error)) => assert_eq!(
            error.message(),
            "credential 'missing-token' for server 'beta' could not be resolved: credential not found: missing-token",
        ),
        other => panic!("reload with missing credential must err, got {other:?}"),
    }
    assert!(live.config.servers.contains_key("alpha"));
    assert!(!live.config.servers.contains_key("beta"));

    let failed = ReloadEvent::Loaded(Err(ConfigError::Parse("line 1".to_owned())));
    let (_, action) = ReloadHandle::new().reload(failed, &mut live);
    assert!(matches!(action, ReloadAction::Finished(Err(ConsoleError::Config(_)))));
    assert!(live.config.servers.contains_key("alpha"));

    let next = gateway(vec![("beta", server_definition(None, true))]);
    let (handle, _) = ReloadHandle::new().reload(ReloadEvent::Loaded(Ok(next)), &mut live);
    let (_, action) = handle.reload(ReloadEvent::Built(Err("no route".to_owned())), &mut live);
    assert!(matches!(action, ReloadAction::Finished(Err(ConsoleError::AppState(_)))));
    assert!(live.config.servers.contains_key("alpha"));
}

#[test]
fn reload_succeeds_after_credential_rotation() {
    let mut live = installed("alpha");
    let next = gateway(vec![("alpha", server_definition(Some("token"), true))]);
    let (handle, _) = ReloadHandle::new().reload(ReloadEvent::Loaded(Ok(next)), &mut live);
    let rotated = Ok(Secret::new("rotated-secret".to_owned()));
    let (handle, action) = handle.reload(ReloadEvent::Resolved(rotated), &mut live);
    assert!(matches!(action, ReloadAction::Build));
    let (_, action) = handle.reload(ReloadEvent::Built(Ok(())), &mut live);
    assert!(matches!(action, ReloadAction::Finished(Ok(()))));
    match live.resolver.resolve("token", 0) {
        Step::Done(Ok(value)) => assert_eq!(value.expose(), "rotated-secret"),
        _ => panic!("the rotated value is installed"),
    }
}

fn arguments(allow_core_dumps: bool) -> ServeArguments {
    ServeArguments {
        bind: "127.0.0.1:3000".to_owned(),
        credentials_dir: None,
        credential_timeout: None,
        no_reload: false,
        allow_core_dumps,
    }
}

#[test]
fn the_command_runs_its_course() {
    let options = arguments(false);
    let (stage, action) = begin(&options);
    assert!(matches!(action, Action::Harden));
    let (stage, action) = run(&options, stage, Event::Done(Err("denied".to_owned())));
    assert!(matches!(action, Action::Load), "hardening is best effort");
    let config = gateway(vec![
        ("on", server_definition(Some("token"), true)),
        ("off", server_definition(None, false)),
    ]);
    let (stage, action) = run(&options, stage, Event::Loaded(Ok(config)));
    assert!(matches!(
        action,
        Action::Announce(m) if m == "starting gateway with 1 server(s) on 127.0.0.1:3000"
    ));
    let (stage, action) = run(&options, stage, Event::Done(Ok(())));
    assert!(matches!(action, Action::Start));
    let (stage, action) = run(&options, stage, Event::Done(Ok(())));
    assert!(matches!(action, Action::Read));
    let (stage, action) = run(&options, stage, Event::Read(Some("90s".to_owned())));
    match action {
        Action::Provide(provider) => assert_eq!(provider.command_timeout(), seconds(90)),
        _ => panic!("a provider is due"),
    }
    let (stage, action) = run(&options, stage, Event::Done(Ok(())));
    assert!(matches!(action, Action::Resolve(name) if name == "token"));
    let value = Ok(Secret::new("value".to_owned()));
    let (stage, action) = run(&options, stage, Event::Resolved(value));
    assert!(matches!(action, Action::Build { .. }));
    let (stage, action) = run(&options, stage, Event::Done(Ok(())));
    assert!(matches!(action, Action::Secure), "no authentication is configured");
    let (stage, action) = run(&options, stage, Event::Secured(Ok(None)));
    assert!(matches!(action, Action::Bind { refresh: None, reload: true }));
    let (stage, action) = run(&options, stage, Event::Done(Ok(())));
    assert!(matches!(
        action,
        Action::Announce(m) if m == "gateway listening on http://127.0.0.1:3000"
    ));
    let (stage, action) = run(&options, stage, Event::Done(Ok(())));
    assert!(matches!(action, Action::Serve { tls: false }));
    let (stage, action) = run(&options, stage, Event::Done(Ok(())));
    assert!(matches!(action, Action::Announce(m) if m == "gateway shut down"));
    let (stage, action) = run(&options, stage, Event::Done(Ok(())));
    assert!(matches!(action, Action::Finish(Ok(()))));
    assert!(matches!(stage, Stage::Ended));
}

#[test]
fn the_command_ends_with_the_error_of_its_step() {
    let options = arguments(true);
    let (stage, action) = begin(&options);
    assert!(matches!(action, Action::Load));
    let failed = Event::Loaded(Err(ConfigError::Io("no such file".to_owned())));
    let (_, action) = run(&options, stage, failed);
    assert!(matches!(action, Action::Finish(Err(ConsoleError::Config(_)))));
    let (_, action) = run(&options, Stage::Securing(None), Event::Secured(Err("x".to_owned())));
    assert!(matches!(action, Action::Finish(Err(ConsoleError::Tls(_)))));
    let (_, action) = run(&options, Stage::Binding(None), Event::Done(Err("x".to_owned())));
    assert!(matches!(action, Action::Finish(Err(ConsoleError::Bind(_)))));
    let (_, action) = run(&options, Stage::Serving, Event::Done(Err("x".to_owned())));
    assert!(matches!(action, Action::Finish(Err(ConsoleError::Serve(_)))));
    let (_, action) = run(&options, Stage::Closing, Event::Done(Err("x".to_owned())));
    assert!(matches!(action, Action::Finish(Err(ConsoleError::Io(_)))));
    let reading = Stage::Reading(GatewayConfig::default());
    let (_, action) = run(&options, reading, Event::Read(Some("forty-five".to_owned())));
    assert!(matches!(
        action,
        Action::Finish(Err(ConsoleError::Environment { variable, .. }))
            if variable == "MCP_CREDENTIAL_TIMEOUT"
    ));
}

#[test]
fn listeners_stop_on_shutdown_and_on_errors() {
    assert!(matches!(serve_tls(ListenerEvent::Incoming(Ok(()))), ListenerAction::Handle));
    assert!(matches!(serve_tls(ListenerEvent::Shutdown), ListenerAction::Stop(Ok(()))));
    assert!(matches!(
        serve_tls(ListenerEvent::Incoming(Err("x".to_owned()))),
        ListenerAction::Stop(Err(ConsoleError::Serve(_))),
    ));
}

#[test]
fn messages_for_the_operator() {
    assert_eq!(
        report_listening("0.0.0.0:443", &Some("self-signed".to_owned())),
        "gateway listening on https://0.0.0.0:443 (TLS: self-signed)",
    );
    assert_eq!(
        report_startup(&GatewayConfig::default(), "localhost:1"),
        "starting gateway with 0 server(s) on localhost:1",
    );
    assert_eq!(log_reload_trigger_status(true), "SIGHUP reload trigger active");
    assert_eq!(handle_hangup_signal(true), HangupAction::Ignore);
    assert_eq!(handle_hangup_signal(false), HangupAction::Reload);
}

#[test]
fn a_refused_limit_is_reported_with_its_reason() {
    assert!(hardened(Ok(())).is_ok());
    let error = hardened(Err("not permitted".to_owned())).expect_err("the limit was refused");
    assert_eq!(error.message(), "failed to disable core dumps: not permitted");
}

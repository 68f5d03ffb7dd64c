use mcp_gateway::chain::{
    credential_env_var_name, is_safe_credential_name, CommandOutcome, CredentialError,
    CredentialProvider, FileOutcome, Plan, DEFAULT_COMMAND_TIMEOUT,
};
use mcp_gateway::names::{NameMap, NameSet};
use mcp_gateway::oauth::{
    default_token_type, encode_token_request_body, fetch_token, Clock, OAuthCache, OAuthError,
    SystemClock, TokenPayload, TokenReply, TokenRequest, TokenResponse, TokenStep,
    DEFAULT_REFRESH_SKEW,
};
use mcp_gateway::resolver::{CompositeResolver, OAuthResolver, Owner, StaticResolver, Step};
use mcp_gateway::secret::Secret;

#[test]
fn env_var_name_derived_from_credential_name() {
    let name = credential_env_var_name("MCP_CREDENTIAL_", "github-token");
    assert_eq!(name, "MCP_CREDENTIAL_GITHUB_TOKEN");
}

#[test]
fn env_var_name_preserves_underscores() {
    let name = credential_env_var_name("MCP_CREDENTIAL_", "my_api_key");
    assert_eq!(name, "MCP_CREDENTIAL_MY_API_KEY");
}

#[test]
fn default_command_timeout_is_thirty_seconds() {
    assert_eq!(
        DEFAULT_COMMAND_TIMEOUT,
        std::time::Duration::from_secs(30).as_nanos()
    );
}

fn commands(entries: &[(&str, &[&str])]) -> NameMap<Vec<String>> {
    let mut map = NameMap::new();
    for (name, command) in entries {
        map.insert(
            (*name).to_owned(),
            command.iter().map(|part| (*part).to_owned()).collect(),
        );
    }
    map
}

fn in_directory() -> CredentialProvider {
    CredentialProvider::builder()
        .with_credentials_dir(std::path::PathBuf::from("/credentials"))
        .build()
}

fn from_file(provider: &CredentialProvider, name: &str, contents: &str) -> String {
    match provider.resolve(name) {
        Plan::Search { in_directory, variable } => {
            assert!(in_directory);
            assert_eq!(variable, None);
        }
        other => panic!("expected a search, got {other:?}"),
    }
    CredentialProvider::resolve_from_search(
        name,
        FileOutcome::Contents(contents.to_owned()),
        None,
    )
    .ok()
    .expect("the file decides")
    .expose()
    .to_owned()
}

#[test]
fn resolves_from_file() {
    assert_eq!(
        from_file(&in_directory(), "github-token", "file-secret-value\n"),
        "file-secret-value",
    );
}

#[test]
fn file_credentials_trim_trailing_whitespace() {
    assert_eq!(
        from_file(&in_directory(), "padded-token", "  value-with-spaces  \n\n"),
        "  value-with-spaces",
    );
}

fn finished(success: bool, status: &str, stdout: &[u8]) -> CommandOutcome {
    CommandOutcome::Finished { success, status: status.to_owned(), stdout: stdout.to_vec() }
}

#[test]
fn resolves_from_command() {
    let provider = CredentialProvider::builder()
        .with_commands(commands(&[("echo-token", &["echo", "command-secret-value"])]))
        .build();
    match provider.resolve("echo-token") {
        Plan::Run { program, arguments } => {
            assert_eq!(program, "echo");
            assert_eq!(arguments, vec!["command-secret-value".to_owned()]);
        }
        other => panic!("expected a command, got {other:?}"),
    }
    let secret = provider
        .resolve_from_command("echo-token", finished(true, "exit status: 0", b"command-secret-value\n"))
        .ok()
        .expect("the command decides");
    assert_eq!(secret.expose(), "command-secret-value");
}

#[test]
fn command_takes_precedence_over_file() {
    let provider = CredentialProvider::builder()
        .with_credentials_dir(std::path::PathBuf::from("/credentials"))
        .with_commands(commands(&[("priority-token", &["echo", "command-value"])]))
        .build();
    assert!(matches!(provider.resolve("priority-token"), Plan::Run { .. }));
    assert!(matches!(provider.resolve("other-token"), Plan::Search { .. }));
    assert_eq!(
        provider.credentials_dir(),
        Some(&std::path::PathBuf::from("/credentials")),
    );
}

#[test]
fn resolves_multiple_credentials_independently() {
    let provider = in_directory();
    assert_eq!(from_file(&provider, "github-token", "gh-secret"), "gh-secret");
    assert_eq!(from_file(&provider, "gitlab-token", "gl-secret"), "gl-secret");
    assert_eq!(from_file(&provider, "slack-token", "sl-secret"), "sl-secret");
}

#[test]
fn lib_unknown_credential_returns_error() {
    let provider = CredentialProvider::builder().build();
    assert!(matches!(
        provider.resolve("nonexistent"),
        Plan::Search { in_directory: false, variable: None },
    ));
    let error = CredentialProvider::resolve_from_search("nonexistent", FileOutcome::Absent, None)
        .err()
        .expect("unknown credential should fail");
    assert!(matches!(error, CredentialError::NotFound(_)));
    assert_eq!(error.message(), "credential not found: nonexistent");
}

#[test]
fn failing_command_returns_error() {
    let provider = CredentialProvider::builder()
        .with_commands(commands(&[("bad-command", &["false"])]))
        .build();
    let error = provider
        .resolve_from_command("bad-command", finished(false, "exit status: 1", b""))
        .err()
        .expect("failing command should produce error");
    assert!(matches!(error, CredentialError::CommandFailed { .. }));
    assert_eq!(
        error.message(),
        "credential command failed for 'bad-command': exited with status exit status: 1",
    );
}

#[test]
fn fast_command_resolves_within_default_timeout() {
    let provider = CredentialProvider::builder()
        .with_commands(commands(&[("quick-token", &["echo", "fast-value"])]))
        .build();
    assert_eq!(provider.command_timeout(), DEFAULT_COMMAND_TIMEOUT);
    let secret = provider
        .resolve_from_command("quick-token", finished(true, "exit status: 0", b"fast-value\n"))
        .ok()
        .expect("a fast helper resolves within the default timeout");
    assert_eq!(secret.expose(), "fast-value");
}

#[test]
fn command_helper_timeout_returns_dedicated_error() {
    let bound = std::time::Duration::from_millis(100).as_nanos();
    let provider = CredentialProvider::builder()
        .with_commands(commands(&[("slow-token", &["sleep", "10"])]))
        .with_command_timeout(bound)
        .build();
    let error = provider
        .resolve_from_command("slow-token", CommandOutcome::TimedOut)
        .err()
        .expect("a command that exceeds the timeout must fail");
    assert_eq!(
        error.message(),
        "credential command for 'slow-token' timed out after 100ms",
    );
    match error {
        CredentialError::CommandTimeout { name, after } => {
            assert_eq!(name, "slow-token");
            assert_eq!(after, bound);
        }
        other => panic!("expected CommandTimeout, got {other:?}"),
    }
}

#[test]
fn unusable_commands_and_files_are_reported() {
    let provider = CredentialProvider::builder()
        .with_commands(commands(&[("empty", &[])]))
        .with_env_prefix("MCP_CREDENTIAL_")
        .build();
    match provider.resolve("empty") {
        Plan::Refused(error) => {
            assert_eq!(error.message(), "credential command failed for 'empty': empty command");
        }
        other => panic!("expected a refusal, got {other:?}"),
    }
    match provider.resolve("../etc/passwd") {
        Plan::Refused(CredentialError::InvalidName(name)) => assert_eq!(name, "../etc/passwd"),
        other => panic!("expected a refusal, got {other:?}"),
    }
    let binary = provider
        .resolve_from_command("x", finished(true, "exit status: 0", &[0xff, 0xfe]))
        .err()
        .expect("no text");
    assert!(binary.message().ends_with("output is not valid UTF-8"));
    let missing = provider
        .resolve_from_command("x", CommandOutcome::Unrunnable("not found".to_owned()))
        .err()
        .expect("no command");
    assert!(missing.message().ends_with("not found"));
    let unreadable = CredentialProvider::resolve_from_search(
        "x",
        FileOutcome::Unreadable { path: "/credentials/x".to_owned(), reason: "denied".to_owned() },
        Some("from the environment".to_owned()),
    )
    .err()
    .expect("the file decides");
    assert_eq!(
        unreadable.message(),
        "failed to read credential file for 'x' at /credentials/x: denied",
    );
}

#[test]
fn the_environment_is_the_last_source() {
    let provider = CredentialProvider::builder()
        .with_env_prefix("MCP_CREDENTIAL_")
        .build();
    match provider.resolve("github-token") {
        Plan::Search { in_directory, variable } => {
            assert!(!in_directory);
            assert_eq!(variable.as_deref(), Some("MCP_CREDENTIAL_GITHUB_TOKEN"));
        }
        other => panic!("expected a search, got {other:?}"),
    }
    let secret = CredentialProvider::resolve_from_search(
        "github-token",
        FileOutcome::Absent,
        Some("from-env ".to_owned()),
    )
    .ok()
    .expect("the variable decides");
    assert_eq!(secret.expose(), "from-env ");
}

#[test]
fn names_with_separators_are_not_safe() {
    assert!(is_safe_credential_name("github-token_2.x"));
    for name in ["", ".", "..", ".hidden", "a/b", "a\\b", "a b", "ä"] {
        assert!(!is_safe_credential_name(name), "{name:?}");
    }
}

#[test]
fn secret_debug_is_redacted() {
    let secret = Secret::new("sensitive-value".to_owned());
    let debug_output = secret.redacted();
    assert_eq!(debug_output, "[REDACTED]");
    assert!(!debug_output.contains("sensitive"));
}

#[test]
fn secret_construction_runs_mlock_path_without_panicking() {
    let secret = Secret::new("mlock-target".to_owned());
    assert_eq!(secret.expose(), "mlock-target");
    drop(secret);
}

#[test]
fn empty_secret_skips_mlock_and_constructs_successfully() {
    let secret = Secret::new(String::new());
    assert_eq!(secret.expose(), "");
}

#[test]
fn cloned_secret_has_independent_lock() {
    let original = Secret::new("rotatable-token".to_owned());
    let copy = original.clone();
    assert_eq!(copy.expose(), "rotatable-token");
    assert!(original == copy);
    drop(original);
    assert_eq!(copy.expose(), "rotatable-token");
    assert!(copy != Secret::new("other".to_owned()));
}

fn secrets(entries: &[(&str, &str)]) -> NameMap<Secret> {
    let mut map = NameMap::new();
    for (name, value) in entries {
        map.insert((*name).to_owned(), Secret::new((*value).to_owned()));
    }
    map
}

#[test]
fn static_resolver_returns_known_credential() {
    let resolver = StaticResolver::new(secrets(&[("github-token", "ghp_test")]));
    let value = resolver
        .resolve("github-token")
        .ok()
        .expect("known credential resolves");
    assert_eq!(value.expose(), "ghp_test");
}

#[test]
fn static_resolver_errors_on_unknown_credential() {
    let resolver = StaticResolver::default();
    match resolver.resolve("absent") {
        Err(message) => assert!(
            message.contains("absent"),
            "error must name the missing credential, got {message:?}",
        ),
        Ok(_) => panic!("unknown credential must fail"),
    }
}

fn handled(names: &[&str]) -> CompositeResolver {
    let mut set = NameSet::new();
    for name in names {
        set.insert((*name).to_owned());
    }
    CompositeResolver::new(set)
}

#[test]
fn handler_takes_precedence_over_fallback() {
    assert_eq!(handled(&["oauth-name"]).owner("oauth-name"), Owner::Handler);
}

#[test]
fn unknown_name_falls_through_to_fallback() {
    assert_eq!(handled(&["oauth-name"]).owner("static-name"), Owner::Fallback);
}

#[test]
fn empty_handlers_delegates_everything_to_fallback() {
    assert_eq!(handled(&[]).owner("name"), Owner::Fallback);
}

fn request(scope: Option<&str>, audience: Option<&str>) -> TokenRequest {
    TokenRequest {
        token_endpoint: "https://issuer.example.test/oauth/token".to_owned(),
        client_id: "the-client".to_owned(),
        client_secret: Secret::new("the-secret".to_owned()),
        scope: scope.map(str::to_owned),
        audience: audience.map(str::to_owned),
    }
}

fn issued(token: &str, expires_in: u64) -> TokenReply {
    TokenReply::Response {
        status: 200,
        body: String::new(),
        payload: Ok(TokenPayload {
            access_token: token.to_owned(),
            expires_in,
            token_type: "Bearer".to_owned(),
        }),
    }
}

#[test]
fn fetch_token_sends_basic_auth_and_parses_success_response() {
    assert_eq!(
        encode_token_request_body(&request(Some("repo"), None)),
        "grant_type=client_credentials&scope=repo",
    );
    let response = fetch_token(issued("the-token", 3600))
        .ok()
        .expect("token fetch succeeds");
    assert_eq!(response.access_token.expose(), "the-token");
    assert_eq!(
        response.expires_in,
        std::time::Duration::from_secs(3600).as_nanos(),
    );
    assert_eq!(response.token_type, "Bearer");
}

#[test]
fn request_bodies_are_form_encoded() {
    assert_eq!(
        encode_token_request_body(&request(Some("a b&c"), Some("https://x.test/"))),
        "grant_type=client_credentials&scope=a+b%26c&audience=https%3A%2F%2Fx.test%2F",
    );
}

#[test]
fn fetch_token_returns_bad_status_on_non_2xx() {
    let reply = TokenReply::Response {
        status: 401,
        body: "{\"error\":\"invalid_client\"}".to_owned(),
        payload: Err("missing field".to_owned()),
    };
    let error = fetch_token(reply).err().expect("refused");
    assert_eq!(
        error.message(),
        "OAuth token endpoint returned status 401: {\"error\":\"invalid_client\"}",
    );
    match error {
        OAuthError::BadStatus { status, body } => {
            assert_eq!(status, 401);
            assert!(body.contains("invalid_client"));
        }
        other => panic!("expected BadStatus, got {other:?}"),
    }
}

#[test]
fn fetch_token_returns_malformed_body_on_unexpected_payload() {
    let reply = TokenReply::Response {
        status: 200,
        body: "{\"unrelated\":\"payload\"}".to_owned(),
        payload: Err("missing field `access_token`".to_owned()),
    };
    assert!(matches!(fetch_token(reply), Err(OAuthError::MalformedBody(_))));
    let unreachable = fetch_token(TokenReply::Unreachable("refused".to_owned()));
    assert!(matches!(unreachable, Err(OAuthError::Request(_))));
}

#[test]
fn fetch_token_defaults_token_type_to_bearer() {
    assert_eq!(default_token_type(), "Bearer");
}

struct TestClock {
    now: std::sync::Mutex<u128>,
}

impl TestClock {
    fn new() -> TestClock {
        TestClock { now: std::sync::Mutex::new(1_000) }
    }

    fn advance(&self, amount: std::time::Duration) {
        *self.now.lock().expect("test clock lock") += amount.as_nanos();
    }
}

impl Clock for TestClock {
    fn now(&self) -> u128 {
        *self.now.lock().expect("test clock lock")
    }
}

fn cache_for(name: &str, skew: u128) -> OAuthCache {
    let mut credentials = NameMap::new();
    credentials.insert(name.to_owned(), request(None, None));
    OAuthCache::new(&credentials, skew)
}

fn response(token: &str) -> TokenResponse {
    fetch_token(issued(token, 3600)).ok().expect("a token")
}

#[test]
fn cold_cache_fetches_from_upstream() {
    let clock = TestClock::new();
    let mut cache = cache_for("api", DEFAULT_REFRESH_SKEW);
    let (now, step) = cache.current_token("api", &clock);
    assert!(matches!(step, TokenStep::Fetch));
    let token = cache.store("api", &response("token-1"), now).expect("token returned");
    assert_eq!(token.expose(), "token-1");
    assert_eq!(
        cache.request("api").map(|r| r.token_endpoint.as_str()),
        Some("https://issuer.example.test/oauth/token"),
    );
}

#[test]
fn warm_cache_reuses_token() {
    let clock = TestClock::new();
    let mut cache = cache_for("api", DEFAULT_REFRESH_SKEW);
    let (now, _) = cache.current_token("api", &clock);
    cache.store("api", &response("token-1"), now);
    clock.advance(std::time::Duration::from_secs(60));
    match cache.current_token("api", &clock).1 {
        TokenStep::Cached(token) => assert_eq!(token.expose(), "token-1"),
        _ => panic!("cached token must not trigger a second upstream call"),
    }
}

#[test]
fn expired_cache_refreshes_token() {
    let clock = TestClock::new();
    let mut cache = cache_for("api", DEFAULT_REFRESH_SKEW);
    let (now, _) = cache.current_token("api", &clock);
    cache.store("api", &response("token-1"), now);
    clock.advance(std::time::Duration::from_secs(3569));
    assert!(matches!(cache.current_token("api", &clock).1, TokenStep::Cached(_)));
    clock.advance(std::time::Duration::from_secs(1));
    assert!(matches!(cache.current_token("api", &clock).1, TokenStep::Fetch));
    clock.advance(std::time::Duration::from_secs(30));
    let (now, step) = cache.current_token("api", &clock);
    assert!(matches!(step, TokenStep::Fetch));
    let second = cache.store("api", &response("token-2"), now).expect("second");
    assert_eq!(second.expose(), "token-2");
}

#[test]
fn oauth_cache_unknown_credential_returns_error() {
    let cache = cache_for("api", DEFAULT_REFRESH_SKEW);
    assert!(matches!(
        cache.current_token("unknown", &TestClock::new()).1,
        TokenStep::Unknown(_),
    ));
    assert!(cache.request("unknown").is_none());
}

#[test]
fn a_token_shorter_than_the_skew_is_never_served_again() {
    let mut cache = cache_for("api", DEFAULT_REFRESH_SKEW);
    let brief = fetch_token(issued("brief", 10)).ok().expect("a token");
    assert!(cache.store("api", &brief, 5).is_some());
    assert!(matches!(cache.token_at("api", 5), TokenStep::Fetch));
    assert!(cache.store("unknown", &brief, 5).is_none());
}

#[test]
fn the_system_clock_does_not_go_back() {
    let clock = SystemClock::new();
    let first = clock.now();
    assert!(clock.now() >= first);
}

#[test]
fn resolve_returns_token_for_known_credential() {
    let mut resolver = OAuthResolver::new(cache_for("api", DEFAULT_REFRESH_SKEW));
    assert!(matches!(resolver.resolve("api", 7), Step::Fetch));
    assert_eq!(resolver.request("api").map(|r| r.client_id.as_str()), Some("the-client"));
    let secret = resolver
        .fetched("api", issued("oauth-token-1", 3600), 7)
        .ok()
        .expect("known oauth credential resolves");
    assert_eq!(secret.expose(), "oauth-token-1");
    match resolver.resolve("api", 8) {
        Step::Done(Ok(secret)) => assert_eq!(secret.expose(), "oauth-token-1"),
        _ => panic!("the token is kept"),
    }
}

#[test]
fn resolve_returns_error_for_unknown_credential() {
    let resolver = OAuthResolver::new(cache_for("api", DEFAULT_REFRESH_SKEW));
    match resolver.resolve("unknown", 0) {
        Step::Done(Err(message)) => assert!(
            message.contains("unknown"),
            "unknown credential error must name it, got {message:?}",
        ),
        _ => panic!("an unknown credential must fail"),
    }
}

#[test]
fn failed_fetches_keep_nothing() {
    let mut resolver = OAuthResolver::new(cache_for("api", DEFAULT_REFRESH_SKEW));
    let outcome = resolver.fetched("api", TokenReply::Unreachable("refused".to_owned()), 7);
    assert_eq!(
        outcome.err().as_deref(),
        Some("OAuth token request failed: refused"),
    );
    assert!(matches!(resolver.resolve("api", 7), Step::Fetch));
}

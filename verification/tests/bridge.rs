use mcp_gateway::bridge::{
    ping_request, resolve_environment, Bridge, BridgeError, ChildState, SpawnConfig,
};
use mcp_gateway::connection::{
    classify_inbound, log_preview, remaining, Connection, InFlight, InboundFrame, ReadEvent,
    Reply, Routing, WriteOutcome, LOG_PREVIEW_BYTES,
};
use mcp_gateway::handshake::{
    initialize_request, initialized_notification, parse_initialize_response, HandshakeError,
    CLIENT_NAME, PROTOCOL_VERSION,
};
use mcp_gateway::json::Json;
use mcp_gateway::names::NameMap;
use mcp_gateway::secret::Secret;
use mcp_gateway::server::CredentialInjection;

fn text(s: &str) -> Json {
    Json::Text(s.to_owned())
}

fn object(members: Vec<(&str, Json)>) -> Json {
    Json::Object(members.into_iter().map(|(k, v)| (k.to_owned(), v)).collect())
}

fn member<'a>(json: &'a Json, path: &[&str]) -> &'a Json {
    let mut here = json;
    for name in path {
        here = here.get(name).expect("the member is there");
    }
    here
}

fn request(method: &str) -> Json {
    request_with_id(Json::Unsigned(1), method)
}

fn request_with_id(id: Json, method: &str) -> Json {
    object(vec![
        ("jsonrpc", text("2.0")),
        ("id", id),
        ("method", text(method)),
        ("params", object(Vec::new())),
    ])
}

fn line(json: &str) -> ReadEvent {
    let mut bytes = json.as_bytes().to_vec();
    bytes.push(b'\n');
    ReadEvent::Line(bytes)
}

fn echo(request: &InFlight) -> ReadEvent {
    let method = member(&request.outbound, &["method"]).as_str().expect("a method");
    line(&format!(
        "{{\"jsonrpc\":\"2.0\",\"id\":{},\"result\":{{\"echo\":\"{method}\"}}}}",
        request.bridge_id,
    ))
}

fn send(connection: &mut Connection<&'static str>, message: &Json, waiter: &'static str) -> InFlight {
    let request = connection.send(message, waiter).ok().expect("the session is alive");
    let line = connection.write_message(&request.outbound).ok().expect("a line");
    assert!(line.ends_with('\n'));
    connection
        .settle_write(request.bridge_id, WriteOutcome::Written)
        .expect("the line is written");
    request
}

fn delivered(
    connection: &mut Connection<&'static str>,
    event: ReadEvent,
    expected: &str,
) -> Json {
    match connection.read(event) {
        Routing::Deliver { waiter, frame } => {
            assert_eq!(waiter, expected);
            frame
        }
        _ => panic!("the response is delivered"),
    }
}

fn answered(connection: &mut Connection<&'static str>, message: &Json) -> Json {
    let request = send(connection, message, "caller");
    let event = echo(&request);
    let frame = delivered(connection, event, "caller");
    connection
        .conclude(request, Reply::Delivered(frame))
        .ok()
        .expect("a response")
}

#[test]
fn request_returns_matching_response_with_original_id() {
    let mut connection = Connection::open();
    let response = answered(&mut connection, &request_with_id(Json::Unsigned(7), "ping"));
    assert_eq!(member(&response, &["id"]), &Json::Unsigned(7));
    assert_eq!(member(&response, &["result", "echo"]), &text("ping"));
}

#[test]
fn notification_before_response_is_skipped() {
    let mut connection = Connection::open();
    let request = send(&mut connection, &request("tools/list"), "caller");
    assert!(matches!(
        connection.read(line("{\"jsonrpc\":\"2.0\",\"method\":\"notifications/message\"}")),
        Routing::Notification,
    ));
    let event = echo(&request);
    let frame = delivered(&mut connection, event, "caller");
    assert_eq!(member(&frame, &["result", "echo"]), &text("tools/list"));
}

#[test]
fn unsolicited_notification_does_not_desync_next_request() {
    let mut connection = Connection::open();
    let first = answered(&mut connection, &request("tools/list"));
    connection.read(line(
        "{\"jsonrpc\":\"2.0\",\"method\":\"notifications/tools/list_changed\"}",
    ));
    let second = answered(&mut connection, &request("tools/call"));
    assert_eq!(member(&first, &["result", "echo"]), &text("tools/list"));
    assert_eq!(member(&second, &["result", "echo"]), &text("tools/call"));
}

#[test]
fn non_json_line_is_skipped() {
    let mut connection = Connection::open();
    let request = send(&mut connection, &request("tools/list"), "caller");
    match connection.read(line("this is not json")) {
        Routing::NotJson { preview } => assert_eq!(preview, "this is not json"),
        _ => panic!("the line is not JSON"),
    }
    assert!(matches!(connection.read(line("   \t ")), Routing::Blank));
    assert!(matches!(
        connection.read(ReadEvent::Line(vec![0xff, 0xfe, b'\n'])),
        Routing::NotJson { .. },
    ));
    let event = echo(&request);
    let frame = delivered(&mut connection, event, "caller");
    assert_eq!(member(&frame, &["result", "echo"]), &text("tools/list"));
}

#[test]
fn server_to_client_request_is_dropped() {
    let mut connection = Connection::open();
    let request = send(&mut connection, &request("tools/list"), "caller");
    assert!(matches!(
        connection.read(line(
            "{\"jsonrpc\":\"2.0\",\"id\":9001,\"method\":\"sampling/createMessage\"}"
        )),
        Routing::ServerRequest,
    ));
    let event = echo(&request);
    delivered(&mut connection, event, "caller");
}

#[test]
fn unmatched_response_id_is_dropped() {
    let mut connection = Connection::open();
    let request = send(&mut connection, &request("tools/list"), "caller");
    assert!(matches!(
        connection.read(line("{\"jsonrpc\":\"2.0\",\"id\":424242,\"result\":{\"stray\":true}}")),
        Routing::Unmatched(424_242),
    ));
    let event = echo(&request);
    delivered(&mut connection, event, "caller");
}

#[test]
fn end_of_file_fails_pending_request() {
    let mut connection = Connection::open();
    let request = send(&mut connection, &request("tools/list"), "caller");
    assert_eq!(connection.pending(), 1);
    assert!(matches!(connection.read(ReadEvent::EndOfFile), Routing::Closed));
    assert_eq!(connection.pending(), 0);
    assert!(matches!(
        connection.conclude(request, Reply::Closed),
        Err(BridgeError::ProcessExited),
    ));
}

#[test]
fn end_of_file_marks_connection_dead() {
    let mut connection = Connection::open();
    assert!(!connection.is_dead());
    connection.read(ReadEvent::Failed("broken pipe".to_owned()));
    assert!(connection.is_dead());
    assert!(matches!(
        connection.send(&request("tools/list"), "late"),
        Err(BridgeError::ProcessExited),
    ));
    assert!(matches!(
        connection.write_message(&request("tools/list")),
        Err(BridgeError::ProcessExited),
    ));
    assert_eq!(connection.pending(), 0);
}

#[test]
fn string_id_is_restored() {
    let mut connection = Connection::open();
    let response = answered(&mut connection, &request_with_id(text("abc-123"), "ping"));
    assert_eq!(member(&response, &["id"]), &text("abc-123"));
}

#[test]
fn null_id_is_restored() {
    let mut connection = Connection::open();
    let response = answered(&mut connection, &request_with_id(Json::Null, "ping"));
    assert_eq!(member(&response, &["id"]), &Json::Null);
    let without = object(vec![("jsonrpc", text("2.0")), ("method", text("ping"))]);
    let response = answered(&mut connection, &without);
    assert_eq!(member(&response, &["id"]), &Json::Null);
}

#[test]
fn timed_out_request_does_not_poison_later_request() {
    let mut connection = Connection::open();
    let first = send(&mut connection, &request("slow"), "first");
    let late = echo(&first);
    assert!(matches!(
        connection.conclude(first, Reply::TimedOut),
        Err(BridgeError::RequestTimeout),
    ));
    assert!(matches!(connection.read(late), Routing::Unmatched(0)));
    let second = answered(&mut connection, &request("tools/call"));
    assert_eq!(member(&second, &["result", "echo"]), &text("tools/call"));
}

#[test]
fn concurrent_requests_correlate_out_of_order() {
    let mut connection = Connection::open();
    let first = send(&mut connection, &request("first"), "first");
    let second = send(&mut connection, &request("second"), "second");
    assert_ne!(first.bridge_id, second.bridge_id);
    let event = echo(&second);
    let frame = delivered(&mut connection, event, "second");
    assert_eq!(member(&frame, &["result", "echo"]), &text("second"));
    let event = echo(&first);
    let frame = delivered(&mut connection, event, "first");
    assert_eq!(member(&frame, &["result", "echo"]), &text("first"));
}

#[test]
fn notify_writes_without_expecting_a_response() {
    let mut connection: Connection<&'static str> = Connection::open();
    let written = connection
        .write_message(&initialized_notification())
        .ok()
        .expect("a line");
    assert_eq!(
        written,
        "{\"jsonrpc\":\"2.0\",\"method\":\"notifications/initialized\"}\n",
    );
    assert!(connection.notify(WriteOutcome::Written).is_ok());
    assert_eq!(connection.pending(), 0);
}

#[test]
fn write_timeout_poisons_the_connection() {
    let mut connection = Connection::open();
    let request = connection
        .send(&request("tools/call"), "caller")
        .ok()
        .expect("the session is alive");
    assert!(matches!(
        connection.settle_write(request.bridge_id, WriteOutcome::TimedOut),
        Err(BridgeError::RequestTimeout),
    ));
    assert!(
        connection.is_dead(),
        "a timed-out write must poison the connection"
    );
    assert_eq!(connection.pending(), 0);
}

#[test]
fn failed_writes_poison_and_refused_ones_do_not() {
    let mut connection = Connection::open();
    let request = connection
        .send(&request("x"), "caller")
        .ok()
        .expect("the session is alive");
    let refused = WriteOutcome::Refused(BridgeError::Serialise("no".to_owned()));
    assert!(connection.settle_write(request.bridge_id, refused).is_err());
    assert!(!connection.is_dead());
    let error = connection
        .notify(WriteOutcome::Failed("broken pipe".to_owned()))
        .expect_err("the write failed");
    assert_eq!(error.message(), "failed to write to process stdin: broken pipe");
    assert!(connection.is_dead());
    let mut other: Connection<&'static str> = Connection::open();
    other.poison();
    assert!(other.is_dead());
}

#[test]
fn frames_are_told_apart() {
    let id = || ("id", Json::Unsigned(3));
    let result = || ("result", Json::Null);
    assert_eq!(classify_inbound(&object(vec![id(), result()])), InboundFrame::Response(3));
    assert_eq!(
        classify_inbound(&object(vec![id(), ("error", Json::Null)])),
        InboundFrame::Response(3),
    );
    assert_eq!(classify_inbound(&object(vec![id()])), InboundFrame::Unrecognised);
    assert_eq!(classify_inbound(&object(vec![result()])), InboundFrame::Unrecognised);
    assert_eq!(
        classify_inbound(&object(vec![("id", text("3")), result()])),
        InboundFrame::Unrecognised,
    );
    assert_eq!(
        classify_inbound(&object(vec![("method", text("m")), id(), result()])),
        InboundFrame::ServerRequest,
    );
    assert_eq!(classify_inbound(&Json::Array(Vec::new())), InboundFrame::Unrecognised);
    let mut connection: Connection<&'static str> = Connection::open();
    assert!(matches!(connection.read(line("[1,2]")), Routing::Unrecognised));
}

#[test]
fn previews_are_cut_between_characters() {
    assert_eq!(log_preview("short"), "short");
    let exact = "a".repeat(LOG_PREVIEW_BYTES);
    assert_eq!(log_preview(&exact), exact);
    let long = "a".repeat(LOG_PREVIEW_BYTES + 1);
    assert_eq!(log_preview(&long), format!("{exact}..."));
    let split = format!("{}ä", "a".repeat(LOG_PREVIEW_BYTES - 1));
    assert_eq!(log_preview(&split), format!("{}...", "a".repeat(LOG_PREVIEW_BYTES - 1)));
}

#[test]
fn the_time_for_an_exchange_is_shared() {
    assert_eq!(remaining(100, 30), 70);
    assert_eq!(remaining(100, 100), 0);
    assert_eq!(remaining(100, 300), 0);
}

#[test]
fn initialize_request_has_correct_structure() {
    let req = initialize_request();
    assert_eq!(member(&req, &["jsonrpc"]), &text("2.0"));
    assert_eq!(member(&req, &["id"]), &Json::Unsigned(0));
    assert_eq!(member(&req, &["method"]), &text("initialize"));
    assert_eq!(member(&req, &["params", "protocolVersion"]), &text(PROTOCOL_VERSION));
    assert_eq!(member(&req, &["params", "clientInfo", "name"]), &text(CLIENT_NAME));
}

#[test]
fn initialized_notification_has_no_id() {
    let notif = initialized_notification();
    assert_eq!(member(&notif, &["jsonrpc"]), &text("2.0"));
    assert_eq!(member(&notif, &["method"]), &text("notifications/initialized"));
    assert!(notif.get("id").is_none());
}

fn reply(result: Json) -> Json {
    object(vec![("jsonrpc", text("2.0")), ("id", Json::Unsigned(0)), ("result", result)])
}

fn full_result() -> Json {
    object(vec![
        ("protocolVersion", text("2025-03-26")),
        (
            "capabilities",
            object(vec![("tools", object(vec![("listChanged", Json::Bool(true))]))]),
        ),
        (
            "serverInfo",
            object(vec![("name", text("test-server")), ("version", text("1.0.0"))]),
        ),
    ])
}

#[test]
fn valid_response_parses_to_handshake() {
    let handshake = parse_initialize_response(&reply(full_result())).unwrap();
    assert_eq!(handshake.protocol_version, "2025-03-26");
    assert_eq!(
        member(&handshake.capabilities, &["tools", "listChanged"]),
        &Json::Bool(true),
    );
    let info = handshake.server_info.unwrap();
    assert_eq!(info.name, "test-server");
    assert_eq!(info.version.as_deref(), Some("1.0.0"));
}

#[test]
fn response_without_result_fails() {
    let response = object(vec![
        ("jsonrpc", text("2.0")),
        ("id", Json::Unsigned(0)),
        (
            "error",
            object(vec![
                ("code", Json::Negative(-1)),
                ("message", text("failed")),
            ]),
        ),
    ]);
    let err = parse_initialize_response(&response).unwrap_err();
    assert!(matches!(err, HandshakeError::MissingResult));
}

#[test]
fn response_without_protocol_version_fails() {
    let response = reply(object(vec![("capabilities", object(Vec::new()))]));
    let err = parse_initialize_response(&response).unwrap_err();
    assert!(matches!(err, HandshakeError::MissingProtocolVersion));
}

#[test]
fn missing_capabilities_defaults_to_empty() {
    let response = reply(object(vec![("protocolVersion", text("2025-03-26"))]));
    let handshake = parse_initialize_response(&response).unwrap();
    assert_eq!(handshake.capabilities, object(Vec::new()));
    assert!(handshake.server_info.is_none());
}

fn identity(info: Json) -> Option<(String, Option<String>)> {
    let response = reply(object(vec![
        ("protocolVersion", text("2025-03-26")),
        ("serverInfo", info),
    ]));
    parse_initialize_response(&response)
        .unwrap()
        .server_info
        .map(|info| (info.name, info.version))
}

#[test]
fn unreadable_server_identities_are_left_out() {
    let named = |version: Json| object(vec![("name", text("s")), ("version", version)]);
    assert_eq!(identity(named(Json::Null)), Some(("s".to_owned(), None)));
    assert_eq!(identity(named(Json::Unsigned(1))), None);
    assert_eq!(identity(object(vec![("version", text("1"))])), None);
    assert_eq!(identity(text("s")), None);
    assert_eq!(identity(Json::Array(vec![text("s")])), Some(("s".to_owned(), None)));
    assert_eq!(
        identity(Json::Array(vec![text("s"), text("1")])),
        Some(("s".to_owned(), Some("1".to_owned()))),
    );
    assert_eq!(identity(Json::Array(vec![text("s"), text("1"), Json::Null])), None);
}

#[test]
fn spawn_with_non_mcp_process_fails_handshake() {
    let err = Bridge::spawn(Err(BridgeError::RequestTimeout))
        .err()
        .expect("the handshake fails");
    assert!(matches!(err, BridgeError::HandshakeTimeout));
    assert_eq!(err.message(), "MCP handshake timed out");
}

#[test]
fn spawn_immediately_exiting_process_fails() {
    let err = Bridge::spawn(Err(BridgeError::ProcessExited))
        .err()
        .expect("the handshake fails");
    assert!(matches!(err, BridgeError::ProcessExited));
    let err = Bridge::spawn(Ok(Json::Null)).err().expect("the handshake fails");
    assert_eq!(
        err.message(),
        "MCP handshake failed: initialize response missing result field",
    );
}

fn config(injection: Option<CredentialInjection>) -> SpawnConfig {
    let mut env = NameMap::new();
    env.insert("LOG_LEVEL".to_owned(), Secret::new("debug".to_owned()));
    SpawnConfig { command: "cat".to_owned(), args: Vec::new(), env, injection }
}

fn env_injection(name: &str) -> Option<CredentialInjection> {
    Some(CredentialInjection::Env { credential_name: name.to_owned() })
}

#[test]
fn spawn_resolves_env_credential_before_launching_child() {
    let config = config(env_injection("stdio-token"));
    assert_eq!(config.credential_needed().ok().flatten(), Some("stdio-token"));
    let env = resolve_environment(&config, Ok(Secret::new("secret-value".to_owned())))
        .ok()
        .expect("the environment");
    assert_eq!(env.get("MCP_CREDENTIAL").map(Secret::expose), Some("secret-value"));
    assert_eq!(env.get("LOG_LEVEL").map(Secret::expose), Some("debug"));
}

#[test]
fn spawn_without_injection_skips_resolver() {
    let config = config(None);
    assert_eq!(config.credential_needed().ok(), Some(None));
    let env = resolve_environment(&config, Err("unused".to_owned()))
        .ok()
        .expect("the environment");
    assert_eq!(env.len(), 1);
    assert!(!env.contains_key("MCP_CREDENTIAL"));
}

#[test]
fn spawn_resolution_failure_returns_bridge_error_without_launching() {
    let config = config(env_injection("missing"));
    let error = resolve_environment(&config, Err("resolver always fails".to_owned()))
        .err()
        .expect("resolver failure must surface");
    match error {
        BridgeError::CredentialResolution { credential, ref reason } => {
            assert_eq!(credential, "missing");
            assert!(
                reason.contains("always fails"),
                "the resolver's error message must propagate, got {reason:?}",
            );
        }
        other => panic!("expected CredentialResolution error, got {other:?}"),
    }
}

#[test]
fn spawn_rejects_header_injection_metadata() {
    let config = config(Some(CredentialInjection::Header {
        credential_name: "http-token".to_owned(),
        header_name: "Authorization".to_owned(),
        header_prefix: "Bearer ".to_owned(),
    }));
    assert!(matches!(config.credential_needed(), Err(BridgeError::InvalidInjection(_))));
    let error = resolve_environment(&config, Ok(Secret::new("x".to_owned())))
        .err()
        .expect("header injection on a stdio bridge must be rejected");
    assert!(
        matches!(error, BridgeError::InvalidInjection(_)),
        "expected InvalidInjection, got {error:?}",
    );
}

#[test]
fn answers_clear_the_failed_probes() {
    let mut bridge = Bridge::spawn(Ok(reply(full_result()))).ok().expect("a bridge");
    assert_eq!(bridge.handshake().protocol_version, "2025-03-26");
    assert_eq!(member(&ping_request(), &["method"]), &text("ping"));
    assert!(!bridge.health_check(&Err(BridgeError::RequestTimeout)));
    assert!(!bridge.health_check(&Err(BridgeError::ProcessExited)));
    assert_eq!(bridge.consecutive_ping_failures(), 2);
    bridge.send(&Err(BridgeError::RequestTimeout));
    assert_eq!(bridge.consecutive_ping_failures(), 2);
    bridge.send(&Ok(Json::Null));
    assert_eq!(bridge.consecutive_ping_failures(), 0);
    bridge.health_check(&Err(BridgeError::RequestTimeout));
    assert!(bridge.health_check(&Ok(object(vec![("error", Json::Null)]))));
    assert_eq!(bridge.consecutive_ping_failures(), 0);
}

#[test]
fn a_bridge_is_alive_while_its_process_runs() {
    assert!(Bridge::is_alive(false, ChildState::Running));
    assert!(!Bridge::is_alive(true, ChildState::Running));
    assert!(!Bridge::is_alive(false, ChildState::Exited));
    assert!(!Bridge::is_alive(false, ChildState::Unknown));
}

#[test]
fn every_bridge_error_has_a_message() {
    let cases = [
        (BridgeError::Spawn("e".to_owned()), "failed to spawn process: e"),
        (BridgeError::StdioPipe, "failed to capture stdio pipes"),
        (BridgeError::RequestTimeout, "request timed out"),
        (BridgeError::Read("e".to_owned()), "failed to read from process stdout: e"),
        (BridgeError::ProcessExited, "process exited unexpectedly"),
        (BridgeError::Serialise("e".to_owned()), "failed to serialise message: e"),
        (
            BridgeError::InvalidResponse("e".to_owned()),
            "invalid JSON response from process: e",
        ),
        (
            BridgeError::InvalidInjection("e".to_owned()),
            "invalid injection for stdio bridge: e",
        ),
    ];
    for (error, message) in cases {
        assert_eq!(error.message(), message);
    }
}

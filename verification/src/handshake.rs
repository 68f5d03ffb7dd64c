//! The `initialize` handshake with an MCP server.

use vstd::prelude::*;

use crate::bridge::{BridgeError, BridgeFault};
use crate::json;
use crate::json::{Json, JsonValue};
use crate::names;
use crate::text;

verus! {

/// The protocol version that the gateway offers.
pub const PROTOCOL_VERSION: &'static str = "2025-03-26";

/// The name by which the gateway introduces itself.
pub const CLIENT_NAME: &'static str = "mcp-gateway";

/// The version by which the gateway introduces itself.
pub const CLIENT_VERSION: &'static str = "0.1.0";

/// The identity of a server.
#[derive(Debug)]
pub struct ServerInfo {
    pub name: String,
    pub version: Option<String>,
}

/// The outcome of a handshake.
#[derive(Debug)]
pub struct Handshake {
    /// The protocol version of the server.
    pub protocol_version: String,
    /// The capabilities of the server.
    pub capabilities: Json,
    /// The identity of the server.
    pub server_info: Option<ServerInfo>,
}

/// The outcome of a handshake as a mathematical value.
pub struct Terms {
    pub protocol_version: Seq<char>,
    pub capabilities: JsonValue,
    pub server_info: Option<(Seq<char>, Option<Seq<char>>)>,
}

impl View for ServerInfo {
    type V = (Seq<char>, Option<Seq<char>>);

    open spec fn view(&self) -> (Seq<char>, Option<Seq<char>>) {
        (self.name@, text::opt(self.version))
    }
}

impl View for Handshake {
    type V = Terms;

    open spec fn view(&self) -> Terms {
        Terms {
            protocol_version: self.protocol_version@,
            capabilities: self.capabilities@,
            server_info: match self.server_info {
                Some(info) => Some(info@),
                None => None,
            },
        }
    }
}

/// Errors of the handshake.
#[derive(Debug, Clone, Copy, PartialEq, Eq, Structural)]
pub enum HandshakeError {
    /// The response has no result.
    MissingResult,
    /// The result has no protocol version.
    MissingProtocolVersion,
}

/// The message of a handshake error.
pub open spec fn handshake_message(e: HandshakeError) -> Seq<char> {
    match e {
        HandshakeError::MissingResult => "initialize response missing result field"@,
        HandshakeError::MissingProtocolVersion => "initialize response missing protocolVersion"@,
    }
}

impl HandshakeError {
    /// The message shown to operators.
    pub fn message(&self) -> (m: String)
        ensures
            m@ == handshake_message(*self),
    {
        match self {
            HandshakeError::MissingResult => "initialize response missing result field".to_owned(),
            HandshakeError::MissingProtocolVersion => {
                "initialize response missing protocolVersion".to_owned()
            },
        }
    }
}

// ---------------------------------------------------------------------------
// Messages to the server
// ---------------------------------------------------------------------------

/// How the gateway introduces itself.
pub open spec fn introduction() -> JsonValue {
    JsonValue::Object(
        seq![
            ("name"@, JsonValue::Text(CLIENT_NAME@)),
            ("version"@, JsonValue::Text(CLIENT_VERSION@)),
        ],
    )
}

/// The parameters of the `initialize` request: no capability is claimed.
pub open spec fn offer() -> JsonValue {
    JsonValue::Object(
        seq![
            ("protocolVersion"@, JsonValue::Text(PROTOCOL_VERSION@)),
            ("capabilities"@, JsonValue::Object(Seq::empty())),
            ("clientInfo"@, introduction()),
        ],
    )
}

/// The `initialize` request.
pub open spec fn initialize() -> JsonValue {
    JsonValue::Object(
        seq![
            ("jsonrpc"@, JsonValue::Text("2.0"@)),
            ("id"@, JsonValue::Unsigned(0)),
            ("method"@, JsonValue::Text("initialize"@)),
            ("params"@, offer()),
        ],
    )
}

/// The notification that ends the handshake.
pub open spec fn initialized() -> JsonValue {
    JsonValue::Object(
        seq![
            ("jsonrpc"@, JsonValue::Text("2.0"@)),
            ("method"@, JsonValue::Text("notifications/initialized"@)),
        ],
    )
}

fn empty_object() -> (json: Json)
    ensures
        json@ == JsonValue::Object(Seq::empty()),
{
    let members: Vec<(String, Json)> = Vec::new();
    assert(json::pairs(members@) =~= Seq::empty());
    json::object(members)
}

/// The request that opens the handshake.
pub fn initialize_request() -> (request: Json)
    ensures
        request@ == initialize(),
{
    let mut client: Vec<(String, Json)> = Vec::new();
    client.push(("name".to_owned(), Json::Text(CLIENT_NAME.to_owned())));
    client.push(("version".to_owned(), Json::Text(CLIENT_VERSION.to_owned())));
    assert(json::pairs(client@) =~= introduction()->Object_0);
    let client_info = json::object(client);
    let capabilities = empty_object();
    let mut parameters: Vec<(String, Json)> = Vec::new();
    parameters.push(("protocolVersion".to_owned(), Json::Text(PROTOCOL_VERSION.to_owned())));
    parameters.push(("capabilities".to_owned(), capabilities));
    parameters.push(("clientInfo".to_owned(), client_info));
    assert(json::pairs(parameters@) =~= offer()->Object_0);
    let params = json::object(parameters);
    let mut members: Vec<(String, Json)> = Vec::new();
    members.push(("jsonrpc".to_owned(), Json::Text("2.0".to_owned())));
    members.push(("id".to_owned(), Json::Unsigned(0)));
    members.push(("method".to_owned(), Json::Text("initialize".to_owned())));
    members.push(("params".to_owned(), params));
    assert(json::pairs(members@) =~= initialize()->Object_0);
    let request = json::object(members);
    request
}

/// The notification that ends the handshake.
pub fn initialized_notification() -> (notification: Json)
    ensures
        notification@ == initialized(),
{
    let mut members: Vec<(String, Json)> = Vec::new();
    members.push(("jsonrpc".to_owned(), Json::Text("2.0".to_owned())));
    members.push(("method".to_owned(), Json::Text("notifications/initialized".to_owned())));
    assert(json::pairs(members@) =~= initialized()->Object_0);
    let notification = json::object(members);
    notification
}

// ---------------------------------------------------------------------------
// The response
// ---------------------------------------------------------------------------

/// The version that a JSON value gives: a text, or none. The outer `None`
/// stands for a value that is neither.
pub open spec fn version_of(v: JsonValue) -> Option<Option<Seq<char>>> {
    match v {
        JsonValue::Null => Some(None),
        JsonValue::Text(s) => Some(Some(s)),
        _ => None,
    }
}

/// The identity that a JSON value gives: an object with a name and perhaps a
/// version, or a list of these.
pub open spec fn server_info_of(v: JsonValue) -> Option<(Seq<char>, Option<Seq<char>>)> {
    match v {
        JsonValue::Object(members) => match json::member(v, "name"@) {
            Some(JsonValue::Text(name)) => match json::member(v, "version"@) {
                None => Some((name, None)),
                Some(version) => match version_of(version) {
                    Some(version) => Some((name, version)),
                    None => None,
                },
            },
            _ => None,
        },
        JsonValue::Array(items) => if items.len() == 1 && items[0] is Text {
            Some((items[0]->Text_0, None))
        } else if items.len() == 2 && items[0] is Text {
            match version_of(items[1]) {
                Some(version) => Some((items[0]->Text_0, version)),
                None => None,
            }
        } else {
            None
        },
        _ => None,
    }
}

/// What a response to the `initialize` request says.
pub open spec fn terms_of(response: JsonValue) -> Result<Terms, HandshakeError> {
    match json::member(response, "result"@) {
        None => Err(HandshakeError::MissingResult),
        Some(result) => match json::member(result, "protocolVersion"@) {
            Some(JsonValue::Text(protocol_version)) => Ok(
                Terms {
                    protocol_version,
                    capabilities: match json::member(result, "capabilities"@) {
                        Some(capabilities) => capabilities,
                        None => JsonValue::Object(Seq::empty()),
                    },
                    server_info: match json::member(result, "serverInfo"@) {
                        Some(info) => server_info_of(info),
                        None => None,
                    },
                },
            ),
            _ => Err(HandshakeError::MissingProtocolVersion),
        },
    }
}

fn read_version(v: &Json) -> (r: Option<Option<String>>)
    ensures
        match version_of(v@) {
            Some(version) => r matches Some(o) && text::opt(o) == version,
            None => r is None,
        },
{
    match v {
        Json::Null => Some(None),
        Json::Text(s) => Some(Some(s.clone())),
        _ => None,
    }
}

fn read_server_info(v: &Json) -> (r: Option<ServerInfo>)
    ensures
        match server_info_of(v@) {
            Some(info) => r matches Some(i) && i@ == info,
            None => r is None,
        },
{
    match v {
        Json::Object(_) => {
            let name = match v.get("name") {
                Some(Json::Text(name)) => name.clone(),
                _ => {
                    return None;
                },
            };
            match v.get("version") {
                None => Some(ServerInfo { name, version: None }),
                Some(version) => match read_version(version) {
                    Some(version) => Some(ServerInfo { name, version }),
                    None => None,
                },
            }
        },
        Json::Array(items) => {
            if items.len() == 0 || items.len() > 2 {
                return None;
            }
            assert(v@->Array_0[0] == items@[0]@);
            let name = match &items[0] {
                Json::Text(name) => name.clone(),
                _ => {
                    return None;
                },
            };
            if items.len() == 1 {
                return Some(ServerInfo { name, version: None });
            }
            assert(v@->Array_0[1] == items@[1]@);
            match read_version(&items[1]) {
                Some(version) => Some(ServerInfo { name, version }),
                None => None,
            }
        },
        _ => None,
    }
}

/// Read the response to the `initialize` request.
pub fn parse_initialize_response(response: &Json) -> (r: Result<Handshake, HandshakeError>)
    ensures
        match terms_of(response@) {
            Ok(terms) => r matches Ok(h) && h@ == terms,
            Err(e) => r == Err::<Handshake, HandshakeError>(e),
        },
{
    let result = match response.get("result") {
        Some(result) => result,
        None => {
            return Err(HandshakeError::MissingResult);
        },
    };
    let protocol_version = match result.get("protocolVersion") {
        Some(Json::Text(version)) => version.clone(),
        _ => {
            return Err(HandshakeError::MissingProtocolVersion);
        },
    };
    let capabilities = match result.get("capabilities") {
        Some(capabilities) => json::copy_json(capabilities),
        None => empty_object(),
    };
    let server_info = match result.get("serverInfo") {
        Some(info) => read_server_info(info),
        None => None,
    };
    Ok(Handshake { protocol_version, capabilities, server_info })
}

/// How a request ended, by its views.
pub open spec fn reply_view(reply: Result<Json, BridgeError>) -> Result<JsonValue, BridgeFault> {
    match reply {
        Ok(response) => Ok(response@),
        Err(e) => Err(e@),
    }
}

/// The outcome of a handshake, from how the `initialize` request ended. That
/// it ended too late is the handshake's own error.
pub open spec fn agreed(reply: Result<JsonValue, BridgeFault>) -> Result<Terms, BridgeFault> {
    match reply {
        Err(BridgeFault::RequestTimeout) => Err(BridgeFault::HandshakeTimeout),
        Err(f) => Err(f),
        Ok(response) => match terms_of(response) {
            Ok(terms) => Ok(terms),
            Err(e) => Err(BridgeFault::Handshake(e)),
        },
    }
}

/// Conclude a handshake from how the `initialize` request ended. On success
/// the server is owed the notification that it is initialised.
pub fn perform(reply: Result<Json, BridgeError>) -> (r: Result<Handshake, BridgeError>)
    ensures
        match agreed(reply_view(reply)) {
            Ok(terms) => r matches Ok(h) && h@ == terms,
            Err(f) => r matches Err(e) && e@ == f,
        },
{
    match reply {
        Err(BridgeError::RequestTimeout) => Err(BridgeError::HandshakeTimeout),
        Err(e) => Err(e),
        Ok(response) => match parse_initialize_response(&response) {
            Ok(handshake) => Ok(handshake),
            Err(e) => Err(BridgeError::Handshake(e)),
        },
    }
}

// ---------------------------------------------------------------------------
// Laws
// ---------------------------------------------------------------------------

/// A server that names a protocol version is taken at its word, whatever the
/// version is: the handshake succeeds with that version, and with the
/// capabilities that the server claims, or none where it claims none.
pub proof fn any_named_version_is_taken_over(
    response: JsonValue,
    result: JsonValue,
    version: Seq<char>,
)
    requires
        json::member(response, "result"@) == Some(result),
        json::member(result, "protocolVersion"@) == Some(JsonValue::Text(version)),
    ensures
        terms_of(response) matches Ok(terms) && {
            &&& terms.protocol_version == version
            &&& json::member(result, "capabilities"@) matches Some(c) ==> terms.capabilities == c
            &&& json::member(result, "capabilities"@) is None ==> terms.capabilities
                == JsonValue::Object(Seq::empty())
            &&& json::member(result, "serverInfo"@) is None ==> terms.server_info is None
        },
        agreed(Ok(response)) matches Ok(terms) && terms.protocol_version == version,
{
}

/// A handshake fails only where the response has no result, or where the
/// result names no version: every other response is agreed to.
pub proof fn handshakes_fail_for_want_of_a_version_only(response: JsonValue)
    ensures
        terms_of(response) == Err::<Terms, _>(HandshakeError::MissingResult) <==> json::member(
            response,
            "result"@,
        ) is None,
        terms_of(response) == Err::<Terms, _>(HandshakeError::MissingProtocolVersion) <==> (
        json::member(response, "result"@) matches Some(result) && !(json::member(
            result,
            "protocolVersion"@,
        ) matches Some(JsonValue::Text(_)))),
        terms_of(response) is Err <==> agreed(Ok(response)) is Err,
        terms_of(response) matches Err(e) ==> agreed(Ok(response)) == Err::<Terms, _>(
            BridgeFault::Handshake(e),
        ),
        terms_of(response) matches Ok(t) ==> agreed(Ok(response)) == Ok::<_, BridgeFault>(t),
{
}

/// A server that gives a name is known by it, with its version where it gives
/// one as a text. An identity that gives no name, or a version that is no
/// text, is none; it does not fail the handshake.
pub proof fn servers_are_known_by_the_name_they_give(
    response: JsonValue,
    result: JsonValue,
    info: JsonValue,
    name: Seq<char>,
    version: Seq<char>,
)
    requires
        json::member(response, "result"@) == Some(result),
        json::member(result, "protocolVersion"@) matches Some(JsonValue::Text(_)),
        json::member(result, "serverInfo"@) == Some(info),
    ensures
        terms_of(response) matches Ok(terms) && {
            let named = json::member(info, "name"@) == Some(JsonValue::Text(name));
            let versioned = json::member(info, "version"@);
            &&& named && versioned == Some(JsonValue::Text(version)) ==> terms.server_info == Some(
                (name, Some(version)),
            )
            &&& named && (versioned is None || versioned == Some(JsonValue::Null))
                ==> terms.server_info == Some((name, None::<Seq<char>>))
            &&& named && versioned is Some && !(versioned->Some_0 is Text)
                && !(versioned->Some_0 is Null) ==> terms.server_info is None
            &&& info is Object && !(json::member(info, "name"@) matches Some(JsonValue::Text(_)))
                ==> terms.server_info is None
            &&& !(info is Object) && !(info is Array) ==> terms.server_info is None
            &&& info == JsonValue::Array(seq![JsonValue::Text(name)]) ==> terms.server_info == Some(
                (name, None::<Seq<char>>),
            )
            &&& info == JsonValue::Array(seq![JsonValue::Text(name), JsonValue::Text(version)])
                ==> terms.server_info == Some((name, Some(version)))
        },
{
}

/// A request that brought no response brings no handshake: it ends with the
/// fault of the request, and one that ended too late is the handshake's own
/// timeout.
pub proof fn unanswered_handshakes_fail(f: BridgeFault)
    ensures
        agreed(Err(f)) matches Err(g) && (f == BridgeFault::RequestTimeout ==> g
            == BridgeFault::HandshakeTimeout) && (f != BridgeFault::RequestTimeout ==> g == f),
        reply_view(Err(BridgeError::RequestTimeout)) == Err::<JsonValue, _>(
            BridgeFault::RequestTimeout,
        ),
        forall|response: Json| #[trigger] reply_view(Ok(response)) == Ok::<_, BridgeFault>(response@),
{
}

/// The handshake opens with a request, which carries an id and offers the
/// gateway's version and no capability, and ends with a notification, which
/// carries none.
pub proof fn handshakes_open_with_a_request_and_end_with_a_notification()
    ensures
        json::member(initialize(), "jsonrpc"@) == Some(JsonValue::Text("2.0"@)),
        json::member(initialize(), "method"@) == Some(JsonValue::Text("initialize"@)),
        json::member(initialize(), "id"@) matches Some(JsonValue::Unsigned(_)),
        json::member(initialize(), "params"@) matches Some(params) && {
            &&& json::member(params, "protocolVersion"@) == Some(JsonValue::Text("2025-03-26"@))
            &&& json::member(params, "capabilities"@) == Some(JsonValue::Object(Seq::empty()))
            &&& json::member(params, "clientInfo"@) matches Some(client) && json::member(
                client,
                "name"@,
            ) == Some(JsonValue::Text("mcp-gateway"@))
        },
        json::member(initialized(), "jsonrpc"@) == Some(JsonValue::Text("2.0"@)),
        json::member(initialized(), "method"@) == Some(
            JsonValue::Text("notifications/initialized"@),
        ),
        json::member(initialized(), "id"@) is None,
{
    reveal_strlit("jsonrpc");
    reveal_strlit("id");
    reveal_strlit("method");
    reveal_strlit("params");
    reveal_strlit("protocolVersion");
    reveal_strlit("capabilities");
    reveal_strlit("clientInfo");
    reveal_strlit("name");
    reveal_with_fuel(names::position, 5);
    assert("jsonrpc"@.len() == 7 && "id"@.len() == 2 && "method"@.len() == 6 && "params"@.len()
        == 6);
    assert("method"@[0] == 'm' && "params"@[0] == 'p');
    assert("protocolVersion"@.len() == 15 && "capabilities"@.len() == 12 && "clientInfo"@.len()
        == 10);
}

/// The two errors of the handshake read differently.
pub proof fn handshake_errors_can_be_told_apart()
    ensures
        handshake_message(HandshakeError::MissingResult) != handshake_message(
            HandshakeError::MissingProtocolVersion,
        ),
        text::mentions(handshake_message(HandshakeError::MissingResult), "result"@),
        text::mentions(
            handshake_message(HandshakeError::MissingProtocolVersion),
            "protocolVersion"@,
        ),
{
    reveal_strlit("initialize response missing result field");
    reveal_strlit("initialize response missing protocolVersion");
    reveal_strlit("result");
    reveal_strlit("protocolVersion");
    let a = "initialize response missing result field"@;
    let b = "initialize response missing protocolVersion"@;
    assert(a.len() != b.len());
    text::lemma_mentions(a.take(28), "result"@, a.skip(34));
    assert(a =~= a.take(28) + "result"@ + a.skip(34));
    text::lemma_mentions(b.take(28), "protocolVersion"@, Seq::empty());
    assert(b =~= b.take(28) + "protocolVersion"@);
}

/// Reading a response takes over whatever version it names, and fails only
/// where it has no result or its result names no version.
pub proof fn responses_are_read_whatever_their_version(
    response: &Json,
    r: Result<Handshake, HandshakeError>,
    result: JsonValue,
    version: Seq<char>,
)
    requires
        call_ensures(parse_initialize_response, (response,), r),
    ensures
        json::member(response@, "result"@) == Some(result) && json::member(
            result,
            "protocolVersion"@,
        ) == Some(JsonValue::Text(version)) ==> (r matches Ok(h) && h.protocol_version@ == version),
        r matches Err(HandshakeError::MissingResult) ==> json::member(response@, "result"@) is None,
        r matches Err(HandshakeError::MissingProtocolVersion) ==> (json::member(
            response@,
            "result"@,
        ) matches Some(found) && !(json::member(found, "protocolVersion"@) matches Some(
            JsonValue::Text(_),
        ))),
{
    handshakes_fail_for_want_of_a_version_only(response@);
}

} // verus!

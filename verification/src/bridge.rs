//! Bridges to MCP servers that run as child processes.

use vstd::prelude::*;

use crate::handshake;
use crate::handshake::{Handshake, HandshakeError, Terms};
use crate::json;
use crate::json::{Json, JsonValue};
use crate::names;
use crate::names::NameMap;
use crate::secret::Secret;
use crate::server::{CredentialInjection, Injection};
use crate::text;

verus! {

/// The environment variable that carries a credential into a child process.
pub const ENV_CREDENTIAL_VARIABLE: &'static str = "MCP_CREDENTIAL";

/// Errors of a stdio bridge.
#[derive(Debug)]
pub enum BridgeError {
    /// The child process could not be spawned.
    Spawn(String),
    /// The pipes of the child process could not be captured.
    StdioPipe,
    /// The handshake did not complete in time.
    HandshakeTimeout,
    /// A request did not complete in time.
    RequestTimeout,
    /// The handshake failed.
    Handshake(HandshakeError),
    /// Writing to the child process failed.
    Write(String),
    /// Reading from the child process failed.
    Read(String),
    /// The child process exited.
    ProcessExited,
    /// A message could not be serialised.
    Serialise(String),
    /// The response of the child process is no JSON.
    InvalidResponse(String),
    /// A credential could not be resolved.
    CredentialResolution { credential: String, reason: String },
    /// The injection does not apply to a stdio bridge.
    InvalidInjection(String),
}

/// A bridge error as a mathematical value.
pub enum BridgeFault {
    Spawn(Seq<char>),
    StdioPipe,
    HandshakeTimeout,
    RequestTimeout,
    Handshake(HandshakeError),
    Write(Seq<char>),
    Read(Seq<char>),
    ProcessExited,
    Serialise(Seq<char>),
    InvalidResponse(Seq<char>),
    CredentialResolution(Seq<char>, Seq<char>),
    InvalidInjection(Seq<char>),
}

impl View for BridgeError {
    type V = BridgeFault;

    open spec fn view(&self) -> BridgeFault {
        match self {
            BridgeError::Spawn(e) => BridgeFault::Spawn(e@),
            BridgeError::StdioPipe => BridgeFault::StdioPipe,
            BridgeError::HandshakeTimeout => BridgeFault::HandshakeTimeout,
            BridgeError::RequestTimeout => BridgeFault::RequestTimeout,
            BridgeError::Handshake(e) => BridgeFault::Handshake(*e),
            BridgeError::Write(e) => BridgeFault::Write(e@),
            BridgeError::Read(e) => BridgeFault::Read(e@),
            BridgeError::ProcessExited => BridgeFault::ProcessExited,
            BridgeError::Serialise(e) => BridgeFault::Serialise(e@),
            BridgeError::InvalidResponse(e) => BridgeFault::InvalidResponse(e@),
            BridgeError::CredentialResolution { credential, reason } => {
                BridgeFault::CredentialResolution(credential@, reason@)
            },
            BridgeError::InvalidInjection(e) => BridgeFault::InvalidInjection(e@),
        }
    }
}

/// The message of a bridge error.
pub open spec fn bridge_message(f: BridgeFault) -> Seq<char> {
    match f {
        BridgeFault::Spawn(e) => "failed to spawn process: "@ + e,
        BridgeFault::StdioPipe => "failed to capture stdio pipes"@,
        BridgeFault::HandshakeTimeout => "MCP handshake timed out"@,
        BridgeFault::RequestTimeout => "request timed out"@,
        BridgeFault::Handshake(e) => "MCP handshake failed: "@ + handshake::handshake_message(e),
        BridgeFault::Write(e) => "failed to write to process stdin: "@ + e,
        BridgeFault::Read(e) => "failed to read from process stdout: "@ + e,
        BridgeFault::ProcessExited => "process exited unexpectedly"@,
        BridgeFault::Serialise(e) => "failed to serialise message: "@ + e,
        BridgeFault::InvalidResponse(e) => "invalid JSON response from process: "@ + e,
        BridgeFault::CredentialResolution(credential, reason) => "credential '"@ + credential
            + "' could not be resolved: "@ + reason,
        BridgeFault::InvalidInjection(e) => "invalid injection for stdio bridge: "@ + e,
    }
}

/// `lead` followed by `detail`.
fn joined(lead: &str, detail: &str) -> (m: String)
    ensures
        m@ == lead@ + detail@,
{
    let mut m = lead.to_owned();
    m.append(detail);
    m
}

impl BridgeError {
    /// The message shown to operators.
    pub fn message(&self) -> (m: String)
        ensures
            m@ == bridge_message(self@),
    {
        match self {
            BridgeError::Spawn(e) => joined("failed to spawn process: ", e.as_str()),
            BridgeError::StdioPipe => "failed to capture stdio pipes".to_owned(),
            BridgeError::HandshakeTimeout => "MCP handshake timed out".to_owned(),
            BridgeError::RequestTimeout => "request timed out".to_owned(),
            BridgeError::Handshake(e) => joined("MCP handshake failed: ", e.message().as_str()),
            BridgeError::Write(e) => joined("failed to write to process stdin: ", e.as_str()),
            BridgeError::Read(e) => joined("failed to read from process stdout: ", e.as_str()),
            BridgeError::ProcessExited => "process exited unexpectedly".to_owned(),
            BridgeError::Serialise(e) => joined("failed to serialise message: ", e.as_str()),
            BridgeError::InvalidResponse(e) => joined(
                "invalid JSON response from process: ",
                e.as_str(),
            ),
            BridgeError::CredentialResolution { credential, reason } => {
                let mut m = String::from_str("credential '");
                m.append(credential.as_str());
                m.append("' could not be resolved: ");
                m.append(reason.as_str());
                m
            },
            BridgeError::InvalidInjection(e) => joined(
                "invalid injection for stdio bridge: ",
                e.as_str(),
            ),
        }
    }
}

// ---------------------------------------------------------------------------
// Spawning
// ---------------------------------------------------------------------------

/// How a bridge process is spawned.
pub struct SpawnConfig {
    /// The program.
    pub command: String,
    /// Its arguments.
    pub args: Vec<String>,
    /// Environment variables that the operator sets.
    pub env: NameMap<Secret>,
    /// How a credential is injected. Only the environment applies to a child
    /// process.
    pub injection: Option<CredentialInjection>,
}

/// A spawn configuration as a mathematical value.
pub struct Spawning {
    pub command: Seq<char>,
    pub args: Seq<Seq<char>>,
    pub env: Seq<(Seq<char>, Seq<char>)>,
    pub injection: Option<Injection>,
}

impl View for SpawnConfig {
    type V = Spawning;

    open spec fn view(&self) -> Spawning {
        Spawning {
            command: self.command@,
            args: text::views(self.args@),
            env: names::deep(self.env@),
            injection: match self.injection {
                Some(i) => Some(i@),
                None => None,
            },
        }
    }
}

/// The credential that has to be resolved before a process is spawned. A
/// header cannot be injected into a process.
pub open spec fn credential_of(s: Spawning) -> Result<Option<Seq<char>>, BridgeFault> {
    match s.injection {
        None => Ok(None),
        Some(Injection::Env { credential_name }) => Ok(Some(credential_name)),
        Some(Injection::Header { .. }) => Err(
            BridgeFault::InvalidInjection("HTTP header injection is not valid for a stdio bridge"@),
        ),
    }
}

impl SpawnConfig {
    /// The credential that has to be resolved before the process is spawned.
    pub fn credential_needed(&self) -> (r: Result<Option<&str>, BridgeError>)
        ensures
            match credential_of(self@) {
                Ok(None) => r matches Ok(None),
                Ok(Some(name)) => r matches Ok(Some(n)) && n@ == name,
                Err(f) => r matches Err(e) && e@ == f,
            },
    {
        match &self.injection {
            None => Ok(None),
            Some(CredentialInjection::Env { credential_name }) => Ok(
                Some(credential_name.as_str()),
            ),
            Some(CredentialInjection::Header { .. }) => Err(
                BridgeError::InvalidInjection(
                    "HTTP header injection is not valid for a stdio bridge".to_owned(),
                ),
            ),
        }
    }
}

/// The environment of a child process, given how the resolution of its
/// credential ended, if it needs one.
pub open spec fn environment(s: Spawning, resolution: Result<Seq<char>, Seq<char>>) -> Result<
    Seq<(Seq<char>, Seq<char>)>,
    BridgeFault,
> {
    match credential_of(s) {
        Err(f) => Err(f),
        Ok(None) => Ok(s.env),
        Ok(Some(name)) => match resolution {
            Ok(value) => Ok(names::with_entry(s.env, ENV_CREDENTIAL_VARIABLE@, value)),
            Err(reason) => Err(BridgeFault::CredentialResolution(name, reason)),
        },
    }
}

/// A resolution by its views.
pub open spec fn resolution_view(r: Result<Secret, String>) -> Result<Seq<char>, Seq<char>> {
    match r {
        Ok(secret) => Ok(secret@),
        Err(reason) => Err(reason@),
    }
}

/// Build the environment of a child process: the operator's variables, and
/// the credential under its own variable. The resolution counts only where a
/// credential is needed.
pub fn resolve_environment(config: &SpawnConfig, resolution: Result<Secret, String>) -> (r: Result<
    NameMap<Secret>,
    BridgeError,
>)
    ensures
        match environment(config@, resolution_view(resolution)) {
            Ok(env) => r matches Ok(e) && names::deep(e@) == env,
            Err(f) => r matches Err(e) && e@ == f,
        },
{
    let needed = match config.credential_needed() {
        Ok(needed) => needed,
        Err(e) => {
            return Err(e);
        },
    };
    let mut env = config.env.duplicate();
    match needed {
        None => Ok(env),
        Some(name) => match resolution {
            Err(reason) => Err(
                BridgeError::CredentialResolution { credential: name.to_owned(), reason },
            ),
            Ok(secret) => {
                let ghost before = env@;
                env.insert(ENV_CREDENTIAL_VARIABLE.to_owned(), secret);
                proof {
                    names::lemma_deep_entry(before, ENV_CREDENTIAL_VARIABLE@, secret);
                }
                Ok(env)
            },
        },
    }
}

// ---------------------------------------------------------------------------
// The running bridge
// ---------------------------------------------------------------------------

/// What is known of a child process.
#[derive(Debug, Clone, Copy, PartialEq, Eq, Structural)]
pub enum ChildState {
    /// It has not exited.
    Running,
    /// It has exited.
    Exited,
    /// Its state cannot be read.
    Unknown,
}

/// A bridge to a child process that has completed the handshake.
pub struct Bridge {
    handshake: Handshake,
    consecutive_ping_failures: u32,
}

/// A bridge as a mathematical value.
pub struct Span {
    pub handshake: Terms,
    pub consecutive_ping_failures: u32,
}

impl View for Bridge {
    type V = Span;

    closed spec fn view(&self) -> Span {
        Span {
            handshake: self.handshake@,
            consecutive_ping_failures: self.consecutive_ping_failures,
        }
    }
}

/// The number of failures after one more, which wraps round.
pub open spec fn one_more(failures: u32) -> u32 {
    if failures == u32::MAX {
        0
    } else {
        (failures + 1) as u32
    }
}

impl Bridge {
    /// A bridge, from how the `initialize` request ended.
    pub fn spawn(reply: Result<Json, BridgeError>) -> (r: Result<Bridge, BridgeError>)
        ensures
            match handshake::agreed(handshake::reply_view(reply)) {
                Ok(terms) => r matches Ok(b) && b@ == (Span {
                    handshake: terms,
                    consecutive_ping_failures: 0,
                }),
                Err(f) => r matches Err(e) && e@ == f,
            },
    {
        match handshake::perform(reply) {
            Ok(handshake) => Ok(Bridge { handshake, consecutive_ping_failures: 0 }),
            Err(e) => Err(e),
        }
    }

    /// What the server agreed to.
    pub fn handshake(&self) -> (h: &Handshake)
        ensures
            h@ == self@.handshake,
    {
        &self.handshake
    }

    /// The number of probes that failed since the last answer.
    pub fn consecutive_ping_failures(&self) -> (n: u32)
        ensures
            n == self@.consecutive_ping_failures,
    {
        self.consecutive_ping_failures
    }

    /// Take note of how a request ended. An answer proves that the server is
    /// alive, so that the failed probes no longer count.
    pub fn send(&mut self, result: &Result<Json, BridgeError>)
        ensures
            final(self)@ == (Span {
                consecutive_ping_failures: if *result is Ok {
                    0
                } else {
                    old(self)@.consecutive_ping_failures
                },
                ..old(self)@
            }),
    {
        if result.is_ok() {
            self.consecutive_ping_failures = 0;
        }
    }

    /// Take note of how a probe ended, and say whether the server is alive.
    /// Any answer counts, an error as well.
    pub fn health_check(&mut self, result: &Result<Json, BridgeError>) -> (alive: bool)
        ensures
            alive == (*result is Ok),
            final(self)@ == (Span {
                consecutive_ping_failures: if *result is Ok {
                    0
                } else {
                    one_more(old(self)@.consecutive_ping_failures)
                },
                ..old(self)@
            }),
    {
        if result.is_ok() {
            self.consecutive_ping_failures = 0;
            true
        } else {
            self.consecutive_ping_failures = if self.consecutive_ping_failures == u32::MAX {
                0
            } else {
                self.consecutive_ping_failures + 1
            };
            false
        }
    }

    /// Whether a bridge can still serve requests, given whether its
    /// connection is dead and what is known of its process.
    pub fn is_alive(connection_dead: bool, child: ChildState) -> (alive: bool)
        ensures
            alive == (!connection_dead && child == ChildState::Running),
    {
        if connection_dead {
            return false;
        }
        match child {
            ChildState::Running => true,
            ChildState::Exited => false,
            ChildState::Unknown => false,
        }
    }
}

/// The probe as a JSON value.
pub open spec fn ping() -> JsonValue {
    JsonValue::Object(
        seq![
            ("jsonrpc"@, JsonValue::Text("2.0"@)),
            ("id"@, JsonValue::Unsigned(0)),
            ("method"@, JsonValue::Text("ping"@)),
        ],
    )
}

/// The probe that asks whether a server is alive.
pub fn ping_request() -> (request: Json)
    ensures
        request@ == ping(),
{
    let mut members: Vec<(String, Json)> = Vec::new();
    members.push(("jsonrpc".to_owned(), Json::Text("2.0".to_owned())));
    members.push(("id".to_owned(), Json::Unsigned(0)));
    members.push(("method".to_owned(), Json::Text("ping".to_owned())));
    assert(json::pairs(members@) =~= ping()->Object_0);
    let request = json::object(members);
    request
}

// ---------------------------------------------------------------------------
// Laws
// ---------------------------------------------------------------------------

/// The child process sees its credential under `MCP_CREDENTIAL`, whatever the
/// operator set there, and every other variable of the operator as it is.
pub proof fn children_see_their_credential(
    s: Spawning,
    name: Seq<char>,
    value: Seq<char>,
    other: Seq<char>,
)
    requires
        s.injection == Some(Injection::Env { credential_name: name }),
        other != ENV_CREDENTIAL_VARIABLE@,
    ensures
        environment(s, Ok(value)) matches Ok(env) && names::find(env, ENV_CREDENTIAL_VARIABLE@)
            == Some(value) && names::find(env, other) == names::find(s.env, other),
{
    names::store_then_find(s.env, ENV_CREDENTIAL_VARIABLE@, value, other);
    names::store_then_find(s.env, ENV_CREDENTIAL_VARIABLE@, value, ENV_CREDENTIAL_VARIABLE@);
}

/// A process that needs no credential sees the operator's variables as they
/// are, however a resolution ended. One that needs a credential that could not
/// be resolved is not started, and a header cannot be given to a process.
pub proof fn processes_start_with_what_they_need(
    s: Spawning,
    resolution: Result<Seq<char>, Seq<char>>,
    name: Seq<char>,
    reason: Seq<char>,
)
    ensures
        s.injection is None ==> credential_of(s) == Ok::<Option<Seq<char>>, BridgeFault>(None)
            && environment(s, resolution) == Ok::<_, BridgeFault>(s.env),
        s.injection == Some(Injection::Env { credential_name: name }) ==> credential_of(s) == Ok::<
            _,
            BridgeFault,
        >(Some(name)) && environment(s, Err(reason)) == Err::<Seq<(Seq<char>, Seq<char>)>, _>(
            BridgeFault::CredentialResolution(name, reason),
        ),
        (s.injection matches Some(Injection::Header { .. })) ==> {
            &&& credential_of(s) matches Err(BridgeFault::InvalidInjection(_))
            &&& environment(s, resolution) matches Err(BridgeFault::InvalidInjection(_))
        },
        ENV_CREDENTIAL_VARIABLE@ == "MCP_CREDENTIAL"@,
        forall|secret: Secret| #[trigger] resolution_view(Ok(secret)) == Ok::<_, Seq<char>>(secret@),
        forall|why: String| #[trigger] resolution_view(Err(why)) == Err::<Seq<char>, _>(why@),
{
}

/// Every failed probe counts one more, until the count is full.
pub proof fn failed_probes_add_up(failures: u32)
    ensures
        failures < 4_294_967_295 ==> one_more(failures) == failures + 1,
        failures == 4_294_967_295 ==> one_more(failures) == 0,
{
}

/// A probe is a request for `ping`, with an id that an answer can carry.
pub proof fn probes_are_requests()
    ensures
        json::member(ping(), "jsonrpc"@) == Some(JsonValue::Text("2.0"@)),
        json::member(ping(), "method"@) == Some(JsonValue::Text("ping"@)),
        json::member(ping(), "id"@) matches Some(JsonValue::Unsigned(_)),
{
    reveal_strlit("jsonrpc");
    reveal_strlit("id");
    reveal_strlit("method");
    reveal_with_fuel(names::position, 4);
    assert("jsonrpc"@.len() == 7 && "id"@.len() == 2 && "method"@.len() == 6);
}

/// A bridge error is read off its parts, and its message holds them.
pub proof fn bridge_errors_hold_their_reason(e: BridgeError, what: Seq<char>, other: Seq<char>)
    ensures
        text::mentions(bridge_message(BridgeFault::Spawn(what)), what),
        text::mentions(bridge_message(BridgeFault::Write(what)), what),
        text::mentions(bridge_message(BridgeFault::Read(what)), what),
        text::mentions(bridge_message(BridgeFault::Serialise(what)), what),
        text::mentions(bridge_message(BridgeFault::InvalidResponse(what)), what),
        text::mentions(bridge_message(BridgeFault::InvalidInjection(what)), what),
        text::mentions(bridge_message(BridgeFault::CredentialResolution(what, other)), what),
        text::mentions(bridge_message(BridgeFault::CredentialResolution(what, other)), other),
        forall|h: HandshakeError|
            text::mentions(
                #[trigger] bridge_message(BridgeFault::Handshake(h)),
                handshake::handshake_message(h),
            ),
        e matches BridgeError::Spawn(r) ==> e@ == BridgeFault::Spawn(r@),
        e matches BridgeError::Write(r) ==> e@ == BridgeFault::Write(r@),
        e matches BridgeError::Read(r) ==> e@ == BridgeFault::Read(r@),
        e is RequestTimeout <==> e@ is RequestTimeout,
        e is HandshakeTimeout <==> e@ is HandshakeTimeout,
        e is ProcessExited <==> e@ is ProcessExited,
        e is StdioPipe <==> e@ is StdioPipe,
{
    let none = Seq::<char>::empty();
    text::lemma_mentions("failed to spawn process: "@, what, none);
    text::lemma_mentions("failed to write to process stdin: "@, what, none);
    text::lemma_mentions("failed to read from process stdout: "@, what, none);
    text::lemma_mentions("failed to serialise message: "@, what, none);
    text::lemma_mentions("invalid JSON response from process: "@, what, none);
    text::lemma_mentions("invalid injection for stdio bridge: "@, what, none);
    let (lead, then) = ("credential '"@, "' could not be resolved: "@);
    assert(lead + what + then + other =~= lead + what + (then + other));
    text::lemma_mentions(lead, what, then + other);
    text::lemma_mentions(lead + what + then, other, none);
    assert forall|h: HandshakeError|
        text::mentions(
            #[trigger] bridge_message(BridgeFault::Handshake(h)),
            handshake::handshake_message(h),
        ) by {
        text::lemma_mentions("MCP handshake failed: "@, handshake::handshake_message(h), none);
    }
}

/// A bridge serves exactly while its connection is not dead and its process is
/// known to run.
pub proof fn bridges_serve_while_their_process_runs(dead: bool, child: ChildState, alive: bool)
    requires
        call_ensures(Bridge::is_alive, (dead, child), alive),
    ensures
        alive <==> !dead && child is Running,
{
}

/// An answer clears the count of failed probes, whatever it says; a request
/// that was not answered leaves the count alone, and a probe that was not
/// answered adds one. What the server agreed to stays as it is.
pub proof fn answers_clear_the_failed_probes(
    bridge: &mut Bridge,
    probed: &mut Bridge,
    result: &Result<Json, BridgeError>,
    alive: bool,
)
    requires
        call_ensures(Bridge::send, (bridge, result), ()),
        call_ensures(Bridge::health_check, (probed, result), alive),
    ensures
        *result is Ok ==> final(bridge)@.consecutive_ping_failures == 0,
        *result is Err ==> final(bridge)@.consecutive_ping_failures == old(
            bridge,
        )@.consecutive_ping_failures,
        final(bridge)@.handshake == old(bridge)@.handshake,
        alive <==> *result is Ok,
        alive ==> final(probed)@.consecutive_ping_failures == 0,
        !alive && old(probed)@.consecutive_ping_failures < u32::MAX ==> final(probed)@.consecutive_ping_failures == old(probed)@.consecutive_ping_failures + 1,
        final(probed)@.handshake == old(probed)@.handshake,
{
}

/// A bridge is there only after a handshake that succeeded, with no failed
/// probe.
pub proof fn bridges_begin_with_a_handshake(
    reply: Result<Json, BridgeError>,
    r: Result<Bridge, BridgeError>,
)
    requires
        call_ensures(Bridge::spawn, (reply,), r),
    ensures
        reply is Err ==> r is Err,
        reply matches Ok(response) ==> (r is Ok <==> handshake::terms_of(response@) is Ok),
        r matches Ok(bridge) ==> bridge@.consecutive_ping_failures == 0 && handshake::terms_of(
            reply->Ok_0@,
        ) == Ok::<_, HandshakeError>(bridge@.handshake),
{
    if let Ok(response) = reply {
        handshake::handshakes_fail_for_want_of_a_version_only(response@);
    } else {
        handshake::unanswered_handshakes_fail(reply->Err_0@);
    }
}

} // verus!

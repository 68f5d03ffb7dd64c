//! Errors of the command line program and their exit codes.

use vstd::prelude::*;

use crate::load;
use crate::load::{ConfigError, LoadFault};
use crate::text;

verus! {

/// An error that ends the program.
#[derive(Debug)]
pub enum ConsoleError {
    /// The configuration could not be loaded.
    Config(ConfigError),
    /// The state of the gateway could not be built.
    AppState(String),
    /// The TLS certificate could not be used.
    Tls(String),
    /// The address could not be bound.
    Bind(String),
    /// The gateway stopped.
    Serve(String),
    /// Any other failure of input or output.
    Io(String),
    /// An environment variable holds a value that cannot be used.
    Environment { variable: String, reason: String },
}

/// A console error as a mathematical value.
pub enum ConsoleFault {
    Config(LoadFault),
    AppState(Seq<char>),
    Tls(Seq<char>),
    Bind(Seq<char>),
    Serve(Seq<char>),
    Io(Seq<char>),
    Environment(Seq<char>, Seq<char>),
}

impl View for ConsoleError {
    type V = ConsoleFault;

    open spec fn view(&self) -> ConsoleFault {
        match self {
            ConsoleError::Config(e) => ConsoleFault::Config(e@),
            ConsoleError::AppState(e) => ConsoleFault::AppState(e@),
            ConsoleError::Tls(e) => ConsoleFault::Tls(e@),
            ConsoleError::Bind(e) => ConsoleFault::Bind(e@),
            ConsoleError::Serve(e) => ConsoleFault::Serve(e@),
            ConsoleError::Io(e) => ConsoleFault::Io(e@),
            ConsoleError::Environment { variable, reason } => ConsoleFault::Environment(
                variable@,
                reason@,
            ),
        }
    }
}

/// The exit code of an error: 78 for what the operator has to configure, 71
/// for what the system refused, 70 for what failed inside, 1 otherwise.
pub open spec fn code_of(f: ConsoleFault) -> u8 {
    match f {
        ConsoleFault::Config(_) => 78,
        ConsoleFault::AppState(_) => 78,
        ConsoleFault::Tls(_) => 78,
        ConsoleFault::Environment(_, _) => 78,
        ConsoleFault::Bind(_) => 71,
        ConsoleFault::Serve(_) => 70,
        ConsoleFault::Io(_) => 1,
    }
}

/// The message of an error.
pub open spec fn console_message(f: ConsoleFault) -> Seq<char> {
    match f {
        ConsoleFault::Config(e) => load::load_message(e),
        ConsoleFault::AppState(e) => e,
        ConsoleFault::Tls(e) => e,
        ConsoleFault::Bind(e) => "failed to bind to address: "@ + e,
        ConsoleFault::Serve(e) => "gateway stopped: "@ + e,
        ConsoleFault::Io(e) => e,
        ConsoleFault::Environment(variable, reason) => "invalid value for environment variable "@
            + variable + ": "@ + reason,
    }
}

impl ConsoleError {
    /// The exit code.
    pub fn exit_code(&self) -> (code: u8)
        ensures
            code == code_of(self@),
    {
        match self {
            ConsoleError::Config(_)
            | ConsoleError::AppState(_)
            | ConsoleError::Tls(_)
            | ConsoleError::Environment { .. } => 78,
            ConsoleError::Bind(_) => 71,
            ConsoleError::Serve(_) => 70,
            ConsoleError::Io(_) => 1,
        }
    }

    /// The message shown to operators.
    pub fn message(&self) -> (m: String)
        ensures
            m@ == console_message(self@),
    {
        match self {
            ConsoleError::Config(e) => e.message(),
            ConsoleError::AppState(e) => e.clone(),
            ConsoleError::Tls(e) => e.clone(),
            ConsoleError::Bind(e) => {
                let mut m = String::from_str("failed to bind to address: ");
                m.append(e.as_str());
                m
            },
            ConsoleError::Serve(e) => {
                let mut m = String::from_str("gateway stopped: ");
                m.append(e.as_str());
                m
            },
            ConsoleError::Io(e) => e.clone(),
            ConsoleError::Environment { variable, reason } => {
                let mut m = String::from_str("invalid value for environment variable ");
                m.append(variable.as_str());
                m.append(": ");
                m.append(reason.as_str());
                m
            },
        }
    }
}

/// No error ends the program with success.
pub proof fn errors_are_visible_to_scripts(f: ConsoleFault)
    ensures
        code_of(f) != 0,
{
}

/// The options that hold for every command.
#[derive(Debug, Clone, Copy)]
pub struct Console {
    json: bool,
    quiet: bool,
}

impl Console {
    /// The options as the command line gives them.
    pub fn new(json: bool, quiet: bool) -> (console: Self)
        ensures
            console.json_output() == json,
            console.quiet_output() == quiet,
    {
        Console { json, quiet }
    }

    /// Whether results are written as JSON.
    pub closed spec fn json_output(self) -> bool {
        self.json
    }

    /// Whether output other than errors is suppressed.
    pub closed spec fn quiet_output(self) -> bool {
        self.quiet
    }

    /// Whether results are written as JSON.
    pub fn uses_json_output(&self) -> (b: bool)
        ensures
            b == self.json_output(),
    {
        self.json
    }

    /// Whether output other than errors is suppressed.
    pub fn is_quiet(&self) -> (b: bool)
        ensures
            b == self.quiet_output(),
    {
        self.quiet
    }
}

// ---------------------------------------------------------------------------
// Laws
// ---------------------------------------------------------------------------

/// The exit code tells whose turn it is: what the operator has to mend in the
/// configuration, the certificate or the environment ends with 78, an address
/// that the system refused with 71, a gateway that stopped with 70.
pub proof fn exit_codes_tell_what_failed(f: ConsoleFault)
    ensures
        code_of(f) == 78 <==> f is Config || f is AppState || f is Tls || f is Environment,
        code_of(f) == 71 <==> f is Bind,
        code_of(f) == 70 <==> f is Serve,
        code_of(f) == 1 <==> f is Io,
{
}

/// An error is read off its parts, and its message holds them.
pub proof fn console_errors_hold_their_reason(e: ConsoleError, a: Seq<char>, b: Seq<char>)
    ensures
        text::mentions(console_message(ConsoleFault::AppState(a)), a),
        text::mentions(console_message(ConsoleFault::Tls(a)), a),
        text::mentions(console_message(ConsoleFault::Bind(a)), a),
        text::mentions(console_message(ConsoleFault::Serve(a)), a),
        text::mentions(console_message(ConsoleFault::Io(a)), a),
        text::mentions(console_message(ConsoleFault::Environment(a, b)), a),
        text::mentions(console_message(ConsoleFault::Environment(a, b)), b),
        forall|f: LoadFault| #[trigger]
            console_message(ConsoleFault::Config(f)) == load::load_message(f),
        e matches ConsoleError::AppState(r) ==> e@ == ConsoleFault::AppState(r@),
        e matches ConsoleError::Tls(r) ==> e@ == ConsoleFault::Tls(r@),
        e matches ConsoleError::Bind(r) ==> e@ == ConsoleFault::Bind(r@),
        e matches ConsoleError::Serve(r) ==> e@ == ConsoleFault::Serve(r@),
        e matches ConsoleError::Io(r) ==> e@ == ConsoleFault::Io(r@),
{
    let none = Seq::<char>::empty();
    text::lemma_mentions(none, a, none);
    text::lemma_mentions("failed to bind to address: "@, a, none);
    text::lemma_mentions("gateway stopped: "@, a, none);
    let lead = "invalid value for environment variable "@;
    assert(lead + a + ": "@ + b =~= lead + a + (": "@ + b));
    text::lemma_mentions(lead, a, ": "@ + b);
    text::lemma_mentions(lead + a + ": "@, b, none);
}

} // verus!

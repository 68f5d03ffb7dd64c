//! The course of the `serve` command.

use vstd::prelude::*;

use crate::authentication::{Authentication, AuthenticationConfig};
use crate::chain::{Chain, CredentialError, CredentialProvider, DEFAULT_COMMAND_TIMEOUT};
use crate::chain;
use crate::console::{ConsoleError, ConsoleFault};
use crate::load::ConfigError;
use crate::names::NameMap;
use crate::references;
use crate::reload;
use crate::reload::{Preparation, Prepared};
use crate::resolver::{Resolver, Sources};
use crate::secret::Secret;
use crate::server::{Gateway, GatewayConfig, Server, ServerDefinition};
use crate::text;

verus! {

/// The environment variable that bounds the time of credential commands.
pub const CREDENTIAL_TIMEOUT_ENVIRONMENT_VARIABLE: &'static str = "MCP_CREDENTIAL_TIMEOUT";

/// The prefix of the environment variables that hold credentials.
pub const CREDENTIAL_PREFIX: &'static str = "MCP_CREDENTIAL_";

/// The bound on the time of a TLS handshake, in nanoseconds.
pub const TLS_HANDSHAKE_TIMEOUT: u128 = 10_000_000_000;

/// How often the health of the bridges is checked, in nanoseconds.
pub const HEALTH_CHECK_INTERVAL: u128 = 5_000_000_000;

// ---------------------------------------------------------------------------
// Durations
// ---------------------------------------------------------------------------

/// Where a character of a duration stands.
#[derive(Debug, Clone, Copy, PartialEq, Eq, Structural)]
pub enum Place {
    /// In a number, before its decimal separator.
    Whole,
    /// In a number, behind its decimal separator.
    Part,
    /// In a unit.
    Unit,
}

/// The nanoseconds of a second.
pub const SECOND: u64 = 1_000_000_000;

/// The nanoseconds of a minute.
pub const MINUTE: u64 = 60_000_000_000;

/// The nanoseconds of a year, the longest unit.
pub const YEAR: u64 = 31_557_600_000_000_000;

/// The nanoseconds of the first duration whose seconds do not fit in 64 bits.
pub const LIMIT: u128 = 18_446_744_073_709_551_616_000_000_000;

/// The nanoseconds of the unit that begins at a position.
pub open spec fn unit_nanos(s: Seq<char>, at: int) -> nat {
    let c = s[at];
    if c == 's' {
        1_000_000_000
    } else if c == 'm' {
        if text::matches_at(s, "mo"@, at) {
            2_630_016_000_000_000
        } else if text::matches_at(s, "ms"@, at) || text::matches_at(s, "mil"@, at) {
            1_000_000
        } else {
            60_000_000_000
        }
    } else if c == 'h' {
        3_600_000_000_000
    } else if c == 'd' {
        86_400_000_000_000
    } else if c == 'w' {
        604_800_000_000_000
    } else if c == 'M' {
        2_630_016_000_000_000
    } else if c == 'y' {
        31_557_600_000_000_000
    } else if c == 'n' {
        1
    } else {
        1_000
    }
}

/// Whether a character may stand in a unit.
pub open spec fn unit_char(c: char) -> bool {
    'a' <= c <= 'z' || 'A' <= c <= 'Z' || c == '\u{b5}'
}

/// Whether adding up a duration completes the last second that fits in 64
/// bits.
pub open spec fn completes(before: nat, after: nat) -> bool {
    before + SECOND >= LIMIT && after == LIMIT
}

/// Whether nothing below a second completes the last second that fits in 64
/// bits, in a duration that is read from a position on. `number` is the number
/// that is being read, `part / scale` its fraction, and `total` the
/// nanoseconds so far. A duration that has gone over the limit is not read
/// further.
pub open spec fn clear(
    s: Seq<char>,
    at: int,
    place: Place,
    number: nat,
    part: nat,
    scale: nat,
    total: nat,
) -> bool
    decreases s.len() - at,
{
    if at < 0 || at >= s.len() {
        true
    } else if '0' <= s[at] <= '9' {
        let digit = (s[at] as nat - '0' as nat) as nat;
        match place {
            Place::Whole => number * 10 + digit > u64::MAX || clear(
                s,
                at + 1,
                place,
                number * 10 + digit,
                part,
                scale,
                total,
            ),
            Place::Part => scale * 10 > u64::MAX || clear(
                s,
                at + 1,
                place,
                number,
                part * 10 + digit,
                scale * 10,
                total,
            ),
            Place::Unit => clear(s, at + 1, Place::Whole, digit, 0, 1, total),
        }
    } else if text::white_space(s[at]) {
        match place {
            Place::Unit => clear(s, at + 1, Place::Whole, 0, 0, 1, total),
            _ => clear(s, at + 1, place, number, part, scale, total),
        }
    } else if unit_char(s[at]) {
        let nanos = unit_nanos(s, at);
        let whole = total + number * nanos;
        let sum = whole + part * nanos / scale;
        if place == Place::Unit {
            clear(s, at + 1, place, number, part, scale, total)
        } else if whole >= LIMIT {
            nanos >= SECOND || !completes(total, whole)
        } else if sum >= LIMIT {
            nanos > MINUTE || !completes(whole, sum)
        } else {
            clear(s, at + 1, Place::Unit, 0, 0, 1, sum)
        }
    } else if s[at] == '.' && place == Place::Whole {
        clear(s, at + 1, Place::Part, number, 0, 1, total)
    } else {
        true
    }
}

/// Whether a text names no duration of exactly 2^64 seconds that is reached
/// by completing the last second from below.
pub open spec fn moderate(s: Seq<char>) -> bool {
    clear(s, 0, Place::Whole, 0, 0, 1, 0)
}

fn nanos_of_unit(v: &Vec<char>, at: usize) -> (nanos: u128)
    requires
        at < v.len(),
    ensures
        nanos == unit_nanos(v@, at as int),
        nanos <= 31_557_600_000_000_000,
{
    let c = v[at];
    if c == 's' {
        1_000_000_000
    } else if c == 'm' {
        if text::holds_at(v, "mo", at) {
            2_630_016_000_000_000
        } else if text::holds_at(v, "ms", at) || text::holds_at(v, "mil", at) {
            1_000_000
        } else {
            60_000_000_000
        }
    } else if c == 'h' {
        3_600_000_000_000
    } else if c == 'd' {
        86_400_000_000_000
    } else if c == 'w' {
        604_800_000_000_000
    } else if c == 'M' {
        2_630_016_000_000_000
    } else if c == 'y' {
        31_557_600_000_000_000
    } else if c == 'n' {
        1
    } else {
        1_000
    }
}

/// Whether a text names no duration of exactly 2^64 seconds that is reached
/// by completing the last second from below.
pub fn is_moderate(input: &str) -> (b: bool)
    ensures
        b == moderate(input@),
{
    let v = text::chars_of(input);
    let mut place = Place::Whole;
    let mut number: u128 = 0;
    let mut part: u128 = 0;
    let mut scale: u128 = 1;
    let mut total: u128 = 0;
    let mut at: usize = 0;
    while at < v.len()
        invariant
            at <= v@.len(),
            v@ == input@,
            number <= u64::MAX,
            part < scale <= u64::MAX,
            total < LIMIT,
            moderate(input@) == clear(
                input@,
                at as int,
                place,
                number as nat,
                part as nat,
                scale as nat,
                total as nat,
            ),
        decreases v.len() - at,
    {
        let c = v[at];
        if '0' <= c && c <= '9' {
            let digit: u128 = c as u128 - '0' as u128;
            if place == Place::Whole {
                number = number * 10 + digit;
                if number > u64::MAX as u128 {
                    return true;
                }
            } else if place == Place::Part {
                if scale * 10 > u64::MAX as u128 {
                    return true;
                }
                part = part * 10 + digit;
                scale = scale * 10;
            } else {
                place = Place::Whole;
                number = digit;
                part = 0;
                scale = 1;
            }
        } else if text::is_white_space(c) {
            if place == Place::Unit {
                place = Place::Whole;
                number = 0;
                part = 0;
                scale = 1;
            }
        } else if ('a' <= c && c <= 'z') || ('A' <= c && c <= 'Z') || c == '\u{b5}' {
            if place != Place::Unit {
                let nanos: u128 = nanos_of_unit(&v, at);
                assert(number * nanos <= u64::MAX * 31_557_600_000_000_000 && part * nanos
                    <= u64::MAX * 31_557_600_000_000_000) by (nonlinear_arith)
                    requires
                        number <= u64::MAX,
                        part <= u64::MAX,
                        nanos <= 31_557_600_000_000_000,
                ;
                let whole: u128 = total + number * nanos;
                if whole >= LIMIT {
                    return nanos >= SECOND as u128 || total + (SECOND as u128) < LIMIT || whole
                        != LIMIT;
                }
                assert(part * nanos / (scale as int) <= part * nanos) by (nonlinear_arith)
                    requires
                        scale >= 1,
                        part * nanos >= 0,
                ;
                let sum: u128 = whole + part * nanos / scale;
                if sum >= LIMIT {
                    return nanos > MINUTE as u128 || whole + (SECOND as u128) < LIMIT || sum
                        != LIMIT;
                }
                place = Place::Unit;
                number = 0;
                part = 0;
                scale = 1;
                total = sum;
            }
        } else if c == '.' && place == Place::Whole {
            place = Place::Part;
            part = 0;
            scale = 1;
        } else {
            return true;
        }
        at = at + 1;
    }
    true
}

/// The nanoseconds of a duration, or the text of the error, as
/// `humantime::parse_duration` reads it.
pub uninterp spec fn duration_of(input: Seq<char>) -> Result<u128, Seq<char>>;

/// `humantime::parse_duration`. The claim is that the outcome depends on the
/// text alone; an error comes back as its text. It builds the sum with
/// `Duration::new`, which panics where the last second that fits in 64 bits is
/// completed by exactly one second's worth of nanoseconds: those texts are
/// left out.
#[verifier::external_body]
fn parse_duration(input: &str) -> (r: Result<u128, String>)
    requires
        moderate(input@),
    ensures
        match r {
            Ok(nanos) => duration_of(input@) == Ok::<u128, Seq<char>>(nanos),
            Err(e) => duration_of(input@) == Err::<u128, Seq<char>>(e@),
        },
{
    humantime::parse_duration(input).map(|d| d.as_nanos()).map_err(|error| error.to_string())
}

/// Read a duration of the command line, in nanoseconds.
pub fn parse_humantime_duration(input: &str) -> (r: Result<u128, String>)
    requires
        moderate(input@),
    ensures
        match r {
            Ok(nanos) => duration_of(input@) == Ok::<u128, Seq<char>>(nanos),
            Err(e) => duration_of(input@) == Err::<u128, Seq<char>>(e@),
        },
{
    parse_duration(input)
}

/// The bound on the time of credential commands: from the command line, or
/// else from the environment as it was read, or else the default.
pub open spec fn timeout_of(
    command_line: Option<u128>,
    environment: Option<Result<u128, Seq<char>>>,
) -> Result<u128, ConsoleFault> {
    match command_line {
        Some(timeout) => Ok(timeout),
        None => match environment {
            Some(Ok(timeout)) => Ok(timeout),
            Some(Err(reason)) => Err(
                ConsoleFault::Environment(CREDENTIAL_TIMEOUT_ENVIRONMENT_VARIABLE@, reason),
            ),
            None => Ok(DEFAULT_COMMAND_TIMEOUT),
        },
    }
}

/// The outcome of reading a duration, by its views.
pub open spec fn reading_view(reading: Option<Result<u128, String>>) -> Option<
    Result<u128, Seq<char>>,
> {
    match reading {
        Some(Ok(nanos)) => Some(Ok(nanos)),
        Some(Err(e)) => Some(Err(e@)),
        None => None,
    }
}

/// The value of an environment variable, read as a duration.
pub open spec fn read_duration(value: Option<Seq<char>>) -> Option<Result<u128, Seq<char>>> {
    match value {
        Some(raw) => Some(duration_of(raw)),
        None => None,
    }
}

/// Choose the bound on the time of credential commands, once the value of the
/// environment has been read.
pub fn choose_command_timeout(
    command_line_value: Option<u128>,
    reading: Option<Result<u128, String>>,
) -> (r: Result<u128, ConsoleError>)
    ensures
        match timeout_of(command_line_value, reading_view(reading)) {
            Ok(timeout) => r matches Ok(t) && t == timeout,
            Err(f) => r matches Err(e) && e@ == f,
        },
{
    if let Some(timeout) = command_line_value {
        return Ok(timeout);
    }
    match reading {
        Some(Ok(timeout)) => Ok(timeout),
        Some(Err(reason)) => Err(
            ConsoleError::Environment {
                variable: CREDENTIAL_TIMEOUT_ENVIRONMENT_VARIABLE.to_owned(),
                reason,
            },
        ),
        None => Ok(DEFAULT_COMMAND_TIMEOUT),
    }
}

/// Whether the value of the environment can be read where it has to be.
pub open spec fn readable(command_line: Option<u128>, environment: Option<Seq<char>>) -> bool {
    command_line is None && environment is Some ==> moderate(environment->0)
}

/// The bound on the time of credential commands.
pub fn resolve_command_timeout(
    command_line_value: Option<u128>,
    environment_value: Option<&str>,
) -> (r: Result<u128, ConsoleError>)
    requires
        readable(
            command_line_value,
            match environment_value {
                Some(raw) => Some(raw@),
                None => None,
            },
        ),
    ensures
        match timeout_of(
            command_line_value,
            match environment_value {
                Some(raw) => Some(duration_of(raw@)),
                None => None,
            },
        ) {
            Ok(timeout) => r matches Ok(t) && t == timeout,
            Err(f) => r matches Err(e) && e@ == f,
        },
{
    if command_line_value.is_some() {
        return choose_command_timeout(command_line_value, None);
    }
    match environment_value {
        Some(raw) => choose_command_timeout(None, Some(parse_duration(raw))),
        None => choose_command_timeout(None, None),
    }
}

/// The provider chain of the options: no commands, files in the credentials
/// directory, and environment variables.
pub open spec fn chain_of(
    credentials_dir: Option<std::path::PathBuf>,
    command_timeout: u128,
) -> Chain {
    Chain {
        commands: Seq::empty(),
        credentials_dir,
        env_prefix: Some(CREDENTIAL_PREFIX@),
        command_timeout,
    }
}

/// Build the provider chain of the options.
pub fn build_credential_provider(
    credentials_dir: Option<std::path::PathBuf>,
    credential_timeout: Option<u128>,
    environment_timeout: Option<&str>,
) -> (r: Result<CredentialProvider, ConsoleError>)
    requires
        readable(
            credential_timeout,
            match environment_timeout {
                Some(raw) => Some(raw@),
                None => None,
            },
        ),
    ensures
        match timeout_of(
            credential_timeout,
            match environment_timeout {
                Some(raw) => Some(duration_of(raw@)),
                None => None,
            },
        ) {
            Ok(timeout) => r matches Ok(p) && p@ == chain_of(credentials_dir, timeout),
            Err(f) => r matches Err(e) && e@ == f,
        },
{
    let command_timeout = match resolve_command_timeout(credential_timeout, environment_timeout) {
        Ok(timeout) => timeout,
        Err(e) => {
            return Err(e);
        },
    };
    let builder = CredentialProvider::builder().with_env_prefix(
        CREDENTIAL_PREFIX,
    ).with_command_timeout(command_timeout);
    let builder = match credentials_dir {
        Some(directory) => builder.with_credentials_dir(directory),
        None => builder,
    };
    Ok(builder.build())
}

// ---------------------------------------------------------------------------
// Background work and messages
// ---------------------------------------------------------------------------

/// How often what is known of the authorisation server is refreshed, in
/// nanoseconds.
#[derive(Debug, Clone, Copy, PartialEq, Eq, Structural)]
pub struct AuthRefresh {
    /// How often the key set is refreshed.
    pub jwks_interval: u128,
    /// How often the discovery document is refreshed.
    pub discovery_interval: u128,
}

/// How often what is known of the authorisation server is refreshed.
pub open spec fn refresh_of(a: Authentication) -> AuthRefresh {
    AuthRefresh {
        jwks_interval: (a.jwks_cache_seconds * 1_000_000_000) as u128,
        discovery_interval: (a.discovery_cache_seconds * 1_000_000_000) as u128,
    }
}

/// How often what is known of the authorisation server is refreshed.
pub fn build_auth_refresh(authentication: &AuthenticationConfig) -> (refresh: AuthRefresh)
    ensures
        refresh == refresh_of(authentication@),
{
    AuthRefresh {
        jwks_interval: authentication.jwks_cache_seconds as u128 * 1_000_000_000,
        discovery_interval: authentication.discovery_cache_seconds as u128 * 1_000_000_000,
    }
}

/// The number of servers that are enabled.
pub open spec fn enabled(servers: Seq<(Seq<char>, Server)>) -> nat
    decreases servers.len(),
{
    if servers.len() == 0 {
        0
    } else {
        enabled(servers.drop_last()) + (if servers.last().1.enabled {
            1nat
        } else {
            0nat
        })
    }
}

/// The number of servers that are enabled.
pub fn enabled_servers(servers: &NameMap<ServerDefinition>) -> (n: u64)
    ensures
        n == enabled(crate::names::deep(servers@)),
{
    let ghost all = crate::names::deep(servers@);
    let mut n: u64 = 0;
    let mut i: usize = 0;
    assert(all.take(0) =~= Seq::empty());
    while i < servers.len()
        invariant
            i <= servers@.len(),
            all == crate::names::deep(servers@),
            n == enabled(all.take(i as int)),
            n <= i,
        decreases servers@.len() - i,
    {
        proof {
            let prefix = all.take(i + 1);
            assert(prefix.drop_last() =~= all.take(i as int));
            assert(prefix.last() == all[i as int]);
        }
        if servers.value_at(i).enabled {
            n = n + 1;
        }
        i = i + 1;
    }
    assert(all.take(all.len() as int) =~= all);
    n
}

/// What is announced when the gateway starts.
pub open spec fn startup_text(g: Gateway, bind: Seq<char>) -> Seq<char> {
    "starting gateway with "@ + text::decimal(enabled(g.servers)) + " server(s) on "@ + bind
}

/// What is announced when the gateway starts.
pub fn report_startup(config: &GatewayConfig, bind: &str) -> (m: String)
    ensures
        m@ == startup_text(config@, bind@),
{
    let mut m = String::from_str("starting gateway with ");
    let count = text::decimal_text(enabled_servers(&config.servers));
    m.append(count.as_str());
    m.append(" server(s) on ");
    m.append(bind);
    m
}

/// What is announced when the gateway listens. `tls` is where the
/// certificate comes from, if there is one.
pub open spec fn listening_text(bind: Seq<char>, tls: Option<Seq<char>>) -> Seq<char> {
    match tls {
        Some(source) => "gateway listening on https://"@ + bind + " (TLS: "@ + source + ")"@,
        None => "gateway listening on http://"@ + bind,
    }
}

/// What is announced when the gateway listens.
pub fn report_listening(bind: &str, tls: &Option<String>) -> (m: String)
    ensures
        m@ == listening_text(bind@, text::opt(*tls)),
{
    match tls {
        Some(source) => {
            let mut m = String::from_str("gateway listening on https://");
            m.append(bind);
            m.append(" (TLS: ");
            m.append(source.as_str());
            m.append(")");
            m
        },
        None => {
            let mut m = String::from_str("gateway listening on http://");
            m.append(bind);
            m
        },
    }
}

/// What is logged of the reload trigger.
pub fn log_reload_trigger_status(enabled: bool) -> (m: &'static str)
    ensures
        m@ == (if enabled {
            "SIGHUP reload trigger active"@
        } else {
            "SIGHUP reload trigger disabled (--no-reload); SIGHUP will be ignored"@
        }),
{
    if enabled {
        "SIGHUP reload trigger active"
    } else {
        "SIGHUP reload trigger disabled (--no-reload); SIGHUP will be ignored"
    }
}

/// What a hangup signal leads to.
#[derive(Debug, Clone, Copy, PartialEq, Eq, Structural)]
pub enum HangupAction {
    /// Nothing: the gateway goes on.
    Ignore,
    /// A reload cycle.
    Reload,
}

/// What a hangup signal leads to. It never ends the gateway.
pub fn handle_hangup_signal(no_reload: bool) -> (action: HangupAction)
    ensures
        action == (if no_reload {
            HangupAction::Ignore
        } else {
            HangupAction::Reload
        }),
{
    if no_reload {
        HangupAction::Ignore
    } else {
        HangupAction::Reload
    }
}

// ---------------------------------------------------------------------------
// Serving over TLS
// ---------------------------------------------------------------------------

/// What a TLS listener waits for.
#[derive(Debug)]
pub enum ListenerEvent {
    /// The gateway is to shut down.
    Shutdown,
    /// A connection came, or accepting one failed.
    Incoming(Result<(), String>),
}

/// What a TLS listener does next.
#[derive(Debug)]
pub enum ListenerAction {
    /// Handle the connection and wait on.
    Handle,
    /// Stop.
    Stop(Result<(), ConsoleError>),
}

/// Whether a listener stops, and with what.
pub open spec fn stops(event: ListenerEvent) -> Option<Result<(), ConsoleFault>> {
    match event {
        ListenerEvent::Shutdown => Some(Ok(())),
        ListenerEvent::Incoming(Ok(())) => None,
        ListenerEvent::Incoming(Err(reason)) => Some(Err(ConsoleFault::Serve(reason@))),
    }
}

/// What a TLS listener does next.
pub fn serve_tls(event: ListenerEvent) -> (action: ListenerAction)
    ensures
        match stops(event) {
            None => action is Handle,
            Some(Ok(())) => action matches ListenerAction::Stop(Ok(())),
            Some(Err(f)) => action matches ListenerAction::Stop(Err(e)) && e@ == f,
        },
{
    match event {
        ListenerEvent::Shutdown => ListenerAction::Stop(Ok(())),
        ListenerEvent::Incoming(Ok(())) => ListenerAction::Handle,
        ListenerEvent::Incoming(Err(reason)) => ListenerAction::Stop(
            Err(ConsoleError::Serve(reason)),
        ),
    }
}

// ---------------------------------------------------------------------------
// The course of the command
// ---------------------------------------------------------------------------

/// The options that decide the course of the command.
pub struct ServeArguments {
    /// The address and port to listen on.
    pub bind: String,
    /// The directory that holds credential files.
    pub credentials_dir: Option<std::path::PathBuf>,
    /// The bound on the time of credential commands, in nanoseconds.
    pub credential_timeout: Option<u128>,
    /// Whether hangup signals are ignored.
    pub no_reload: bool,
    /// Whether core dumps stay enabled.
    pub allow_core_dumps: bool,
}

/// The options as a mathematical value.
pub struct Options {
    pub bind: Seq<char>,
    pub credentials_dir: Option<std::path::PathBuf>,
    pub credential_timeout: Option<u128>,
    pub no_reload: bool,
    pub allow_core_dumps: bool,
}

impl View for ServeArguments {
    type V = Options;

    open spec fn view(&self) -> Options {
        Options {
            bind: self.bind@,
            credentials_dir: self.credentials_dir,
            credential_timeout: self.credential_timeout,
            no_reload: self.no_reload,
            allow_core_dumps: self.allow_core_dumps,
        }
    }
}

/// How far the command has come.
pub enum Stage {
    /// Core dumps are being disabled.
    Hardening,
    /// The configuration is being loaded.
    Loading,
    /// The start is being announced.
    Announcing(GatewayConfig),
    /// The runtime is being started.
    Starting(GatewayConfig),
    /// The environment is being read.
    Reading(GatewayConfig),
    /// The credential provider is being set up.
    Providing(GatewayConfig),
    /// Credentials are being resolved.
    Resolving(Preparation),
    /// The state of the gateway is being built.
    Building(Option<AuthRefresh>),
    /// The validator of inbound tokens is being built.
    Authenticating(AuthRefresh),
    /// The TLS certificate is being resolved.
    Securing(Option<AuthRefresh>),
    /// The address is being bound.
    Binding(Option<String>),
    /// The address is being announced.
    Listening(bool),
    /// Requests are served.
    Serving,
    /// The end is being announced.
    Closing,
    /// The command has ended.
    Ended,
}

/// How far the command has come, as a mathematical value.
pub enum Point {
    Hardening,
    Loading,
    Announcing(Gateway),
    Starting(Gateway),
    Reading(Gateway),
    Providing(Gateway),
    Resolving(Prepared),
    Building(Option<AuthRefresh>),
    Authenticating(AuthRefresh),
    Securing(Option<AuthRefresh>),
    Binding(Option<Seq<char>>),
    Listening(bool),
    Serving,
    Closing,
    Ended,
}

impl View for Stage {
    type V = Point;

    open spec fn view(&self) -> Point {
        match self {
            Stage::Hardening => Point::Hardening,
            Stage::Loading => Point::Loading,
            Stage::Announcing(c) => Point::Announcing(c@),
            Stage::Starting(c) => Point::Starting(c@),
            Stage::Reading(c) => Point::Reading(c@),
            Stage::Providing(c) => Point::Providing(c@),
            Stage::Resolving(p) => Point::Resolving(p@),
            Stage::Building(r) => Point::Building(*r),
            Stage::Authenticating(r) => Point::Authenticating(*r),
            Stage::Securing(r) => Point::Securing(*r),
            Stage::Binding(tls) => Point::Binding(text::opt(*tls)),
            Stage::Listening(tls) => Point::Listening(*tls),
            Stage::Serving => Point::Serving,
            Stage::Closing => Point::Closing,
            Stage::Ended => Point::Ended,
        }
    }
}

/// What happened in the course of the command.
pub enum Event {
    /// The configuration was or was not loaded.
    Loaded(Result<GatewayConfig, ConfigError>),
    /// The environment has this bound on the time of credential commands.
    Read(Option<String>),
    /// The current credential was or was not resolved.
    Resolved(Result<Secret, CredentialError>),
    /// There is a TLS certificate from this source, or none, or it cannot be
    /// used.
    Secured(Result<Option<String>, String>),
    /// What had to be done was done, or not.
    Done(Result<(), String>),
}

/// What has to be done next.
pub enum Action {
    /// Disable core dumps.
    Harden,
    /// Load the configuration.
    Load,
    /// Write this for the operator.
    Announce(String),
    /// Start the runtime.
    Start,
    /// Read the environment.
    Read,
    /// Resolve credentials with this provider.
    Provide(CredentialProvider),
    /// Resolve this credential.
    Resolve(String),
    /// Build the state of the gateway.
    Build { config: GatewayConfig, resolver: Resolver },
    /// Build the validator of inbound tokens.
    Authenticate,
    /// Resolve the TLS certificate.
    Secure,
    /// Start the background work, with a reload trigger or without, and bind
    /// the address.
    Bind { refresh: Option<AuthRefresh>, reload: bool },
    /// Serve requests, over TLS or not, until the gateway is to shut down.
    Serve { tls: bool },
    /// Nothing: the command has ended.
    Finish(Result<(), ConsoleError>),
}

/// What has to be done next, as a mathematical value.
pub enum Next {
    Harden,
    Load,
    Announce(Seq<char>),
    Start,
    Read,
    Provide(Chain),
    Resolve(Seq<char>),
    Build(Gateway, Sources),
    Authenticate,
    Secure,
    Bind(Option<AuthRefresh>, bool),
    Serve(bool),
    Finish(Result<(), ConsoleFault>),
}

impl View for Action {
    type V = Next;

    open spec fn view(&self) -> Next {
        match self {
            Action::Harden => Next::Harden,
            Action::Load => Next::Load,
            Action::Announce(m) => Next::Announce(m@),
            Action::Start => Next::Start,
            Action::Read => Next::Read,
            Action::Provide(p) => Next::Provide(p@),
            Action::Resolve(name) => Next::Resolve(name@),
            Action::Build { config, resolver } => Next::Build(config@, resolver@),
            Action::Authenticate => Next::Authenticate,
            Action::Secure => Next::Secure,
            Action::Bind { refresh, reload } => Next::Bind(*refresh, *reload),
            Action::Serve { tls } => Next::Serve(*tls),
            Action::Finish(Ok(())) => Next::Finish(Ok(())),
            Action::Finish(Err(e)) => Next::Finish(Err(e@)),
        }
    }
}

/// Whether an event can happen at a point of the course.
pub open spec fn expected(o: Options, point: Point, event: Event) -> bool {
    match point {
        Point::Loading => event is Loaded,
        Point::Reading(_) => event matches Event::Read(value) && readable(
            o.credential_timeout,
            text::opt(value),
        ),
        Point::Resolving(p) => event is Resolved && !references::complete(p.progress),
        Point::Securing(_) => event is Secured,
        Point::Ended => false,
        _ => event is Done,
    }
}

/// What a failure at a point of the course is reported as. That core dumps
/// cannot be disabled does not end the command.
pub open spec fn failure_at(point: Point, reason: Seq<char>) -> Option<ConsoleFault> {
    match point {
        Point::Announcing(_) => Some(ConsoleFault::Io(reason)),
        Point::Starting(_) => Some(ConsoleFault::Serve(reason)),
        Point::Providing(_) => Some(ConsoleFault::AppState(reason)),
        Point::Building(_) => Some(ConsoleFault::AppState(reason)),
        Point::Authenticating(_) => Some(ConsoleFault::AppState(reason)),
        Point::Binding(_) => Some(ConsoleFault::Bind(reason)),
        Point::Listening(_) => Some(ConsoleFault::Io(reason)),
        Point::Serving => Some(ConsoleFault::Serve(reason)),
        Point::Closing => Some(ConsoleFault::Io(reason)),
        _ => None,
    }
}

/// The end of the course with an error.
pub open spec fn ended(f: ConsoleFault) -> (Point, Next) {
    (Point::Ended, Next::Finish(Err(f)))
}

/// How often what is known of the authorisation server is refreshed, where
/// inbound tokens are validated.
pub open spec fn refresh_for(g: Gateway) -> Option<AuthRefresh> {
    match g.authentication {
        Some(a) => Some(refresh_of(a)),
        None => None,
    }
}

/// The course once a preparation has come as far as `p`.
pub open spec fn prepared_to(p: Prepared) -> (Point, Next) {
    if references::complete(p.progress) {
        (Point::Building(refresh_for(p.config)), Next::Build(p.config, reload::sources(p)))
    } else {
        (Point::Resolving(p), Next::Resolve(references::current(p.progress).0))
    }
}

/// The course once what had to be done at a point was done.
pub open spec fn done_at(o: Options, point: Point, next: (Point, Next)) -> bool {
    match point {
        Point::Hardening => next == (Point::Loading, Next::Load),
        Point::Announcing(g) => next == (Point::Starting(g), Next::Start),
        Point::Starting(g) => next == (Point::Reading(g), Next::Read),
        Point::Providing(g) => exists|p: Prepared|
            reload::begun(p, g) && next == #[trigger] prepared_to(p),
        Point::Building(refresh) => next == (match refresh {
            Some(r) => (Point::Authenticating(r), Next::Authenticate),
            None => (Point::Securing(None), Next::Secure),
        }),
        Point::Authenticating(r) => next == (Point::Securing(Some(r)), Next::Secure),
        Point::Binding(tls) => next == (
            Point::Listening(tls is Some),
            Next::Announce(listening_text(o.bind, tls)),
        ),
        Point::Listening(tls) => next == (Point::Serving, Next::Serve(tls)),
        Point::Serving => next == (Point::Closing, Next::Announce("gateway shut down"@)),
        Point::Closing => next == (Point::Ended, Next::Finish(Ok(()))),
        _ => false,
    }
}

/// Where an event takes the course of the command.
pub open spec fn leads_to(o: Options, point: Point, event: Event, next: (Point, Next)) -> bool {
    match event {
        Event::Loaded(Ok(config)) => next == (
            Point::Announcing(config@),
            Next::Announce(startup_text(config@, o.bind)),
        ),
        Event::Loaded(Err(e)) => next == ended(ConsoleFault::Config(e@)),
        Event::Read(value) => point matches Point::Reading(g) && next == (match timeout_of(
            o.credential_timeout,
            read_duration(text::opt(value)),
        ) {
            Ok(timeout) => (
                Point::Providing(g),
                Next::Provide(chain_of(o.credentials_dir, timeout)),
            ),
            Err(f) => ended(f),
        }),
        Event::Resolved(Ok(secret)) => point matches Point::Resolving(p) && next == prepared_to(
            reload::with_value(p, secret@),
        ),
        Event::Resolved(Err(e)) => point matches Point::Resolving(p) && next == ended(
            reload::resolution_fault(p, chain::fault_message(e@)),
        ),
        Event::Secured(Ok(tls)) => point matches Point::Securing(refresh) && next == (
            Point::Binding(text::opt(tls)),
            Next::Bind(refresh, !o.no_reload),
        ),
        Event::Secured(Err(reason)) => next == ended(ConsoleFault::Tls(reason@)),
        Event::Done(Err(reason)) => match failure_at(point, reason@) {
            Some(f) => next == ended(f),
            None => done_at(o, point, next),
        },
        Event::Done(Ok(())) => done_at(o, point, next),
    }
}

/// Where the course begins.
pub open spec fn beginning(o: Options) -> (Point, Next) {
    if o.allow_core_dumps {
        (Point::Loading, Next::Load)
    } else {
        (Point::Hardening, Next::Harden)
    }
}

/// Begin the command.
pub fn begin(arguments: &ServeArguments) -> (r: (Stage, Action))
    ensures
        (r.0@, r.1@) == beginning(arguments@),
{
    if arguments.allow_core_dumps {
        (Stage::Loading, Action::Load)
    } else {
        (Stage::Hardening, Action::Harden)
    }
}

fn proceed(p: Preparation) -> (r: (Stage, Action))
    ensures
        (r.0@, r.1@) == prepared_to(p@),
{
    match p.next_credential() {
        Some(name) => {
            let action = Action::Resolve(name.to_owned());
            (Stage::Resolving(p), action)
        },
        None => {
            let (config, resolver) = p.finish();
            let refresh = match &config.authentication {
                Some(authentication) => Some(build_auth_refresh(authentication)),
                None => None,
            };
            (Stage::Building(refresh), Action::Build { config, resolver })
        },
    }
}

fn finish(e: ConsoleError) -> (r: (Stage, Action))
    ensures
        (r.0@, r.1@) == ended(e@),
{
    (Stage::Ended, Action::Finish(Err(e)))
}

/// The course once what had to be done was not done.
fn fail(stage: Stage, reason: String) -> (r: Result<(Stage, Action), Stage>)
    requires
        !in_service(stage@),
    ensures
        match failure_at(stage@, reason@) {
            Some(f) => r matches Ok(n) && (n.0@, n.1@) == ended(f),
            None => r matches Err(s) && s@ == stage@,
        },
{
    match stage {
        Stage::Announcing(_) => Ok(finish(ConsoleError::Io(reason))),
        Stage::Starting(_) => Ok(finish(ConsoleError::Serve(reason))),
        Stage::Providing(_) => Ok(finish(ConsoleError::AppState(reason))),
        Stage::Building(_) => Ok(finish(ConsoleError::AppState(reason))),
        Stage::Authenticating(_) => Ok(finish(ConsoleError::AppState(reason))),
        other => Err(other),
    }
}

/// Whether the gateway is being served: from the binding of the address to
/// the announcement of the end.
pub open spec fn in_service(point: Point) -> bool {
    point is Binding || point is Listening || point is Serving || point is Closing
}

/// Take the course through the service of the gateway: the address is bound
/// and announced, requests are served, and the end is announced.
pub fn serve_loop(arguments: &ServeArguments, stage: Stage, outcome: Result<(), String>) -> (r: (
    Stage,
    Action,
))
    requires
        in_service(stage@),
    ensures
        leads_to(arguments@, stage@, Event::Done(outcome), (r.0@, r.1@)),
{
    match (stage, outcome) {
        (Stage::Binding(tls), Ok(())) => {
            let m = report_listening(arguments.bind.as_str(), &tls);
            (Stage::Listening(tls.is_some()), Action::Announce(m))
        },
        (Stage::Binding(_), Err(reason)) => finish(ConsoleError::Bind(reason)),
        (Stage::Listening(tls), Ok(())) => (Stage::Serving, Action::Serve { tls }),
        (Stage::Listening(_), Err(reason)) => finish(ConsoleError::Io(reason)),
        (Stage::Serving, Ok(())) => (
            Stage::Closing,
            Action::Announce("gateway shut down".to_owned()),
        ),
        (Stage::Serving, Err(reason)) => finish(ConsoleError::Serve(reason)),
        (_, Ok(())) => (Stage::Ended, Action::Finish(Ok(()))),
        (_, Err(reason)) => finish(ConsoleError::Io(reason)),
    }
}

/// The course once what had to be done was done.
fn succeed(stage: Stage) -> (r: (Stage, Action))
    requires
        !in_service(stage@),
        !(stage@ is Loading || stage@ is Reading || stage@ is Resolving || stage@ is Securing
            || stage@ is Ended),
    ensures
        forall|o: Options| #[trigger] done_at(o, stage@, (r.0@, r.1@)),
{
    match stage {
        Stage::Hardening => (Stage::Loading, Action::Load),
        Stage::Announcing(config) => (Stage::Starting(config), Action::Start),
        Stage::Starting(config) => (Stage::Reading(config), Action::Read),
        Stage::Providing(config) => {
            let p = Preparation::new(config);
            proof {
                assert(reload::begun(p@, config@));
            }
            proceed(p)
        },
        Stage::Building(Some(refresh)) => (Stage::Authenticating(refresh), Action::Authenticate),
        Stage::Building(None) => (Stage::Securing(None), Action::Secure),
        Stage::Authenticating(refresh) => (Stage::Securing(Some(refresh)), Action::Secure),
        _ => {
            assert(false);
            (Stage::Ended, Action::Finish(Ok(())))
        },
    }
}

/// Take an event in the course of the command.
pub fn run(arguments: &ServeArguments, stage: Stage, event: Event) -> (r: (Stage, Action))
    requires
        expected(arguments@, stage@, event),
    ensures
        leads_to(arguments@, stage@, event, (r.0@, r.1@)),
{
    match (stage, event) {
        (Stage::Loading, Event::Loaded(Ok(config))) => {
            let m = report_startup(&config, arguments.bind.as_str());
            (Stage::Announcing(config), Action::Announce(m))
        },
        (Stage::Loading, Event::Loaded(Err(e))) => finish(ConsoleError::Config(e)),
        (Stage::Reading(config), Event::Read(value)) => {
            let raw = match &value {
                Some(raw) => Some(raw.as_str()),
                None => None,
            };
            let directory = match &arguments.credentials_dir {
                Some(directory) => Some(directory.clone()),
                None => None,
            };
            match build_credential_provider(directory, arguments.credential_timeout, raw) {
                Ok(provider) => (Stage::Providing(config), Action::Provide(provider)),
                Err(e) => finish(e),
            }
        },
        (Stage::Resolving(p), Event::Resolved(outcome)) => match p.step(outcome) {
            Ok(p) => proceed(p),
            Err(e) => finish(e),
        },
        (Stage::Securing(refresh), Event::Secured(Ok(tls))) => (
            Stage::Binding(tls),
            Action::Bind { refresh, reload: !arguments.no_reload },
        ),
        (Stage::Securing(_), Event::Secured(Err(reason))) => finish(ConsoleError::Tls(reason)),
        (
            stage @ (Stage::Binding(_) | Stage::Listening(_) | Stage::Serving | Stage::Closing),
            Event::Done(outcome),
        ) => serve_loop(arguments, stage, outcome),
        (stage, Event::Done(Ok(()))) => succeed(stage),
        (stage, Event::Done(Err(reason))) => match fail(stage, reason) {
            Ok(r) => r,
            Err(stage) => succeed(stage),
        },
        _ => {
            assert(false);
            (Stage::Ended, Action::Finish(Ok(())))
        },
    }
}

// ---------------------------------------------------------------------------
// Laws
// ---------------------------------------------------------------------------

/// Where the configuration asks for authentication, the gateway comes to bind
/// an address only once the validator of inbound tokens has been built; with
/// it goes the refresh of what is known of the authorisation server.
pub proof fn authentication_comes_before_service(
    o: Options,
    refresh: AuthRefresh,
    event: Event,
    next: (Point, Next),
)
    requires
        expected(o, Point::Building(Some(refresh)), event),
        leads_to(o, Point::Building(Some(refresh)), event, next),
    ensures
        next.0 is Authenticating || next.0 is Ended,
        forall|after: Event, then: (Point, Next)|
            expected(o, Point::Authenticating(refresh), after) && #[trigger] leads_to(
                o,
                Point::Authenticating(refresh),
                after,
                then,
            ) ==> (if after matches Event::Done(Ok(())) {
                then.0 == Point::Securing(Some(refresh))
            } else {
                then.0 is Ended
            }),
{
}

/// The state of the gateway is built only from a configuration all of whose
/// credentials are resolved.
pub proof fn unresolved_credentials_stop_the_start(
    o: Options,
    p: Prepared,
    event: Event,
    next: (Point, Next),
)
    requires
        expected(o, Point::Resolving(p), event),
        leads_to(o, Point::Resolving(p), event, next),
        next.1 is Build,
    ensures
        event matches Event::Resolved(Ok(secret)) && references::complete(
            reload::with_value(p, secret@).progress,
        ) && next.1 == Next::Build(p.config, reload::sources(reload::with_value(p, secret@))),
{
}

/// Every failure but one ends the command at once, with an error: that core
/// dumps cannot be disabled is the exception.
pub proof fn failures_end_the_command(
    o: Options,
    point: Point,
    event: Event,
    next: (Point, Next),
)
    requires
        expected(o, point, event),
        leads_to(o, point, event, next),
        match event {
            Event::Loaded(r) => r is Err,
            Event::Read(_) => false,
            Event::Resolved(r) => r is Err,
            Event::Secured(r) => r is Err,
            Event::Done(r) => r is Err,
        },
        !(point is Hardening),
    ensures
        next.0 == Point::Ended,
        next.1 matches Next::Finish(Err(_)),
{
}

/// The bound on the time of credential commands is that of the command line,
/// whatever the environment holds; without one it is that of the environment,
/// which has to be readable; without either it is thirty seconds.
pub proof fn the_command_line_comes_before_the_environment(
    given: u128,
    reading: Option<Result<u128, Seq<char>>>,
    value: u128,
    reason: Seq<char>,
    raw: Seq<char>,
)
    ensures
        timeout_of(Some(given), reading) == Ok::<_, ConsoleFault>(given),
        timeout_of(None, Some(Ok(value))) == Ok::<_, ConsoleFault>(value),
        timeout_of(None, Some(Err(reason))) == Err::<u128, _>(
            ConsoleFault::Environment("MCP_CREDENTIAL_TIMEOUT"@, reason),
        ),
        timeout_of(None, None) == Ok::<_, ConsoleFault>(30_000_000_000u128),
        read_duration(Some(raw)) == Some(duration_of(raw)),
        read_duration(None) is None,
        forall|e: String| #[trigger] reading_view(Some(Err(e))) == Some(Err::<u128, _>(e@)),
        reading_view(Some(Ok(value))) == Some(Ok::<_, Seq<char>>(value)),
        reading_view(None) is None,
        readable(Some(given), Some(raw)),
        readable(None, None),
        readable(None, Some(raw)) <==> moderate(raw),
{
}

/// Credentials are looked for in the given directory and in the variables that
/// begin with `MCP_CREDENTIAL_`, and no command is run for them.
pub proof fn credentials_come_from_files_and_variables(
    directory: Option<std::path::PathBuf>,
    timeout: u128,
    name: Seq<char>,
)
    ensures
        ({
            let c = chain_of(directory, timeout);
            &&& c.commands.len() == 0
            &&& c.credentials_dir == directory
            &&& c.env_prefix == Some("MCP_CREDENTIAL_"@)
            &&& c.command_timeout == timeout
            &&& !(chain::plan_for(c, name) is Run)
        }),
{
}

/// What is known of the authorisation server is refreshed as often as the
/// configuration says, in nanoseconds, and not at all without authentication.
pub proof fn refreshes_follow_the_configuration(a: Authentication, g: Gateway)
    ensures
        refresh_of(a).jwks_interval == a.jwks_cache_seconds * 1_000_000_000,
        refresh_of(a).discovery_interval == a.discovery_cache_seconds * 1_000_000_000,
        g.authentication is None ==> refresh_for(g) is None,
        g.authentication matches Some(section) ==> refresh_for(g) == Some(refresh_of(section)),
{
}

/// Servers are counted one by one, and only those that are enabled.
pub proof fn enabled_servers_are_counted_one_by_one(
    a: Seq<(Seq<char>, Server)>,
    b: Seq<(Seq<char>, Server)>,
    one: (Seq<char>, Server),
)
    ensures
        enabled(a + b) == enabled(a) + enabled(b),
        enabled(seq![one]) == if one.1.enabled {
            1int
        } else {
            0int
        },
    decreases b.len(),
{
    reveal_with_fuel(enabled, 2);
    assert(seq![one].drop_last() =~= Seq::empty());
    if b.len() == 0 {
        assert(a + b =~= a);
    } else {
        assert((a + b).drop_last() =~= a + b.drop_last());
        assert((a + b).last() == b.last());
        enabled_servers_are_counted_one_by_one(a, b.drop_last(), one);
    }
}

/// The announcements give the number of enabled servers and the address, the
/// scheme that is served, and where the certificate comes from.
pub proof fn announcements_say_what_is_served(g: Gateway, bind: Seq<char>, source: Seq<char>)
    ensures
        text::mentions(startup_text(g, bind), text::decimal(enabled(g.servers))),
        text::mentions(startup_text(g, bind), bind),
        text::mentions(listening_text(bind, None), "http://"@ + bind),
        text::mentions(listening_text(bind, Some(source)), "https://"@ + bind),
        text::mentions(listening_text(bind, Some(source)), source),
{
    let none = Seq::<char>::empty();
    let (lead, then) = ("starting gateway with "@, " server(s) on "@);
    let count = text::decimal(enabled(g.servers));
    assert(lead + count + then + bind =~= lead + count + (then + bind));
    text::lemma_mentions(lead, count, then + bind);
    text::lemma_mentions(lead + count + then, bind, none);
    reveal_strlit("gateway listening on http://");
    reveal_strlit("gateway listening on https://");
    reveal_strlit("gateway listening on ");
    reveal_strlit("http://");
    reveal_strlit("https://");
    let front = "gateway listening on "@;
    let (plain, secure) = ("http://"@ + bind, "https://"@ + bind);
    assert(listening_text(bind, None) =~= front + plain);
    text::lemma_mentions(front, plain, none);
    let end = " (TLS: "@ + source + ")"@;
    assert(listening_text(bind, Some(source)) =~= front + secure + end);
    text::lemma_mentions(front, secure, end);
    text::lemma_mentions("gateway listening on https://"@ + bind + " (TLS: "@, source, ")"@);
}

/// A listener goes on with every connection, stops without an error at the
/// shutdown, and with one where it cannot accept.
pub proof fn listeners_stop_at_the_shutdown_or_a_failure(reason: String)
    ensures
        stops(ListenerEvent::Incoming(Ok(()))) is None,
        stops(ListenerEvent::Shutdown) == Some(Ok::<(), ConsoleFault>(())),
        stops(ListenerEvent::Incoming(Err(reason))) == Some(
            Err::<(), _>(ConsoleFault::Serve(reason@)),
        ),
{
}

/// The command begins by disabling core dumps, unless they are allowed, and
/// goes on whether or not that succeeds.
pub proof fn core_dumps_are_disabled_first(o: Options, outcome: Result<(), String>, next: (Point, Next))
    ensures
        o.allow_core_dumps ==> beginning(o) == (Point::Loading, Next::Load),
        !o.allow_core_dumps ==> beginning(o) == (Point::Hardening, Next::Harden),
        leads_to(o, Point::Hardening, Event::Done(outcome), next) ==> next == (
            Point::Loading,
            Next::Load,
        ),
{
}

/// The command goes on step by step: the configuration that was loaded is
/// announced, the runtime is started, the environment is read, the provider is
/// set up, the credentials are resolved one by one, the state is built from
/// them, the validator is built where there is to be one, the certificate is
/// resolved, the address is bound and announced, requests are served until the
/// end, and the end is announced.
pub proof fn the_command_goes_on_step_by_step(
    o: Options,
    point: Point,
    event: Event,
    next: (Point, Next),
)
    requires
        expected(o, point, event),
        leads_to(o, point, event, next),
    ensures
        event matches Event::Loaded(Ok(config)) ==> next == (
            Point::Announcing(config@),
            Next::Announce(startup_text(config@, o.bind)),
        ),
        event matches Event::Read(value) ==> (point matches Point::Reading(g) && match timeout_of(
            o.credential_timeout,
            read_duration(text::opt(value)),
        ) {
            Ok(timeout) => next == (
                Point::Providing(g),
                Next::Provide(chain_of(o.credentials_dir, timeout)),
            ),
            Err(f) => next == (Point::Ended, Next::Finish(Err::<(), _>(f))),
        }),
        event matches Event::Resolved(Ok(secret)) ==> (point matches Point::Resolving(p) && {
            let after = Prepared { progress: references::with_value(p.progress, secret@), ..p };
            next == prepared_to(after)
        }),
        event matches Event::Secured(Ok(tls)) ==> (point matches Point::Securing(refresh) && next
            == (
            Point::Binding(
                match tls {
                    Some(source) => Some(source@),
                    None => None,
                },
            ),
            Next::Bind(refresh, !o.no_reload),
        )),
        (event matches Event::Done(Ok(()))) ==> match point {
            Point::Announcing(g) => next == (Point::Starting(g), Next::Start),
            Point::Starting(g) => next == (Point::Reading(g), Next::Read),
            Point::Providing(g) => exists|p: Prepared|
                reload::begun(p, g) && next == #[trigger] prepared_to(p),
            Point::Building(Some(r)) => next == (Point::Authenticating(r), Next::Authenticate),
            Point::Building(None) => next == (Point::Securing(None), Next::Secure),
            Point::Authenticating(r) => next == (Point::Securing(Some(r)), Next::Secure),
            Point::Binding(tls) => next == (
                Point::Listening(tls is Some),
                Next::Announce(listening_text(o.bind, tls)),
            ),
            Point::Listening(tls) => next == (Point::Serving, Next::Serve(tls)),
            Point::Serving => next.0 == Point::Closing && next.1 is Announce,
            Point::Closing => next == (
                Point::Ended,
                Next::Finish(Ok::<(), ConsoleFault>(())),
            ),
            _ => true,
        },
{
}

/// The resolution of credentials goes on until every one has a value; then the
/// state is built from the configuration and those values, with the refresh
/// that its authentication section asks for.
pub proof fn the_state_is_built_from_resolved_credentials(p: Prepared)
    ensures
        p.progress.secrets.len() == p.progress.references.len() ==> prepared_to(p) == (
            Point::Building(refresh_for(p.config)),
            Next::Build(
                p.config,
                crate::resolver::sources_of(p.progress.secrets, p.config.oauth),
            ),
        ),
        p.progress.secrets.len() < p.progress.references.len() ==> prepared_to(p) == (
            Point::Resolving(p),
            Next::Resolve(p.progress.references[p.progress.secrets.len() as int].0),
        ),
{
}

/// A failure ends the command with the error of the step that failed, and
/// with the reason that was given.
pub proof fn failures_are_reported_by_their_step(
    o: Options,
    point: Point,
    event: Event,
    next: (Point, Next),
)
    requires
        expected(o, point, event),
        leads_to(o, point, event, next),
    ensures
        event matches Event::Loaded(Err(e)) ==> next == (
            Point::Ended,
            Next::Finish(Err::<(), _>(ConsoleFault::Config(e@))),
        ),
        event matches Event::Resolved(Err(e)) ==> (point matches Point::Resolving(p) && next.0
            == Point::Ended && (next.1 matches Next::Finish(Err(ConsoleFault::AppState(m)))
            && text::mentions(m, references::current(p.progress).0) && text::mentions(
            m,
            references::current(p.progress).1,
        ) && text::mentions(m, chain::fault_message(e@)))),
        event matches Event::Secured(Err(reason)) ==> next == (
            Point::Ended,
            Next::Finish(Err::<(), _>(ConsoleFault::Tls(reason@))),
        ),
        event matches Event::Done(Err(reason)) ==> {
            &&& point is Announcing || point is Listening || point is Closing ==> next == (
                Point::Ended,
                Next::Finish(Err::<(), _>(ConsoleFault::Io(reason@))),
            )
            &&& point is Starting || point is Serving ==> next == (
                Point::Ended,
                Next::Finish(Err::<(), _>(ConsoleFault::Serve(reason@))),
            )
            &&& point is Providing || point is Building || point is Authenticating ==> next == (
                Point::Ended,
                Next::Finish(Err::<(), _>(ConsoleFault::AppState(reason@))),
            )
            &&& point is Binding ==> next == (
                Point::Ended,
                Next::Finish(Err::<(), _>(ConsoleFault::Bind(reason@))),
            )
        },
{
    if let (Point::Resolving(p), Event::Resolved(Err(e))) = (point, event) {
        let (credential, context) = references::current(p.progress);
        let fault = crate::interpolate::Fault::Missing(credential);
        crate::config::configuration_messages_name_their_subject(
            credential,
            context,
            chain::fault_message(e@),
            fault,
        );
    }
}

/// The command expects what it has asked for, and nothing once it has ended.
pub proof fn the_command_expects_what_it_asks_for(o: Options, point: Point, event: Event)
    ensures
        point is Loading ==> (expected(o, point, event) <==> event is Loaded),
        point is Reading ==> (expected(o, point, event) <==> (event matches Event::Read(value)
            && readable(
            o.credential_timeout,
            match value {
                Some(raw) => Some(raw@),
                None => None,
            },
        ))),
        point matches Point::Resolving(p) ==> (p.progress.secrets.len()
            < p.progress.references.len() ==> (expected(o, point, event) <==> event is Resolved)),
        point is Securing ==> (expected(o, point, event) <==> event is Secured),
        point is Ended ==> !expected(o, point, event),
        !(point is Loading || point is Reading || point is Resolving || point is Securing
            || point is Ended) ==> (expected(o, point, event) <==> event is Done),
        in_service(point) <==> point is Binding || point is Listening || point is Serving
            || point is Closing,
{
}

/// A duration that is made of whole numbers of seconds, hours, days, weeks,
/// months and years, by the letters of these units, can always be read,
/// however large its numbers are.
pub proof fn whole_seconds_can_always_be_read(s: Seq<char>)
    requires
        forall|i: int|
            0 <= i < s.len() ==> {
                let c = #[trigger] s[i];
                '0' <= c <= '9' || text::white_space(c) || c == 's' || c == 'h' || c == 'd' || c
                    == 'w' || c == 'M' || c == 'y'
            },
    ensures
        moderate(s),
{
    lemma_whole_seconds(s, 0, Place::Whole, 0, 0);
}

proof fn lemma_whole_seconds(s: Seq<char>, at: int, place: Place, number: nat, total: nat)
    requires
        0 <= at <= s.len(),
        place != Place::Part,
        forall|i: int|
            0 <= i < s.len() ==> {
                let c = #[trigger] s[i];
                '0' <= c <= '9' || text::white_space(c) || c == 's' || c == 'h' || c == 'd' || c
                    == 'w' || c == 'M' || c == 'y'
            },
    ensures
        clear(s, at, place, number, 0, 1, total),
    decreases s.len() - at,
{
    if at < s.len() {
        let c = s[at];
        if '0' <= c <= '9' {
            let digit = (c as nat - '0' as nat) as nat;
            if place == Place::Whole {
                lemma_whole_seconds(s, at + 1, place, number * 10 + digit, total);
            } else {
                lemma_whole_seconds(s, at + 1, Place::Whole, digit, total);
            }
        } else if text::white_space(c) {
            if place == Place::Unit {
                lemma_whole_seconds(s, at + 1, Place::Whole, 0, total);
            } else {
                lemma_whole_seconds(s, at + 1, place, number, total);
            }
        } else {
            let nanos = unit_nanos(s, at);
            assert(0 * nanos / 1 == 0) by (nonlinear_arith);
            lemma_whole_seconds(s, at + 1, place, number, total);
            lemma_whole_seconds(s, at + 1, Place::Unit, 0, total + number * nanos);
        }
    }
}

/// A duration of the most seconds that fit in 64 bits and of a thousand
/// milliseconds more, however these two numbers are written, is the kind that
/// cannot be read.
pub proof fn completed_last_seconds_are_left_out(seconds: Seq<char>, more: Seq<char>)
    requires
        forall|i: int| 0 <= i < seconds.len() ==> '0' <= #[trigger] seconds[i] <= '9',
        forall|i: int| 0 <= i < more.len() ==> '0' <= #[trigger] more[i] <= '9',
        more.len() > 0,
        text::number_of(seconds) == 18_446_744_073_709_551_615,
        text::number_of(more) == 1_000,
    ensures
        !moderate(seconds + seq!['s', ' '] + more + seq!['m', 's']),
{
    reveal_strlit("mo");
    reveal_strlit("ms");
    let s = seconds + seq!['s', ' '] + more + seq!['m', 's'];
    let n = seconds.len() as int;
    let k = n + 2 + more.len();
    assert(s.subrange(0, n) =~= seconds);
    assert(s.subrange(n + 2, k) =~= more);
    assert forall|i: int| 0 <= i < n implies '0' <= #[trigger] s[i] <= '9' by {
        assert(s[i] == seconds[i]);
    }
    assert forall|i: int| n + 2 <= i < k implies '0' <= #[trigger] s[i] <= '9' by {
        assert(s[i] == more[i - n - 2]);
    }
    lemma_read(0, seconds);
    lemma_digits_read(s, 0, n, 0, 0);
    let whole = 18_446_744_073_709_551_615nat * 1_000_000_000;
    assert(s[n] == 's' && s[n + 1] == ' ' && s[k] == 'm' && s[k + 1] == 's');
    assert(0nat * 1_000_000_000 / 1 == 0) by (nonlinear_arith);
    assert(clear(s, n, Place::Whole, 18_446_744_073_709_551_615, 0, 1, 0) == clear(
        s,
        n + 1,
        Place::Unit,
        0,
        0,
        1,
        whole,
    ));
    assert(clear(s, n + 1, Place::Unit, 0, 0, 1, whole) == clear(
        s,
        n + 2,
        Place::Whole,
        0,
        0,
        1,
        whole,
    ));
    lemma_read(0, more);
    lemma_digits_read(s, n + 2, k, 0, whole);
    assert(s.subrange(k, k + 2)[1] == 's');
    assert("mo"@[1] == 'o');
    assert(!text::matches_at(s, "mo"@, k));
    assert(s.subrange(k, k + 2) =~= "ms"@);
    assert(unit_nanos(s, k) == 1_000_000);
    assert(!clear(s, k, Place::Whole, 1_000, 0, 1, whole));
}

/// The number that digits read as behind the number that was read so far.
pub open spec fn read_on(number: nat, digits: Seq<char>) -> int
    decreases digits.len(),
{
    if digits.len() == 0 {
        number as int
    } else {
        10 * read_on(number, digits.drop_last()) + (digits.last() as u32 - 48)
    }
}

proof fn lemma_read(number: nat, digits: Seq<char>)
    ensures
        number == 0 ==> read_on(number, digits) == text::number_of(digits),
    decreases digits.len(),
{
    if digits.len() > 0 {
        lemma_read(number, digits.drop_last());
    }
}

proof fn lemma_read_grows(number: nat, digits: Seq<char>)
    requires
        forall|i: int| 0 <= i < digits.len() ==> '0' <= #[trigger] digits[i] <= '9',
    ensures
        read_on(number, digits) >= number,
    decreases digits.len(),
{
    if digits.len() > 0 {
        let first = digits.drop_last();
        assert forall|i: int| 0 <= i < first.len() implies '0' <= #[trigger] first[i] <= '9' by {
            assert(first[i] == digits[i]);
        }
        assert('0' <= digits[digits.len() - 1] <= '9');
        lemma_read_grows(number, first);
    }
}

proof fn lemma_read_first(number: nat, digits: Seq<char>)
    requires
        digits.len() > 0,
        '0' <= digits[0] <= '9',
    ensures
        read_on(number, digits) == read_on(
            (number * 10 + (digits[0] as nat - '0' as nat)) as nat,
            digits.skip(1),
        ),
    decreases digits.len(),
{
    reveal_with_fuel(read_on, 2);
    if digits.len() == 1 {
        assert(digits.drop_last() =~= Seq::empty());
        assert(digits.skip(1) =~= Seq::empty());
    } else {
        let first = digits.drop_last();
        assert(first[0] == digits[0]);
        lemma_read_first(number, first);
        assert(first.skip(1) =~= digits.skip(1).drop_last());
        assert(digits.skip(1).last() == digits.last());
    }
}

proof fn lemma_digits_read(s: Seq<char>, at: int, end: int, number: nat, total: nat)
    requires
        0 <= at <= end <= s.len(),
        forall|i: int| at <= i < end ==> '0' <= #[trigger] s[i] <= '9',
        read_on(number, s.subrange(at, end)) <= u64::MAX,
    ensures
        read_on(number, s.subrange(at, end)) >= 0,
        clear(s, at, Place::Whole, number, 0, 1, total) == clear(
            s,
            end,
            Place::Whole,
            read_on(number, s.subrange(at, end)) as nat,
            0,
            1,
            total,
        ),
    decreases end - at,
{
    let digits = s.subrange(at, end);
    if at < end {
        let next = (number * 10 + (s[at] as nat - '0' as nat)) as nat;
        assert(digits[0] == s[at]);
        lemma_read_first(number, digits);
        assert(digits.skip(1) =~= s.subrange(at + 1, end));
        assert forall|i: int| 0 <= i < digits.skip(1).len() implies '0' <= #[trigger] digits.skip(
            1,
        )[i] <= '9' by {
            assert(digits.skip(1)[i] == s[at + 1 + i]);
        }
        lemma_read_grows(next, digits.skip(1));
        lemma_digits_read(s, at + 1, end, next, total);
    }
}

/// A hangup signal leads to a reload, unless reloading is switched off, and is
/// then ignored.
pub proof fn hangups_reload_unless_told_not_to(no_reload: bool, action: HangupAction)
    requires
        call_ensures(handle_hangup_signal, (no_reload,), action),
    ensures
        action is Reload <==> !no_reload,
        action is Ignore <==> no_reload,
{
}

/// A listener stops at the shutdown and at a failure to accept, and handles
/// every connection.
pub proof fn listeners_handle_every_connection(event: ListenerEvent, action: ListenerAction)
    requires
        call_ensures(serve_tls, (event,), action),
    ensures
        action is Handle <==> (event matches ListenerEvent::Incoming(Ok(()))),
        event is Shutdown ==> (action matches ListenerAction::Stop(Ok(()))),
        event matches ListenerEvent::Incoming(Err(reason)) ==> (action matches ListenerAction::Stop(
            Err(ConsoleError::Serve(why)),
        ) && why@ == reason@),
{
}

/// The provider of the options looks in the given directory, under the prefix
/// of the variables, and waits for commands as long as it is told.
pub proof fn providers_follow_the_options(
    directory: Option<std::path::PathBuf>,
    given: u128,
    environment: Option<&str>,
    r: Result<CredentialProvider, ConsoleError>,
)
    requires
        call_ensures(build_credential_provider, (directory, Some(given), environment), r),
    ensures
        r matches Ok(provider) && provider@.command_timeout == given && provider@.credentials_dir
            == directory && provider@.env_prefix == Some("MCP_CREDENTIAL_"@)
            && provider@.commands.len() == 0,
{
}

/// A TLS handshake may take ten seconds, and bridges are looked after every
/// five.
pub proof fn waits_are_bounded()
    ensures
        TLS_HANDSHAKE_TIMEOUT == 10 * 1_000_000_000,
        HEALTH_CHECK_INTERVAL == 5 * 1_000_000_000,
{
}

/// Ten to the power of `n`.
pub open spec fn ten_to(n: nat) -> nat
    decreases n,
{
    if n == 0 {
        1
    } else {
        10 * ten_to((n - 1) as nat)
    }
}

/// A duration that is written in no more than eleven characters can always be
/// read, whatever its units and fractions are.
pub proof fn short_durations_can_always_be_read(s: Seq<char>)
    requires
        s.len() <= 11,
    ensures
        moderate(s),
{
    reveal_with_fuel(ten_to, 12);
    assert(ten_to(11) == 100_000_000_000);
    lemma_tens_grow(s.len(), 11);
    lemma_short(s, 0, Place::Whole, 0, 0, 1, 0, 1);
}

proof fn lemma_tens_grow(a: nat, b: nat)
    requires
        a <= b,
    ensures
        1 <= ten_to(a) <= ten_to(b),
    decreases b,
{
    if a < b {
        lemma_tens_grow(a, (b - 1) as nat);
    } else if a > 0 {
        lemma_tens_grow((a - 1) as nat, (a - 1) as nat);
    }
}

proof fn lemma_short(
    s: Seq<char>,
    at: int,
    place: Place,
    number: nat,
    part: nat,
    scale: nat,
    total: nat,
    bound: nat,
)
    requires
        0 <= at <= s.len(),
        part < scale,
        total + (number + 1) * YEAR <= bound * YEAR,
        bound * ten_to((s.len() - at) as nat) <= 100_000_000_000,
    ensures
        clear(s, at, place, number, part, scale, total),
    decreases s.len() - at,
{
    if at < s.len() {
        let c = s[at];
        let rest = ten_to((s.len() - at - 1) as nat);
        lemma_tens_grow((s.len() - at) as nat, (s.len() - at) as nat);
        assert((bound * 10) * rest == bound * ten_to((s.len() - at) as nat)) by (nonlinear_arith)
            requires
                ten_to((s.len() - at) as nat) == 10 * rest,
        ;
        assert(bound <= (bound * 10) && bound >= 1) by (nonlinear_arith)
            requires
                total + (number + 1) * YEAR <= bound * YEAR,
        ;
        assert(bound * YEAR * 10 == (bound * 10) * YEAR) by (nonlinear_arith);
        if '0' <= c <= '9' {
            let digit = (c as nat - '0' as nat) as nat;
            assert(total + (number * 10 + digit + 1) * YEAR <= (bound * 10) * YEAR) by (
                nonlinear_arith)
                requires
                    total + (number + 1) * YEAR <= bound * YEAR,
                    digit <= 9,
            ;
            assert(total + (digit + 1) * YEAR <= (bound * 10) * YEAR) by (nonlinear_arith)
                requires
                    total + (number + 1) * YEAR <= bound * YEAR,
                    digit <= 9,
            ;
            assert(total + (number + 1) * YEAR <= (bound * 10) * YEAR);
            if place == Place::Whole {
                lemma_short(
                    s,
                    at + 1,
                    place,
                    number * 10 + digit,
                    part,
                    scale,
                    total,
                    bound * 10,
                );
            } else if place == Place::Part {
                lemma_short(
                    s,
                    at + 1,
                    place,
                    number,
                    part * 10 + digit,
                    scale * 10,
                    total,
                    bound * 10,
                );
            } else {
                lemma_short(s, at + 1, Place::Whole, digit, 0, 1, total, bound * 10);
            }
        } else {
            let nanos = unit_nanos(s, at);
            let whole = total + number * nanos;
            let sum = whole + part * nanos / scale;
            assert(total + (number + 1) * YEAR <= (bound * 10) * YEAR);
            assert(total + YEAR <= (bound * 10) * YEAR) by (nonlinear_arith)
                requires
                    total + (number + 1) * YEAR <= (bound * 10) * YEAR,
            ;
            assert(nanos <= YEAR);
            assert(part * nanos / scale <= nanos) by (nonlinear_arith)
                requires
                    part < scale,
            ;
            assert((number + 1) * nanos <= (number + 1) * YEAR) by (nonlinear_arith)
                requires
                    nanos <= YEAR,
            ;
            assert((number + 1) * nanos == number * nanos + nanos) by (nonlinear_arith);
            assert(sum <= total + (number + 1) * YEAR);
            assert(sum + YEAR <= (bound * 10) * YEAR) by (nonlinear_arith)
                requires
                    sum <= bound * YEAR,
                    bound >= 1,
            ;
            assert(bound * YEAR <= 100_000_000_000 * YEAR) by (nonlinear_arith)
                requires
                    bound * ten_to((s.len() - at) as nat) <= 100_000_000_000,
                    ten_to((s.len() - at) as nat) >= 1,
            ;
            lemma_short(s, at + 1, place, number, part, scale, total, bound * 10);
            lemma_short(s, at + 1, Place::Whole, 0, 0, 1, total, bound * 10);
            lemma_short(s, at + 1, Place::Unit, 0, 0, 1, sum, bound * 10);
            lemma_short(s, at + 1, Place::Part, number, 0, 1, total, bound * 10);
        }
    }
}

/// Units are written in ASCII letters and the micro sign.
pub proof fn units_are_written_in_letters(c: char)
    ensures
        unit_char(c) <==> 'a' <= text::lower(c) <= 'z' || c == '\u{b5}',
{
}

} // verus!

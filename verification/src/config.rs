//! Operations on a whole gateway configuration: validation, interpolation
//! of variables and placement of credentials.

use vstd::prelude::*;

use crate::authentication;
use crate::interpolate;
use crate::interpolate::{Fault, InterpolationError};
use crate::names;
use crate::names::{Duplicate, NameMap};
use crate::secret::Secret;
use crate::server::{
    CredentialInjection, Gateway, GatewayConfig, Injection, Route, Server, ServerDefinition,
    Transport, MAX_REQUEST_TIMEOUT_SECONDS,
};
use crate::server;
use crate::text;

verus! {

// ---------------------------------------------------------------------------
// Interpolation
// ---------------------------------------------------------------------------

/// An interpolation failure with the place in the configuration where it
/// occurred.
#[derive(Debug)]
pub struct ConfigInterpolationError {
    /// Path inside the configuration document, for example
    /// `servers.alpha.env.API_KEY`.
    pub field: String,
    /// The underlying interpolation error.
    pub source: InterpolationError,
}

/// The message of an interpolation failure at a place in the configuration.
pub open spec fn interpolation_message(field: Seq<char>, fault: Fault) -> Seq<char> {
    "failed to interpolate "@ + field + ": "@ + interpolate::fault_message(fault)
}

impl ConfigInterpolationError {
    /// The message shown to operators.
    pub fn message(&self) -> (m: String)
        ensures
            m@ == interpolation_message(self.field@, self.source@),
    {
        let mut m = String::from_str("failed to interpolate ");
        m.append(self.field.as_str());
        m.append(": ");
        let shown = self.source.message();
        m.append(shown.as_str());
        m
    }
}

/// Named texts.
pub type Texts = Seq<(Seq<char>, Seq<char>)>;

/// The values of the variables of an interpolation.
pub type Variables = Seq<(Seq<char>, String)>;

/// `values` with every value expanded, or the name of the first value whose
/// expansion fails and the fault.
pub open spec fn expand_values(values: Texts, variables: Variables) -> Result<
    Texts,
    (Seq<char>, Fault),
>
    decreases values.len(),
{
    if values.len() == 0 {
        Ok(Seq::empty())
    } else {
        match expand_values(values.drop_last(), variables) {
            Err(e) => Err(e),
            Ok(before) => match interpolate::expanded(values.last().1, variables) {
                Ok(value) => Ok(before.push((values.last().0, value))),
                Err(fault) => Err((values.last().0, fault)),
            },
        }
    }
}

/// `values` as far as they can be expanded: every value before the first whose
/// expansion fails, and the others as they were.
pub open spec fn expanded_so_far(values: Texts, variables: Variables) -> Texts
    decreases values.len(),
{
    if values.len() == 0 {
        Seq::empty()
    } else {
        let before = expanded_so_far(values.drop_last(), variables);
        match expand_values(values.drop_last(), variables) {
            Err(_) => before.push(values.last()),
            Ok(_) => match interpolate::expanded(values.last().1, variables) {
                Ok(value) => before.push((values.last().0, value)),
                Err(_) => before.push(values.last()),
            },
        }
    }
}

/// The path of an environment value.
pub open spec fn env_field(server: Seq<char>, key: Seq<char>) -> Seq<char> {
    "servers."@ + server + ".env."@ + key
}

/// The path of a header value.
pub open spec fn header_field(server: Seq<char>, key: Seq<char>) -> Seq<char> {
    "servers."@ + server + ".headers."@ + key
}

/// The transport with its header values expanded. Commands, arguments and
/// URLs stay as they are.
pub open spec fn expand_transport(name: Seq<char>, t: Route, variables: Variables) -> Result<
    Route,
    (Seq<char>, Fault),
> {
    match t {
        Route::Stdio { command, args } => Ok(t),
        Route::Http { url, headers } => match expand_values(headers, variables) {
            Ok(h) => Ok(Route::Http { url, headers: h }),
            Err(e) => Err((header_field(name, e.0), e.1)),
        },
        Route::Sse { url, headers } => match expand_values(headers, variables) {
            Ok(h) => Ok(Route::Sse { url, headers: h }),
            Err(e) => Err((header_field(name, e.0), e.1)),
        },
    }
}

/// A server with its environment and header values expanded.
pub open spec fn expand_server(name: Seq<char>, s: Server, variables: Variables) -> Result<
    Server,
    (Seq<char>, Fault),
> {
    match expand_values(s.env, variables) {
        Err(e) => Err((env_field(name, e.0), e.1)),
        Ok(env) => match expand_transport(name, s.transport, variables) {
            Err(e) => Err(e),
            Ok(transport) => Ok(Server { env, transport, ..s }),
        },
    }
}

/// The transport with its header values expanded as far as they can be.
pub open spec fn transport_so_far(t: Route, variables: Variables) -> Route {
    match t {
        Route::Stdio { command, args } => t,
        Route::Http { url, headers } => Route::Http {
            url,
            headers: expanded_so_far(headers, variables),
        },
        Route::Sse { url, headers } => Route::Sse {
            url,
            headers: expanded_so_far(headers, variables),
        },
    }
}

/// A server with its values expanded as far as they can be: the header values
/// follow the environment, and nothing else changes.
pub open spec fn server_so_far(s: Server, variables: Variables) -> Server {
    Server {
        env: expanded_so_far(s.env, variables),
        transport: if expand_values(s.env, variables) is Ok {
            transport_so_far(s.transport, variables)
        } else {
            s.transport
        },
        ..s
    }
}

/// All servers with their environment and header values expanded.
pub open spec fn expand_servers(servers: Seq<(Seq<char>, Server)>, variables: Variables) -> Result<
    Seq<(Seq<char>, Server)>,
    (Seq<char>, Fault),
>
    decreases servers.len(),
{
    if servers.len() == 0 {
        Ok(Seq::empty())
    } else {
        match expand_servers(servers.drop_last(), variables) {
            Err(e) => Err(e),
            Ok(before) => match expand_server(servers.last().0, servers.last().1, variables) {
                Ok(s) => Ok(before.push((servers.last().0, s))),
                Err(e) => Err(e),
            },
        }
    }
}

/// The servers with their values expanded as far as they can be: every server
/// before the first that fails, that one in part, and the others as they were.
pub open spec fn servers_so_far(servers: Seq<(Seq<char>, Server)>, variables: Variables) -> Seq<
    (Seq<char>, Server),
>
    decreases servers.len(),
{
    if servers.len() == 0 {
        Seq::empty()
    } else {
        let before = servers_so_far(servers.drop_last(), variables);
        if expand_servers(servers.drop_last(), variables) is Ok {
            before.push((servers.last().0, server_so_far(servers.last().1, variables)))
        } else {
            before.push(servers.last())
        }
    }
}

/// Expand the references inside `secret` in place.
fn expand_secret(secret: &mut Secret, variables: &NameMap<String>) -> (r: Result<
    (),
    InterpolationError,
>)
    ensures
        match interpolate::expanded(old(secret)@, variables@) {
            Ok(value) => r is Ok && final(secret)@ == value,
            Err(fault) => (r matches Err(e) && e@ == fault) && *final(secret) == *old(secret),
        },
{
    if !text::has_char(secret.expose(), '$') {
        proof {
            interpolate::lemma_plain_text_expands_to_itself(secret@, variables@);
        }
        return Ok(());
    }
    let value = match interpolate::interpolate(secret.expose(), variables) {
        Ok(std::borrow::Cow::Owned(value)) => value,
        Ok(std::borrow::Cow::Borrowed(value)) => value.to_owned(),
        Err(e) => {
            return Err(e);
        },
    };
    *secret = Secret::new(value);
    Ok(())
}

/// Expand every value of `values` in place; on failure, return the name of
/// the value that failed.
fn expand_map(values: &mut NameMap<Secret>, variables: &NameMap<String>) -> (r: Result<
    (),
    (String, InterpolationError),
>)
    ensures
        match expand_values(names::deep(old(values)@), variables@) {
            Ok(expanded) => r is Ok && names::deep(final(values)@) == expanded,
            Err(e) => r matches Err(error) && error.0@ == e.0 && error.1@ == e.1,
        },
        names::deep(final(values)@) == expanded_so_far(names::deep(old(values)@), variables@),
{
    let ghost start = names::deep(values@);
    let n = values.len();
    let mut i: usize = 0;
    assert(start.take(0) =~= Seq::empty());
    while i < n
        invariant
            i <= n,
            n == start.len(),
            n == values@.len(),
            start == names::deep(old(values)@),
            names::deep(values@).skip(i as int) == start.skip(i as int),
            expand_values(start.take(i as int), variables@) == Ok::<Texts, (Seq<char>, Fault)>(
                names::deep(values@).take(i as int),
            ),
        decreases n - i,
    {
        let name = values.key_at(i).clone();
        let ghost before = values@;
        let ghost expected = interpolate::expanded(start[i as int].1, variables@);
        proof {
            assert(names::deep(values@).skip(i as int)[0] == start.skip(i as int)[0]);
            assert(start.take(i + 1).drop_last() =~= start.take(i as int));
            assert(start.take(i + 1).last() == start[i as int]);
            lemma_first_failure(start, variables@, i as int);
        }
        let outcome = expand_secret(values.value_at_mut(i), variables);
        match outcome {
            Ok(()) => {},
            Err(e) => {
                proof {
                    let done = names::deep(before).take(i as int);
                    lemma_so_far(start, variables@, i as int);
                    assert(names::deep(values@) =~= names::deep(before));
                    assert(names::deep(before) =~= done + names::deep(before).skip(i as int));
                }
                return Err((name, e));
            },
        }
        i = i + 1;
        proof {
            let now = names::deep(values@);
            assert forall|k: int| 0 <= k < n implies #[trigger] now[k] == (if k == i - 1 {
                (start[k].0, expected->Ok_0)
            } else {
                names::deep(before)[k]
            }) by {}
            assert(now.take(i as int) =~= names::deep(before).take(i - 1).push(
                (start[i - 1].0, expected->Ok_0),
            ));
            assert(now.skip(i as int) =~= start.skip(i as int)) by {
                assert forall|k: int| 0 <= k < n - i implies now.skip(i as int)[k] == start.skip(
                    i as int,
                )[k] by {
                    assert(names::deep(before).skip(i - 1)[k + 1] == start.skip(i - 1)[k + 1]);
                }
            }
        }
    }
    proof {
        assert(start.take(n as int) =~= start);
        assert(names::deep(values@).take(n as int) =~= names::deep(values@));
        lemma_all_expanded(start, variables@);
    }
    Ok(())
}

/// Where every value can be expanded, all are.
proof fn lemma_all_expanded(values: Texts, variables: Variables)
    ensures
        expand_values(values, variables) matches Ok(all) ==> expanded_so_far(values, variables)
            == all,
    decreases values.len(),
{
    if values.len() > 0 {
        lemma_all_expanded(values.drop_last(), variables);
    }
}

/// Where the values before `at` can be expanded and that at `at` cannot, the
/// former are expanded and the rest stays.
proof fn lemma_so_far(values: Texts, variables: Variables, at: int)
    requires
        0 <= at < values.len(),
        expand_values(values.take(at), variables) is Ok,
        interpolate::expanded(values[at].1, variables) is Err,
    ensures
        expanded_so_far(values, variables) == expand_values(values.take(at), variables)->Ok_0
            + values.skip(at),
    decreases values.len(),
{
    let rest = values.drop_last();
    let done = expand_values(values.take(at), variables)->Ok_0;
    if at == values.len() - 1 {
        assert(rest =~= values.take(at));
        lemma_all_expanded(rest, variables);
        assert(done.push(values.last()) =~= done + values.skip(at));
    } else {
        assert(rest.take(at) =~= values.take(at));
        lemma_so_far(rest, variables, at);
        lemma_first_failure(rest, variables, at);
        assert((done + rest.skip(at)).push(values.last()) =~= done + values.skip(at));
    }
}

/// The first value that fails decides the outcome of the whole list.
proof fn lemma_first_failure(values: Texts, variables: Variables, at: int)
    requires
        0 <= at < values.len(),
        expand_values(values.take(at), variables) is Ok,
    ensures
        interpolate::expanded(values[at].1, variables) matches Err(fault) ==> expand_values(
            values,
            variables,
        ) == Err::<Texts, (Seq<char>, Fault)>((values[at].0, fault)),
    decreases values.len() - at,
{
    lemma_failure_sticks(values, variables, at + 1);
    assert(values.take(at + 1).drop_last() =~= values.take(at));
    assert(values.take(at + 1).last() == values[at]);
}

proof fn lemma_failure_sticks(values: Texts, variables: Variables, n: int)
    requires
        0 <= n <= values.len(),
    ensures
        expand_values(values.take(n), variables) matches Err(e) ==> expand_values(values, variables)
            == Err::<Texts, (Seq<char>, Fault)>(e),
    decreases values.len(),
{
    if n < values.len() {
        lemma_failure_sticks(values.drop_last(), variables, n);
        assert(values.drop_last().take(n) =~= values.take(n));
    } else {
        assert(values.take(n) =~= values);
    }
}

/// `servers.<server><kind><key>`, the path of a value.
fn field_path(server: &str, kind: &str, key: &str) -> (path: String)
    ensures
        path@ == "servers."@ + server@ + kind@ + key@,
{
    let mut path = String::from_str("servers.");
    path.append(server);
    path.append(kind);
    path.append(key);
    path
}

/// Expand the references of one server's environment and header values.
pub fn interpolate_server(
    server_name: &str,
    definition: &mut ServerDefinition,
    variables: &NameMap<String>,
) -> (r: Result<(), ConfigInterpolationError>)
    ensures
        match expand_server(server_name@, old(definition)@, variables@) {
            Ok(s) => r is Ok && final(definition)@ == s,
            Err(e) => r matches Err(error) && error.field@ == e.0 && error.source@ == e.1,
        },
        final(definition)@ == server_so_far(old(definition)@, variables@),
{
    match expand_map(&mut definition.env, variables) {
        Ok(()) => {},
        Err((key, source)) => {
            return Err(
                ConfigInterpolationError {
                    field: field_path(server_name, ".env.", key.as_str()),
                    source,
                },
            );
        },
    }
    let outcome = match &mut definition.transport {
        Transport::Http { headers, .. } => expand_map(headers, variables),
        Transport::Sse { headers, .. } => expand_map(headers, variables),
        Transport::Stdio { .. } => Ok(()),
    };
    match outcome {
        Ok(()) => Ok(()),
        Err((key, source)) => Err(
            ConfigInterpolationError {
                field: field_path(server_name, ".headers.", key.as_str()),
                source,
            },
        ),
    }
}

proof fn lemma_server_failure_sticks(
    servers: Seq<(Seq<char>, Server)>,
    variables: Variables,
    n: int,
)
    requires
        0 <= n <= servers.len(),
    ensures
        expand_servers(servers.take(n), variables) matches Err(e) ==> expand_servers(
            servers,
            variables,
        ) == Err::<Seq<(Seq<char>, Server)>, (Seq<char>, Fault)>(e),
    decreases servers.len(),
{
    if n < servers.len() {
        lemma_server_failure_sticks(servers.drop_last(), variables, n);
        assert(servers.drop_last().take(n) =~= servers.take(n));
    } else {
        assert(servers.take(n) =~= servers);
    }
}

/// Expand the references in every environment value and every header value
/// of the configuration.
///
/// URLs, commands, arguments and names are not interpolated. The first
/// failure is returned with the path of the value that failed.
pub fn interpolate_configuration(config: &mut GatewayConfig, variables: &NameMap<String>) -> (r:
    Result<(), ConfigInterpolationError>)
    ensures
        match expand_servers(old(config)@.servers, variables@) {
            Ok(servers) => r is Ok && final(config)@ == (Gateway { servers, ..old(config)@ }),
            Err(e) => r matches Err(error) && error.field@ == e.0 && error.source@ == e.1,
        },
        final(config)@ == (Gateway {
            servers: servers_so_far(old(config)@.servers, variables@),
            ..old(config)@
        }),
{
    let ghost start = names::deep(config.servers@);
    let n = config.servers.len();
    let mut i: usize = 0;
    assert(start.take(0) =~= Seq::empty());
    while i < n
        invariant
            i <= n,
            n == start.len(),
            n == config.servers@.len(),
            start == names::deep(old(config).servers@),
            config@ == (Gateway { servers: config@.servers, ..old(config)@ }),
            names::deep(config.servers@).skip(i as int) == start.skip(i as int),
            expand_servers(start.take(i as int), variables@) == Ok::<
                Seq<(Seq<char>, Server)>,
                (Seq<char>, Fault),
            >(names::deep(config.servers@).take(i as int)),
        decreases n - i,
    {
        let name = config.servers.key_at(i).clone();
        let ghost before = config.servers@;
        let ghost expected = expand_server(start[i as int].0, start[i as int].1, variables@);
        proof {
            assert(names::deep(config.servers@).skip(i as int)[0] == start.skip(i as int)[0]);
            assert(start.take(i + 1).drop_last() =~= start.take(i as int));
            assert(start.take(i + 1).last() == start[i as int]);
            lemma_server_failure_sticks(start, variables@, i + 1);
        }
        let outcome = interpolate_server(
            name.as_str(),
            config.servers.value_at_mut(i),
            variables,
        );
        match outcome {
            Ok(()) => {},
            Err(e) => {
                proof {
                    let past = names::deep(before);
                    let now = names::deep(config.servers@);
                    let failed = (
                        start[i as int].0,
                        server_so_far(start[i as int].1, variables@),
                    );
                    lemma_servers_so_far(start, variables@, i as int);
                    assert(past.skip(i as int)[0] == past[i as int]);
                    assert(now =~= past.update(i as int, failed));
                    assert(now =~= past.take(i as int).push(failed) + start.skip(i + 1)) by {
                        assert forall|k: int| i < k < n implies now[k] == start[k] by {
                            assert(past.skip(i as int)[k - i] == start.skip(i as int)[k - i]);
                        }
                    }
                }
                return Err(e);
            },
        }
        i = i + 1;
        proof {
            let now = names::deep(config.servers@);
            assert forall|k: int| 0 <= k < n implies #[trigger] now[k] == (if k == i - 1 {
                (start[k].0, expected->Ok_0)
            } else {
                names::deep(before)[k]
            }) by {}
            assert(now.take(i as int) =~= names::deep(before).take(i - 1).push(
                (start[i - 1].0, expected->Ok_0),
            ));
            assert(now.skip(i as int) =~= start.skip(i as int)) by {
                assert forall|k: int| 0 <= k < n - i implies now.skip(i as int)[k] == start.skip(
                    i as int,
                )[k] by {
                    assert(names::deep(before).skip(i - 1)[k + 1] == start.skip(i - 1)[k + 1]);
                }
            }
        }
    }
    proof {
        assert(start.take(n as int) =~= start);
        assert(names::deep(config.servers@).take(n as int) =~= names::deep(config.servers@));
        lemma_all_servers_expanded(start, variables@);
    }
    Ok(())
}

/// Where a server can be expanded, all of its values are.
proof fn lemma_whole_server(name: Seq<char>, s: Server, variables: Variables)
    ensures
        expand_server(name, s, variables) matches Ok(whole) ==> server_so_far(s, variables)
            == whole,
{
    lemma_all_expanded(s.env, variables);
    match s.transport {
        Route::Http { url, headers } => {
            lemma_all_expanded(headers, variables);
        },
        Route::Sse { url, headers } => {
            lemma_all_expanded(headers, variables);
        },
        Route::Stdio { command, args } => {},
    }
}

/// Where every server can be expanded, all are.
proof fn lemma_all_servers_expanded(servers: Seq<(Seq<char>, Server)>, variables: Variables)
    ensures
        expand_servers(servers, variables) matches Ok(all) ==> servers_so_far(servers, variables)
            == all,
    decreases servers.len(),
{
    if servers.len() > 0 {
        lemma_all_servers_expanded(servers.drop_last(), variables);
        lemma_whole_server(servers.last().0, servers.last().1, variables);
    }
}

/// Where the servers before `at` can be expanded and that at `at` cannot, the
/// former are expanded, that one is in part, and the rest stays.
proof fn lemma_servers_so_far(servers: Seq<(Seq<char>, Server)>, variables: Variables, at: int)
    requires
        0 <= at < servers.len(),
        expand_servers(servers.take(at), variables) is Ok,
        expand_server(servers[at].0, servers[at].1, variables) is Err,
    ensures
        servers_so_far(servers, variables) == expand_servers(
            servers.take(at),
            variables,
        )->Ok_0.push((servers[at].0, server_so_far(servers[at].1, variables))) + servers.skip(
            at + 1,
        ),
    decreases servers.len(),
{
    let rest = servers.drop_last();
    let done = expand_servers(servers.take(at), variables)->Ok_0.push(
        (servers[at].0, server_so_far(servers[at].1, variables)),
    );
    if at == servers.len() - 1 {
        assert(rest =~= servers.take(at));
        lemma_all_servers_expanded(rest, variables);
        assert(done =~= done + servers.skip(at + 1));
    } else {
        assert(rest.take(at) =~= servers.take(at));
        lemma_servers_so_far(rest, variables, at);
        assert(rest.take(at + 1).drop_last() =~= rest.take(at));
        assert(rest.take(at + 1).last() == rest[at]);
        lemma_server_failure_sticks(rest, variables, at + 1);
        assert((done + rest.skip(at + 1)).push(servers.last()) =~= done + servers.skip(at + 1));
    }
}

// ---------------------------------------------------------------------------
// Placement of credentials
// ---------------------------------------------------------------------------

/// A credential referenced by a server could not be resolved.
#[derive(Debug)]
pub struct CredentialResolutionError {
    /// The server that referenced the credential.
    pub server: String,
    /// The name of the credential.
    pub credential: String,
    /// Why it could not be resolved.
    pub reason: String,
}

/// The message of a credential that could not be resolved.
pub open spec fn resolution_message(
    credential: Seq<char>,
    server: Seq<char>,
    reason: Seq<char>,
) -> Seq<char> {
    "credential '"@ + credential + "' for server '"@ + server + "' could not be resolved: "@
        + reason
}

impl CredentialResolutionError {
    /// The message shown to operators.
    pub fn message(&self) -> (m: String)
        ensures
            m@ == resolution_message(self.credential@, self.server@, self.reason@),
    {
        let mut m = String::from_str("credential '");
        m.append(self.credential.as_str());
        m.append("' for server '");
        m.append(self.server.as_str());
        m.append("' could not be resolved: ");
        m.append(self.reason.as_str());
        m
    }
}

/// How the credential of a server is applied: as a header for remote
/// servers, as an environment variable for local ones.
pub open spec fn injection_of(s: Server, name: Seq<char>) -> Injection {
    match s.transport {
        Route::Stdio { .. } => Injection::Env { credential_name: name },
        _ => Injection::Header {
            credential_name: name,
            header_name: server::credential_header(s),
            header_prefix: server::credential_prefix(s),
        },
    }
}

/// A server with its credential reference turned into injection metadata.
pub open spec fn injected(s: Server) -> Server {
    match s.credential {
        None => s,
        Some(name) => Server {
            credential: None,
            credential_injection: Some(injection_of(s, name)),
            ..s
        },
    }
}

/// Turn a server's credential reference into injection metadata.
pub fn populate_injection(definition: &ServerDefinition) -> (populated: ServerDefinition)
    ensures
        populated@ == injected(definition@),
{
    let mut populated = definition.duplicate();
    let credential_name = match &definition.credential {
        Some(name) => name.clone(),
        None => {
            return populated;
        },
    };
    let injection = match &definition.transport {
        Transport::Stdio { .. } => CredentialInjection::Env { credential_name },
        _ => CredentialInjection::Header {
            credential_name,
            header_name: definition.resolved_credential_header().to_owned(),
            header_prefix: definition.resolved_credential_prefix().to_owned(),
        },
    };
    populated.credential_injection = Some(injection);
    populated.credential = None;
    populated
}

/// All servers with their credential references turned into metadata.
pub open spec fn inject_all(servers: Seq<(Seq<char>, Server)>) -> Seq<(Seq<char>, Server)> {
    servers.map_values(|e: (Seq<char>, Server)| (e.0, injected(e.1)))
}

/// Turn every server's credential reference into injection metadata.
///
/// The credential values are not fetched here. Operator-supplied headers
/// and environment entries pass through untouched.
pub fn resolve_credentials(config: &GatewayConfig) -> (resolved: GatewayConfig)
    ensures
        resolved@ == (Gateway { servers: inject_all(config@.servers), ..config@ }),
{
    let n = config.servers.len();
    let mut servers: NameMap<ServerDefinition> = NameMap::new();
    let mut i: usize = 0;
    while i < n
        invariant
            i <= n == config.servers@.len(),
            names::distinct(config.servers@),
            servers@.len() == i,
            forall|k: int|
                0 <= k < i ==> (#[trigger] servers@[k]).0 == config.servers@[k].0
                    && servers@[k].1@ == injected(config.servers@[k].1@),
        decreases n - i,
    {
        let name = config.servers.key_at(i).clone();
        let populated = populate_injection(config.servers.value_at(i));
        proof {
            names::lemma_next_name(servers@, config.servers@, populated);
        }
        servers.insert(name, populated);
        i = i + 1;
    }
    assert(names::deep(servers@) =~= inject_all(config@.servers));
    GatewayConfig {
        servers,
        oauth: config.oauth.duplicate(),
        trusted_proxies: server::copy_networks(&config.trusted_proxies),
        client_identity_headers: match &config.client_identity_headers {
            Some(headers) => Some(headers.duplicate()),
            None => None,
        },
        max_body_bytes: config.max_body_bytes,
        authentication: match &config.authentication {
            Some(a) => Some(a.clone()),
            None => None,
        },
    }
}

// ---------------------------------------------------------------------------
// Validation
// ---------------------------------------------------------------------------

/// `server '<name>': <message>`
pub open spec fn server_message(name: Seq<char>, message: Seq<char>) -> Seq<char> {
    "server '"@ + name + "': "@ + message
}

/// What is wrong with a request timeout.
pub open spec fn timeout_faults(name: Seq<char>, timeout: Option<u64>) -> Seq<Seq<char>> {
    match timeout {
        Some(0) => seq![
            server_message(name, "request_timeout_seconds must be greater than zero"@),
        ],
        Some(seconds) if seconds > MAX_REQUEST_TIMEOUT_SECONDS => seq![
            server_message(
                name,
                "request_timeout_seconds must not exceed "@ + text::decimal(
                    MAX_REQUEST_TIMEOUT_SECONDS as nat,
                ),
            ),
        ],
        _ => Seq::empty(),
    }
}

/// What is wrong with the URL of a remote server.
pub open spec fn url_faults(name: Seq<char>, kind: Seq<char>, url: Seq<char>) -> Seq<Seq<char>> {
    if url.len() == 0 {
        seq![server_message(name, kind + " url is empty"@)]
    } else if !text::begins_with(url, "http://"@) && !text::begins_with(url, "https://"@) {
        seq![server_message(name, kind + " url must start with http:// or https://"@)]
    } else {
        Seq::empty()
    }
}

/// What is wrong with a transport.
pub open spec fn transport_faults(name: Seq<char>, t: Route) -> Seq<Seq<char>> {
    match t {
        Route::Stdio { command, .. } => if command.len() == 0 {
            seq![server_message(name, "stdio command is empty"@)]
        } else {
            Seq::empty()
        },
        Route::Http { url, .. } => url_faults(name, "http"@, url),
        Route::Sse { url, .. } => url_faults(name, "sse"@, url),
    }
}

/// What is wrong with one server. A disabled server has no faults.
pub open spec fn server_faults(name: Seq<char>, s: Server) -> Seq<Seq<char>> {
    if s.enabled {
        timeout_faults(name, s.request_timeout_seconds) + transport_faults(name, s.transport)
    } else {
        Seq::empty()
    }
}

/// What is wrong with all servers, in order.
pub open spec fn all_server_faults(servers: Seq<(Seq<char>, Server)>) -> Seq<Seq<char>>
    decreases servers.len(),
{
    if servers.len() == 0 {
        Seq::empty()
    } else {
        all_server_faults(servers.drop_last()) + server_faults(servers.last().0, servers.last().1)
    }
}

/// What is wrong with a configuration.
pub open spec fn config_faults(g: Gateway) -> Seq<Seq<char>> {
    all_server_faults(g.servers) + match g.authentication {
        Some(a) => authentication::faults(a, names::keys(g.servers)),
        None => Seq::empty(),
    }
}

/// Add `server '<name>': <message>` to `errors`.
fn report(errors: &mut Vec<String>, name: &str, message: &str)
    ensures
        text::views(final(errors)@) == text::views(old(errors)@).push(
            server_message(name@, message@),
        ),
{
    let mut line = String::from_str("server '");
    line.append(name);
    line.append("': ");
    line.append(message);
    errors.push(line);
    assert(text::views(errors@) =~= text::views(old(errors)@).push(server_message(name@, message@)));
}

/// Check the URL of a remote server.
fn validate_url(name: &str, kind: &str, url: &str, errors: &mut Vec<String>)
    ensures
        text::views(final(errors)@) == text::views(old(errors)@) + url_faults(name@, kind@, url@),
{
    let mut message = kind.to_owned();
    if url.is_empty() {
        message.append(" url is empty");
        report(errors, name, message.as_str());
    } else if !text::starts_with(url, "http://") && !text::starts_with(url, "https://") {
        message.append(" url must start with http:// or https://");
        report(errors, name, message.as_str());
    }
}

/// Check one server.
fn validate_server(name: &str, definition: &ServerDefinition, errors: &mut Vec<String>)
    ensures
        text::views(final(errors)@) == text::views(old(errors)@) + server_faults(
            name@,
            definition@,
        ),
{
    if !definition.enabled {
        return;
    }
    if let Some(seconds) = definition.request_timeout_seconds {
        if seconds == 0 {
            report(errors, name, "request_timeout_seconds must be greater than zero");
        } else if seconds > MAX_REQUEST_TIMEOUT_SECONDS {
            let mut message = String::from_str("request_timeout_seconds must not exceed ");
            let limit = text::decimal_text(MAX_REQUEST_TIMEOUT_SECONDS);
            message.append(limit.as_str());
            report(errors, name, message.as_str());
        }
    }
    match &definition.transport {
        Transport::Stdio { command, .. } => {
            if command.as_str().is_empty() {
                report(errors, name, "stdio command is empty");
            }
        },
        Transport::Http { url, .. } => {
            validate_url(name, "http", url.as_str(), errors);
        },
        Transport::Sse { url, .. } => {
            validate_url(name, "sse", url.as_str(), errors);
        },
    }
}

/// Validate a gateway configuration and return all errors found.
///
/// Disabled servers are skipped. All errors are collected, so that
/// operators can fix everything in one pass.
pub fn validate(config: &GatewayConfig) -> (errors: Vec<String>)
    ensures
        text::views(errors@) == config_faults(config@),
{
    let mut errors: Vec<String> = Vec::new();
    assert(text::views(errors@) =~= Seq::<Seq<char>>::empty());
    let mut i: usize = 0;
    assert(config@.servers.take(0) =~= Seq::empty());
    while i < config.servers.len()
        invariant
            i <= config.servers@.len(),
            text::views(errors@) == all_server_faults(config@.servers.take(i as int)),
        decreases config.servers@.len() - i,
    {
        let name = config.servers.key_at(i);
        validate_server(name.as_str(), config.servers.value_at(i), &mut errors);
        i = i + 1;
        proof {
            assert(config@.servers.take(i as int).drop_last() =~= config@.servers.take(i - 1));
            assert(config@.servers.take(i as int).last() == config@.servers[i - 1]);
        }
    }
    assert(config@.servers.take(config@.servers.len() as int) =~= config@.servers);
    if let Some(section) = &config.authentication {
        let mut more = authentication::validate(section, &config.servers);
        let ghost before = errors@;
        let ghost extra = more@;
        errors.append(&mut more);
        proof {
            assert(names::keys(config@.servers) =~= names::keys(config.servers@));
            assert(text::views(before + extra) =~= text::views(before) + text::views(extra));
        }
    }
    errors
}

// ---------------------------------------------------------------------------
// Laws
// ---------------------------------------------------------------------------

/// Interpolation touches environment and header values alone, whether it
/// succeeds or fails half-way: the names of the servers, their commands,
/// arguments, URLs, credential references and settings, and the names of the
/// values, are what they were.
pub proof fn interpolation_touches_values_only(
    servers: Seq<(Seq<char>, Server)>,
    variables: Variables,
    i: int,
)
    requires
        0 <= i < servers.len(),
    ensures
        expand_servers(servers, variables) matches Ok(all) ==> servers_so_far(servers, variables)
            == all,
        ({
            let after = servers_so_far(servers, variables);
            let (s, t) = (servers[i].1, after[i].1);
            &&& after.len() == servers.len()
            &&& after[i].0 == servers[i].0
            &&& t == (Server { env: t.env, transport: t.transport, ..s })
            &&& names::keys(t.env) == names::keys(s.env)
            &&& match s.transport {
                Route::Stdio { .. } => t.transport == s.transport,
                Route::Http { url, headers } => t.transport matches Route::Http {
                    url: u,
                    headers: h,
                } && u == url && names::keys(h) == names::keys(headers),
                Route::Sse { url, headers } => t.transport matches Route::Sse {
                    url: u,
                    headers: h,
                } && u == url && names::keys(h) == names::keys(headers),
            }
        }),
    decreases servers.len(),
{
    let s = servers.last().1;
    lemma_all_servers_expanded(servers, variables);
    lemma_servers_len(servers.drop_last(), variables);
    if i < servers.len() - 1 {
        interpolation_touches_values_only(servers.drop_last(), variables, i);
        assert(servers.drop_last()[i] == servers[i]);
    } else {
        lemma_values_keys(s.env, variables);
        match s.transport {
            Route::Stdio { .. } => {},
            Route::Http { url, headers } => {
                lemma_values_keys(headers, variables);
            },
            Route::Sse { url, headers } => {
                lemma_values_keys(headers, variables);
            },
        }
    }
}

proof fn lemma_servers_len(servers: Seq<(Seq<char>, Server)>, variables: Variables)
    ensures
        servers_so_far(servers, variables).len() == servers.len(),
    decreases servers.len(),
{
    if servers.len() > 0 {
        lemma_servers_len(servers.drop_last(), variables);
    }
}

proof fn lemma_values_keys(values: Texts, variables: Variables)
    ensures
        names::keys(expanded_so_far(values, variables)) == names::keys(values),
    decreases values.len(),
{
    if values.len() > 0 {
        let before = expanded_so_far(values.drop_last(), variables);
        let after = expanded_so_far(values, variables);
        lemma_values_keys(values.drop_last(), variables);
        assert(names::keys(after) =~= names::keys(before).push(values.last().0));
        assert(names::keys(values) =~= names::keys(values.drop_last()).push(values.last().0));
    }
}

/// Placing credentials twice changes nothing over placing them once, and
/// leaves the operator's headers, environment and transport as they were.
pub proof fn placement_is_idempotent(s: Server)
    ensures
        injected(injected(s)) == injected(s),
        injected(s).credential is None,
        injected(s).env == s.env,
        injected(s).transport == s.transport,
        s.credential is None ==> injected(s) == s,
{
}

/// Whether nothing is wrong with one server.
pub open spec fn server_is_sound(s: Server) -> bool {
    s.enabled ==> {
        &&& s.request_timeout_seconds matches Some(t) ==> 0 < t <= MAX_REQUEST_TIMEOUT_SECONDS
        &&& match s.transport {
            Route::Stdio { command, .. } => command.len() > 0,
            Route::Http { url, .. } => text::begins_with(url, "http://"@) || text::begins_with(
                url,
                "https://"@,
            ),
            Route::Sse { url, .. } => text::begins_with(url, "http://"@) || text::begins_with(
                url,
                "https://"@,
            ),
        }
    }
}

proof fn lemma_sound_server(name: Seq<char>, s: Server)
    ensures
        server_faults(name, s).len() == 0 <==> server_is_sound(s),
{
    reveal_strlit("http://");
    reveal_strlit("https://");
}

proof fn lemma_sound_servers(servers: Seq<(Seq<char>, Server)>)
    ensures
        all_server_faults(servers).len() == 0 <==> forall|i: int|
            0 <= i < servers.len() ==> server_is_sound((#[trigger] servers[i]).1),
    decreases servers.len(),
{
    if servers.len() > 0 {
        let n = servers.len() - 1;
        lemma_sound_servers(servers.drop_last());
        lemma_sound_server(servers.last().0, servers.last().1);
        if forall|i: int| 0 <= i < servers.len() ==> server_is_sound((#[trigger] servers[i]).1) {
            assert(server_is_sound(servers[n].1));
            assert forall|i: int| 0 <= i < n implies server_is_sound(
                (#[trigger] servers.drop_last()[i]).1,
            ) by {
                assert(servers.drop_last()[i] == servers[i]);
            }
        } else {
            let i = choose|i: int|
                0 <= i < servers.len() && !server_is_sound((#[trigger] servers[i]).1);
            if i < n {
                assert(servers.drop_last()[i] == servers[i]);
            }
        }
    }
}

/// Validation reports nothing exactly where every server is sound and the
/// authentication section, if there is one, is acceptable.
pub proof fn no_faults_iff_sound(g: Gateway)
    ensures
        config_faults(g).len() == 0 <==> {
            &&& forall|i: int|
                0 <= i < g.servers.len() ==> server_is_sound((#[trigger] g.servers[i]).1)
            &&& g.authentication matches Some(a) ==> authentication::acceptable(
                a,
                names::keys(g.servers),
            )
        },
{
    lemma_sound_servers(g.servers);
    if let Some(a) = g.authentication {
        authentication::no_faults_iff_acceptable(a, names::keys(g.servers));
    }
}

/// Values are expanded one by one: all of them where every one can be, each
/// under its own name, and otherwise the failure is that of the first that
/// cannot be, by its name.
pub proof fn values_are_expanded_one_by_one(values: Texts, variables: Variables, i: int)
    requires
        0 <= i < values.len(),
        forall|k: int|
            0 <= k < i ==> interpolate::expanded((#[trigger] values[k]).1, variables) is Ok,
    ensures
        interpolate::expanded(values[i].1, variables) matches Err(fault) ==> {
            &&& expand_values(values, variables) == Err::<Texts, _>((values[i].0, fault))
            &&& expanded_so_far(values, variables).len() == values.len()
            &&& forall|k: int|
                0 <= k < values.len() ==> #[trigger] expanded_so_far(values, variables)[k] == if k
                    < i {
                    (values[k].0, interpolate::expanded(values[k].1, variables)->Ok_0)
                } else {
                    values[k]
                }
        },
        i == values.len() - 1 && interpolate::expanded(values[i].1, variables) is Ok ==> {
            &&& expand_values(values, variables) matches Ok(all) && all.len() == values.len()
                && expanded_so_far(values, variables) == all && forall|k: int|
                0 <= k < values.len() ==> #[trigger] all[k] == (
                    values[k].0,
                    interpolate::expanded(values[k].1, variables)->Ok_0,
                )
        },
    decreases values.len(),
{
    let first = values.drop_last();
    let n = values.len() - 1;
    assert forall|k: int| 0 <= k < n implies #[trigger] first[k] == values[k] by {}
    if i < n {
        values_are_expanded_one_by_one(first, variables, i);
    } else if n > 0 {
        assert(interpolate::expanded(values[n - 1].1, variables) is Ok);
        assert forall|k: int| 0 <= k < n - 1 implies interpolate::expanded(
            (#[trigger] first[k]).1,
            variables,
        ) is Ok by {
            assert(first[k] == values[k]);
        }
        values_are_expanded_one_by_one(first, variables, n - 1);
    } else {
        assert(first =~= Seq::empty());
        assert(expand_values(first, variables) == Ok::<Texts, (Seq<char>, Fault)>(Seq::empty()));
    }
}

/// A server is expanded in its environment and then in its headers, and a
/// failure is reported under the path of the value that failed.
pub proof fn failures_are_reported_by_their_path(
    name: Seq<char>,
    s: Server,
    variables: Variables,
    key: Seq<char>,
    fault: Fault,
)
    ensures
        expand_values(s.env, variables) == Err::<Texts, _>((key, fault)) ==> expand_server(
            name,
            s,
            variables,
        ) == Err::<Server, _>(("servers."@ + name + ".env."@ + key, fault)) && server_so_far(
            s,
            variables,
        ) == (Server { env: expanded_so_far(s.env, variables), ..s }),
        expand_values(s.env, variables) matches Ok(env) ==> match s.transport {
            Route::Stdio { command, args } => expand_server(name, s, variables) == Ok::<
                _,
                (Seq<char>, Fault),
            >(Server { env, ..s }),
            Route::Http { url, headers } => match expand_values(headers, variables) {
                Ok(h) => expand_server(name, s, variables) == Ok::<_, (Seq<char>, Fault)>(
                    Server { env, transport: Route::Http { url, headers: h }, ..s },
                ),
                Err((k, f)) => expand_server(name, s, variables) == Err::<Server, _>(
                    ("servers."@ + name + ".headers."@ + k, f),
                ),
            },
            Route::Sse { url, headers } => match expand_values(headers, variables) {
                Ok(h) => expand_server(name, s, variables) == Ok::<_, (Seq<char>, Fault)>(
                    Server { env, transport: Route::Sse { url, headers: h }, ..s },
                ),
                Err((k, f)) => expand_server(name, s, variables) == Err::<Server, _>(
                    ("servers."@ + name + ".headers."@ + k, f),
                ),
            },
        },
{
}

/// Servers are expanded one by one: all of them where every one can be, and
/// otherwise the failure is that of the first that cannot be.
pub proof fn servers_are_expanded_one_by_one(
    servers: Seq<(Seq<char>, Server)>,
    variables: Variables,
    i: int,
)
    requires
        0 <= i < servers.len(),
        forall|k: int|
            0 <= k < i ==> expand_server((#[trigger] servers[k]).0, servers[k].1, variables) is Ok,
    ensures
        expand_server(servers[i].0, servers[i].1, variables) matches Err(e) ==> expand_servers(
            servers,
            variables,
        ) == Err::<Seq<(Seq<char>, Server)>, _>(e),
        i == servers.len() - 1 && expand_server(servers[i].0, servers[i].1, variables) is Ok ==> (
        expand_servers(servers, variables) matches Ok(all) && all.len() == servers.len() && forall|
            k: int,
        |
            0 <= k < servers.len() ==> #[trigger] all[k] == (
                servers[k].0,
                expand_server(servers[k].0, servers[k].1, variables)->Ok_0,
            )),
    decreases servers.len(),
{
    let first = servers.drop_last();
    let n = servers.len() - 1;
    assert forall|k: int| 0 <= k < n implies #[trigger] first[k] == servers[k] by {}
    if i < n {
        servers_are_expanded_one_by_one(first, variables, i);
    } else if n > 0 {
        assert(expand_server(servers[n - 1].0, servers[n - 1].1, variables) is Ok);
        assert forall|k: int| 0 <= k < n - 1 implies expand_server(
            (#[trigger] first[k]).0,
            first[k].1,
            variables,
        ) is Ok by {
            assert(first[k] == servers[k]);
        }
        servers_are_expanded_one_by_one(first, variables, n - 1);
    } else {
        assert(first =~= Seq::empty());
        assert(expand_servers(first, variables) == Ok::<
            Seq<(Seq<char>, Server)>,
            (Seq<char>, Fault),
        >(Seq::empty()));
    }
}

/// A credential goes into the environment of a local server and into a header
/// of a remote one: the configured header with the configured prefix, or
/// `Authorization` with `Bearer`. Nothing else of the server changes, and
/// each server keeps its name and its place.
pub proof fn credentials_go_where_the_transport_takes_them(
    s: Server,
    name: Seq<char>,
    servers: Seq<(Seq<char>, Server)>,
    i: int,
)
    requires
        s.credential == Some(name),
    ensures
        injected(s) == (Server {
            credential: None,
            credential_injection: injected(s).credential_injection,
            ..s
        }),
        s.transport is Stdio ==> injected(s).credential_injection == Some(
            Injection::Env { credential_name: name },
        ),
        !(s.transport is Stdio) ==> (injected(s).credential_injection matches Some(
            Injection::Header { credential_name, header_name, header_prefix },
        ) && {
            &&& credential_name == name
            &&& s.credential_header matches Some(h) ==> header_name == h
            &&& s.credential_header is None ==> header_name == "Authorization"@
            &&& s.credential_prefix matches Some(p) ==> header_prefix == p
            &&& s.credential_prefix is None ==> header_prefix == "Bearer "@
        }),
        inject_all(servers).len() == servers.len(),
        0 <= i < servers.len() ==> inject_all(servers)[i] == (
            servers[i].0,
            injected(servers[i].1),
        ),
{
}

/// A disabled server is not looked at. An enabled one is reported for a
/// request timeout of zero or above the longest one, for an empty command,
/// and for a URL that begins with neither `http://` nor `https://`, each
/// once, and every report names the server.
pub proof fn servers_are_reported_for_what_would_not_run(name: Seq<char>, s: Server, i: int)
    ensures
        ({
            let slow = match s.request_timeout_seconds {
                Some(t) => t == 0 || t > MAX_REQUEST_TIMEOUT_SECONDS,
                None => false,
            };
            let web = |url: Seq<char>|
                (exists|rest: Seq<char>| url == #[trigger] ("http://"@ + rest)) || (exists|
                    rest: Seq<char>,
                |
                    url == #[trigger] ("https://"@ + rest));
            let lost = match s.transport {
                Route::Stdio { command, .. } => command.len() == 0,
                Route::Http { url, .. } => !web(url),
                Route::Sse { url, .. } => !web(url),
            };
            let faults = server_faults(name, s);
            &&& !s.enabled ==> faults.len() == 0
            &&& s.enabled ==> faults.len() == (if slow {
                1int
            } else {
                0int
            }) + (if lost {
                1int
            } else {
                0int
            })
            &&& 0 <= i < faults.len() ==> text::mentions(faults[i], name)
        }),
{
    reveal_strlit("http://");
    reveal_strlit("https://");
    assert forall|url: Seq<char>, p: Seq<char>| #[trigger] text::begins_with(url, p) <==> exists|
        rest: Seq<char>,
    |
        url == #[trigger] (p + rest) by {
        if text::begins_with(url, p) {
            assert(url =~= p + url.skip(p.len() as int));
        }
        if exists|rest: Seq<char>| url == #[trigger] (p + rest) {
            let rest = choose|rest: Seq<char>| url == #[trigger] (p + rest);
            assert(url.take(p.len() as int) =~= p);
        }
    }
    let url = match s.transport {
        Route::Stdio { command, .. } => command,
        Route::Http { url, .. } => url,
        Route::Sse { url, .. } => url,
    };
    assert(text::begins_with(url, "http://"@) <==> exists|rest: Seq<char>|
        url == #[trigger] ("http://"@ + rest));
    assert(text::begins_with(url, "https://"@) <==> exists|rest: Seq<char>|
        url == #[trigger] ("https://"@ + rest));
    assert forall|m: Seq<char>| text::mentions(#[trigger] server_message(name, m), name) by {
        assert(server_message(name, m) =~= "server '"@ + name + ("': "@ + m));
        text::lemma_mentions("server '"@, name, "': "@ + m);
    }
}

/// The reports on a configuration are those on its servers, in their order,
/// and then those on its authentication section.
pub proof fn reports_come_server_by_server(
    a: Seq<(Seq<char>, Server)>,
    b: Seq<(Seq<char>, Server)>,
    one: (Seq<char>, Server),
    g: Gateway,
)
    ensures
        all_server_faults(a + b) == all_server_faults(a) + all_server_faults(b),
        all_server_faults(seq![one]) == server_faults(one.0, one.1),
        g.authentication is None ==> config_faults(g) == all_server_faults(g.servers),
        g.authentication matches Some(section) ==> config_faults(g) == all_server_faults(g.servers)
            + authentication::faults(section, names::keys(g.servers)),
    decreases b.len(),
{
    reveal_with_fuel(all_server_faults, 2);
    assert(seq![one].drop_last() =~= Seq::empty());
    assert(all_server_faults(seq![one]) =~= server_faults(one.0, one.1));
    assert(all_server_faults(g.servers) + Seq::<Seq<char>>::empty() =~= all_server_faults(g.servers));
    if b.len() == 0 {
        assert(a + b =~= a);
        assert(all_server_faults(a) + all_server_faults(b) =~= all_server_faults(a));
    } else {
        assert((a + b).drop_last() =~= a + b.drop_last());
        assert((a + b).last() == b.last());
        reports_come_server_by_server(a, b.drop_last(), one, g);
        assert(all_server_faults(a + b) =~= all_server_faults(a) + all_server_faults(b));
    }
}

/// The messages of the configuration name what they are about.
pub proof fn configuration_messages_name_their_subject(
    a: Seq<char>,
    b: Seq<char>,
    c: Seq<char>,
    fault: Fault,
)
    ensures
        text::mentions(interpolation_message(a, fault), a),
        text::mentions(interpolation_message(a, fault), interpolate::fault_message(fault)),
        text::mentions(resolution_message(a, b, c), a),
        text::mentions(resolution_message(a, b, c), b),
        text::mentions(resolution_message(a, b, c), c),
{
    let none = Seq::<char>::empty();
    let shown = interpolate::fault_message(fault);
    let lead = "failed to interpolate "@;
    assert(lead + a + ": "@ + shown =~= lead + a + (": "@ + shown));
    text::lemma_mentions(lead, a, ": "@ + shown);
    text::lemma_mentions(lead + a + ": "@, shown, none);
    let (lead, then, end) = ("credential '"@, "' for server '"@, "' could not be resolved: "@);
    let m = lead + a + then + b + end + c;
    assert(m =~= lead + a + (then + b + end + c));
    text::lemma_mentions(lead, a, then + b + end + c);
    assert(m =~= lead + a + then + b + (end + c));
    text::lemma_mentions(lead + a + then, b, end + c);
    text::lemma_mentions(lead + a + then + b + end, c, none);
}

/// Where expansion fails, every server before the first that fails is
/// expanded, that one is expanded up to the value that fails, and every later
/// one is as it was.
pub proof fn a_failure_stops_the_expansion(
    servers: Seq<(Seq<char>, Server)>,
    variables: Variables,
    i: int,
    k: int,
)
    requires
        0 <= i < servers.len(),
        0 <= k < servers.len(),
        forall|j: int|
            0 <= j < i ==> expand_server((#[trigger] servers[j]).0, servers[j].1, variables) is Ok,
        expand_server(servers[i].0, servers[i].1, variables) is Err,
    ensures
        ({
            let after = servers_so_far(servers, variables);
            &&& after.len() == servers.len()
            &&& k < i ==> after[k] == (
                servers[k].0,
                expand_server(servers[k].0, servers[k].1, variables)->Ok_0,
            )
            &&& k > i ==> after[k] == servers[k]
            &&& k == i ==> {
                let (s, t) = (servers[k].1, after[k].1);
                &&& after[k].0 == servers[k].0
                &&& t.env == expanded_so_far(s.env, variables)
                &&& expand_values(s.env, variables) is Err ==> t.transport == s.transport
                &&& expand_values(s.env, variables) is Ok ==> match s.transport {
                    Route::Stdio { .. } => t.transport == s.transport,
                    Route::Http { url, headers } => t.transport == (Route::Http {
                        url,
                        headers: expanded_so_far(headers, variables),
                    }),
                    Route::Sse { url, headers } => t.transport == (Route::Sse {
                        url,
                        headers: expanded_so_far(headers, variables),
                    }),
                }
            }
        }),
    decreases servers.len(),
{
    let first = servers.drop_last();
    let n = servers.len() - 1;
    assert forall|j: int| 0 <= j < n implies #[trigger] first[j] == servers[j] by {}
    lemma_servers_len(first, variables);
    if i < n {
        servers_are_expanded_one_by_one(first, variables, i);
        if k < n {
            a_failure_stops_the_expansion(first, variables, i, k);
        }
    } else if n > 0 {
        assert(expand_server(servers[n - 1].0, servers[n - 1].1, variables) is Ok);
        assert forall|j: int| 0 <= j < n - 1 implies expand_server(
            (#[trigger] first[j]).0,
            first[j].1,
            variables,
        ) is Ok by {
            assert(first[j] == servers[j]);
        }
        servers_are_expanded_one_by_one(first, variables, n - 1);
        lemma_all_servers_expanded(first, variables);
        if k < n {
            assert(expand_servers(first, variables)->Ok_0[k] == servers_so_far(first, variables)[k]);
        }
    } else {
        assert(first =~= Seq::empty());
        assert(expand_servers(first, variables) is Ok);
    }
}

} // verus!

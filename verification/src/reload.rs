//! Preparation of a configuration, and its installation in a running gateway.

use vstd::prelude::*;

use crate::chain::CredentialError;
use crate::config;
use crate::console::{ConsoleError, ConsoleFault};
use crate::load::ConfigError;
use crate::names;
use crate::order;
use crate::references;
use crate::references::{Progress, Resolving};
use crate::resolver;
use crate::resolver::{Resolver, Sources};
use crate::secret::Secret;
use crate::server::{Gateway, GatewayConfig};
use crate::text;

verus! {

// ---------------------------------------------------------------------------
// Preparation
// ---------------------------------------------------------------------------

/// A configuration whose credentials are being resolved.
pub struct Preparation {
    config: GatewayConfig,
    resolving: Resolving,
}

/// A preparation as a mathematical value.
pub struct Prepared {
    pub config: Gateway,
    pub progress: Progress,
}

impl View for Preparation {
    type V = Prepared;

    closed spec fn view(&self) -> Prepared {
        Prepared { config: self.config@, progress: self.resolving@ }
    }
}

/// What is resolved is what the configuration refers to, in order.
pub open spec fn consistent(p: Prepared) -> bool {
    &&& references::in_order(p.progress)
    &&& order::ascending(names::keys(p.progress.references))
    &&& forall|n: Seq<char>| #[trigger]
        names::find(p.progress.references, n) == references::context_of(p.config, n)
}

/// The preparation with the value of the current credential.
pub open spec fn with_value(p: Prepared, value: Seq<char>) -> Prepared {
    Prepared { progress: references::with_value(p.progress, value), ..p }
}

/// What the failure of the current resolution is reported as.
pub open spec fn resolution_fault(p: Prepared, reason: Seq<char>) -> ConsoleFault {
    let (credential, context) = references::current(p.progress);
    ConsoleFault::AppState(config::resolution_message(credential, context, reason))
}

/// The resolver of a configuration whose credentials are resolved.
pub open spec fn sources(p: Prepared) -> Sources {
    resolver::sources_of(p.progress.secrets, p.config.oauth)
}

impl Preparation {
    /// What is resolved is what the configuration refers to.
    #[verifier::type_invariant]
    pub closed spec fn well_formed(self) -> bool {
        consistent(self@)
    }

    /// Begin to prepare a configuration.
    pub fn new(config: GatewayConfig) -> (p: Self)
        ensures
            p@.config == config@,
            p@.progress.secrets == Seq::<(Seq<char>, Seq<char>)>::empty(),
            consistent(p@),
    {
        let found = references::collect_credential_references(&config);
        proof {
            assert(names::keys(names::deep(found@)) =~= names::keys(found@));
        }
        let resolving = references::resolve_all(found);
        proof {
            use_type_invariant(&resolving);
            resolving.lemma_in_order();
        }
        Preparation { config, resolving }
    }

    /// Whether every credential is resolved.
    pub fn is_complete(&self) -> (b: bool)
        ensures
            b == references::complete(self@.progress),
    {
        self.resolving.is_complete()
    }

    /// The name of the credential that is resolved next.
    pub fn next_credential(&self) -> (name: Option<&str>)
        ensures
            match name {
                Some(n) => !references::complete(self@.progress) && n@ == references::current(
                    self@.progress,
                ).0,
                None => references::complete(self@.progress),
            },
    {
        self.resolving.next_credential()
    }

    /// Take the outcome of the current resolution.
    pub fn step(self, outcome: Result<Secret, CredentialError>) -> (r: Result<
        Preparation,
        ConsoleError,
    >)
        requires
            !references::complete(self@.progress),
        ensures
            match outcome {
                Ok(secret) => r matches Ok(p) && p@ == with_value(self@, secret@),
                Err(e) => r matches Err(error) && error@ == resolution_fault(
                    self@,
                    crate::chain::fault_message(e@),
                ),
            },
    {
        proof {
            use_type_invariant(&self);
        }
        let Preparation { config, mut resolving } = self;
        match resolving.step(outcome) {
            Ok(()) => {
                proof {
                    use_type_invariant(&resolving);
                    resolving.lemma_in_order();
                }
                Ok(Preparation { config, resolving })
            },
            Err(e) => Err(ConsoleError::AppState(e.message())),
        }
    }

    /// The configuration and its resolver.
    pub fn finish(self) -> (r: (GatewayConfig, Resolver))
        requires
            references::complete(self@.progress),
        ensures
            r.0@ == self@.config,
            r.1@ == sources(self@),
    {
        proof {
            use_type_invariant(&self);
            references::client_secrets_are_always_resolved(self@.config, self@.progress);
        }
        let Preparation { config, resolving } = self;
        let secrets = resolving.into_secrets();
        let resolver = resolver::build_resolver(secrets, &config.oauth);
        (config, resolver)
    }
}

// ---------------------------------------------------------------------------
// Reload
// ---------------------------------------------------------------------------

/// What a running gateway serves with.
pub struct Installed {
    pub config: GatewayConfig,
    pub resolver: Resolver,
}

impl View for Installed {
    type V = (Gateway, Sources);

    open spec fn view(&self) -> (Gateway, Sources) {
        (self.config@, self.resolver@)
    }
}

/// A reload cycle.
pub enum ReloadHandle {
    /// The configuration is being loaded.
    Loading,
    /// Its credentials are being resolved.
    Resolving(Preparation),
    /// The routes to its servers are being built.
    Building(Installed),
    /// The cycle has ended.
    Ended,
}

/// A reload cycle as a mathematical value.
pub enum Cycle {
    Loading,
    Resolving(Prepared),
    Building((Gateway, Sources)),
    Ended,
}

impl View for ReloadHandle {
    type V = Cycle;

    open spec fn view(&self) -> Cycle {
        match self {
            ReloadHandle::Loading => Cycle::Loading,
            ReloadHandle::Resolving(p) => Cycle::Resolving(p@),
            ReloadHandle::Building(c) => Cycle::Building(c@),
            ReloadHandle::Ended => Cycle::Ended,
        }
    }
}

/// What happened in a reload cycle.
pub enum ReloadEvent {
    /// The configuration was or was not loaded.
    Loaded(Result<GatewayConfig, ConfigError>),
    /// The current credential was or was not resolved.
    Resolved(Result<Secret, CredentialError>),
    /// The routes were or were not built.
    Built(Result<(), String>),
}

/// What has to be done next in a reload cycle.
#[derive(Debug)]
pub enum ReloadAction {
    /// Resolve this credential.
    Resolve(String),
    /// Build the routes.
    Build,
    /// Nothing: the cycle has ended.
    Finished(Result<(), ConsoleError>),
}

/// What has to be done next, as a mathematical value.
pub enum ReloadNext {
    Resolve(Seq<char>),
    Build,
    Finished(Result<(), ConsoleFault>),
}

impl View for ReloadAction {
    type V = ReloadNext;

    open spec fn view(&self) -> ReloadNext {
        match self {
            ReloadAction::Resolve(name) => ReloadNext::Resolve(name@),
            ReloadAction::Build => ReloadNext::Build,
            ReloadAction::Finished(Ok(())) => ReloadNext::Finished(Ok(())),
            ReloadAction::Finished(Err(e)) => ReloadNext::Finished(Err(e@)),
        }
    }
}

/// Whether an event can happen in a cycle.
pub open spec fn expected(cycle: Cycle, event: ReloadEvent) -> bool {
    match cycle {
        Cycle::Loading => event is Loaded,
        Cycle::Resolving(p) => event is Resolved && !references::complete(p.progress),
        Cycle::Building(_) => event is Built,
        Cycle::Ended => false,
    }
}

/// The cycle once a preparation has come as far as `p`.
pub open spec fn continued(p: Prepared) -> (Cycle, ReloadNext) {
    if references::complete(p.progress) {
        (Cycle::Building((p.config, sources(p))), ReloadNext::Build)
    } else {
        (Cycle::Resolving(p), ReloadNext::Resolve(references::current(p.progress).0))
    }
}

/// The preparation of a configuration of which nothing is resolved yet.
pub open spec fn begun(p: Prepared, config: Gateway) -> bool {
    &&& p.config == config
    &&& p.progress.secrets.len() == 0
    &&& consistent(p)
}

/// The end of a cycle with an error.
pub open spec fn failed(f: ConsoleFault) -> (Cycle, ReloadNext) {
    (Cycle::Ended, ReloadNext::Finished(Err(f)))
}

/// Where an event takes a cycle, and what is then installed.
pub open spec fn reloads_to(
    cycle: Cycle,
    event: ReloadEvent,
    before: (Gateway, Sources),
    next: (Cycle, ReloadNext),
    after: (Gateway, Sources),
) -> bool {
    match (cycle, event) {
        (Cycle::Loading, ReloadEvent::Loaded(Ok(config))) => after == before && exists|
            p: Prepared,
        |
            begun(p, config@) && next == #[trigger] continued(p),
        (Cycle::Loading, ReloadEvent::Loaded(Err(e))) => after == before && next == failed(
            ConsoleFault::Config(e@),
        ),
        (Cycle::Resolving(p), ReloadEvent::Resolved(Ok(secret))) => after == before && next
            == continued(with_value(p, secret@)),
        (Cycle::Resolving(p), ReloadEvent::Resolved(Err(e))) => after == before && next == failed(
            resolution_fault(p, crate::chain::fault_message(e@)),
        ),
        (Cycle::Building(candidate), ReloadEvent::Built(Ok(()))) => after == candidate && next == (
            Cycle::Ended,
            ReloadNext::Finished(Ok(())),
        ),
        (Cycle::Building(candidate), ReloadEvent::Built(Err(reason))) => after == before && next
            == failed(ConsoleFault::AppState(reason@)),
        _ => false,
    }
}

impl ReloadHandle {
    /// A cycle that starts with loading the configuration.
    pub fn new() -> (handle: Self)
        ensures
            handle@ == Cycle::Loading,
    {
        ReloadHandle::Loading
    }

    /// What is about to be installed, for the building of its routes.
    pub fn candidate(&self) -> (candidate: Option<&Installed>)
        ensures
            match candidate {
                Some(c) => self@ == Cycle::Building(c@),
                None => !(self@ is Building),
            },
    {
        match self {
            ReloadHandle::Building(c) => Some(c),
            _ => None,
        }
    }

    fn proceed(p: Preparation) -> (r: (ReloadHandle, ReloadAction))
        ensures
            (r.0@, r.1@) == continued(p@),
    {
        match p.next_credential() {
            Some(name) => {
                let action = ReloadAction::Resolve(name.to_owned());
                (ReloadHandle::Resolving(p), action)
            },
            None => {
                let (config, resolver) = p.finish();
                (ReloadHandle::Building(Installed { config, resolver }), ReloadAction::Build)
            },
        }
    }

    /// Take an event. What is installed changes only when everything has
    /// succeeded.
    pub fn reload(self, event: ReloadEvent, installed: &mut Installed) -> (r: (
        ReloadHandle,
        ReloadAction,
    ))
        requires
            expected(self@, event),
        ensures
            reloads_to(self@, event, old(installed)@, (r.0@, r.1@), final(installed)@),
    {
        match (self, event) {
            (ReloadHandle::Loading, ReloadEvent::Loaded(Ok(config))) => {
                let p = Preparation::new(config);
                proof {
                    assert(begun(p@, config@));
                }
                Self::proceed(p)
            },
            (ReloadHandle::Loading, ReloadEvent::Loaded(Err(e))) => (
                ReloadHandle::Ended,
                ReloadAction::Finished(Err(ConsoleError::Config(e))),
            ),
            (ReloadHandle::Resolving(p), ReloadEvent::Resolved(outcome)) => match p.step(outcome) {
                Ok(p) => Self::proceed(p),
                Err(e) => (ReloadHandle::Ended, ReloadAction::Finished(Err(e))),
            },
            (ReloadHandle::Building(candidate), ReloadEvent::Built(Ok(()))) => {
                *installed = candidate;
                (ReloadHandle::Ended, ReloadAction::Finished(Ok(())))
            },
            (ReloadHandle::Building(_), ReloadEvent::Built(Err(reason))) => (
                ReloadHandle::Ended,
                ReloadAction::Finished(Err(ConsoleError::AppState(reason))),
            ),
            _ => {
                assert(false);
                (ReloadHandle::Ended, ReloadAction::Build)
            },
        }
    }
}

// ---------------------------------------------------------------------------
// Laws
// ---------------------------------------------------------------------------

/// A reload that fails, at whatever point, leaves the gateway with what it
/// had; what is installed changes only at the very end of a cycle, and then
/// it is what the cycle prepared.
pub proof fn failed_reloads_keep_what_is_installed(
    cycle: Cycle,
    event: ReloadEvent,
    before: (Gateway, Sources),
    next: (Cycle, ReloadNext),
    after: (Gateway, Sources),
)
    requires
        reloads_to(cycle, event, before, next, after),
    ensures
        next.1 != ReloadNext::Finished(Ok::<(), ConsoleFault>(())) ==> after == before,
        next.1 == ReloadNext::Finished(Ok::<(), ConsoleFault>(())) ==> cycle == Cycle::Building(
            after,
        ),
{
    if let (Cycle::Loading, ReloadEvent::Loaded(Ok(config))) = (cycle, event) {
        let p = choose|p: Prepared| begun(p, config@) && next == #[trigger] continued(p);
        assert(next == continued(p));
    }
}

/// The beginning of a preparation is determined by the configuration: the
/// same credentials are asked for, in the same order.
pub proof fn preparations_begin_alike(p: Prepared, q: Prepared, config: Gateway)
    requires
        begun(p, config),
        begun(q, config),
    ensures
        p == q,
{
    let a = p.progress.references;
    let b = q.progress.references;
    assert forall|n: Seq<char>| #[trigger] names::keys(a).contains(n) <==> names::keys(b).contains(
        n,
    ) by {
        assert(names::find(a, n) == references::context_of(config, n));
        assert(names::find(b, n) == references::context_of(config, n));
        names::lemma_has_key(a, n);
        names::lemma_has_key(b, n);
        names::lemma_position(a, n);
        names::lemma_position(b, n);
    }
    assert(names::keys(a).to_set() =~= names::keys(b).to_set());
    order::ascending_lists_are_unique(names::keys(a), names::keys(b));
    assert(names::keys(a).len() == a.len());
    assert(names::keys(b).len() == b.len());
    assert forall|i: int| 0 <= i < a.len() implies a[i] == b[i] by {
        assert(names::keys(a)[i] == names::keys(b)[i]);
        assert(names::find(a, a[i].0) == names::find(b, a[i].0));
        assert forall|k: int| 0 <= k < i implies (#[trigger] a[k]).0 != a[i].0 by {
            assert(a[k].0 != a[i].0);
        }
        assert forall|k: int| 0 <= k < i implies (#[trigger] b[k]).0 != b[i].0 by {
            assert(b[k].0 != b[i].0);
        }
        names::lemma_position_is(a, a[i].0, i);
        names::lemma_position_is(b, b[i].0, i);
    }
    assert(a =~= b);
    assert(p.progress.secrets =~= q.progress.secrets);
}

/// A cycle goes on to the next credential until every one is resolved, and
/// then to the building of its routes, with the configuration that was loaded
/// and the resolver of its values.
pub proof fn cycles_resolve_before_they_build(p: Prepared)
    ensures
        p.progress.secrets.len() == p.progress.references.len() ==> continued(p) == (
            Cycle::Building(
                (p.config, resolver::sources_of(p.progress.secrets, p.config.oauth)),
            ),
            ReloadNext::Build,
        ),
        p.progress.secrets.len() < p.progress.references.len() ==> continued(p) == (
            Cycle::Resolving(p),
            ReloadNext::Resolve(p.progress.references[p.progress.secrets.len() as int].0),
        ),
{
}

/// A preparation begins with the configuration as it is and without any value,
/// and asks for the credentials that the configuration refers to, in
/// ascending order.
pub proof fn preparations_begin_with_the_references(
    p: Prepared,
    config: Gateway,
    name: Seq<char>,
    i: int,
    j: int,
)
    requires
        begun(p, config),
    ensures
        p.config == config,
        p.progress.secrets.len() == 0,
        names::find(p.progress.references, name) == references::context_of(config, name),
        0 <= i < j < p.progress.references.len() ==> order::before(
            p.progress.references[i].0,
            p.progress.references[j].0,
        ),
{
    if 0 <= i < j < p.progress.references.len() {
        let all = names::keys(p.progress.references);
        assert(order::before(all[i], all[j]));
    }
}

/// A cycle ends with the error of the step that failed: of the loading, of the
/// resolution of a credential, by its name and the server that needs it, or
/// of the building. It ends with success only after the building, and what
/// was prepared is then installed.
pub proof fn cycles_end_with_what_happened(
    cycle: Cycle,
    event: ReloadEvent,
    before: (Gateway, Sources),
    next: (Cycle, ReloadNext),
    after: (Gateway, Sources),
)
    requires
        reloads_to(cycle, event, before, next, after),
    ensures
        event matches ReloadEvent::Loaded(Err(e)) ==> next == (
            Cycle::Ended,
            ReloadNext::Finished(Err::<(), _>(ConsoleFault::Config(e@))),
        ),
        event matches ReloadEvent::Loaded(Ok(config)) ==> exists|p: Prepared|
            begun(p, config@) && next == #[trigger] continued(p),
        event matches ReloadEvent::Resolved(Ok(secret)) ==> (cycle matches Cycle::Resolving(p)
            && next == continued(
            Prepared { progress: references::with_value(p.progress, secret@), ..p },
        )),
        event matches ReloadEvent::Resolved(Err(e)) ==> (cycle matches Cycle::Resolving(p) && next.0
            == Cycle::Ended && (next.1 matches ReloadNext::Finished(Err(ConsoleFault::AppState(m)))
            && text::mentions(m, references::current(p.progress).0) && text::mentions(
            m,
            references::current(p.progress).1,
        ) && text::mentions(m, crate::chain::fault_message(e@)))),
        event matches ReloadEvent::Built(Ok(())) ==> cycle == Cycle::Building(after) && next == (
            Cycle::Ended,
            ReloadNext::Finished(Ok::<(), ConsoleFault>(())),
        ),
        event matches ReloadEvent::Built(Err(reason)) ==> after == before && next == (
            Cycle::Ended,
            ReloadNext::Finished(Err::<(), _>(ConsoleFault::AppState(reason@))),
        ),
        !(event matches ReloadEvent::Built(Ok(()))) ==> after == before,
{
    if let (Cycle::Resolving(p), ReloadEvent::Resolved(Err(e))) = (cycle, event) {
        let (credential, context) = references::current(p.progress);
        let fault = crate::interpolate::Fault::Missing(credential);
        config::configuration_messages_name_their_subject(
            credential,
            context,
            crate::chain::fault_message(e@),
            fault,
        );
    }
}

/// A cycle expects what it has asked for, and nothing once it has ended.
pub proof fn cycles_expect_what_they_ask_for(
    p: Prepared,
    candidate: (Gateway, Sources),
    event: ReloadEvent,
)
    ensures
        expected(Cycle::Loading, event) <==> event is Loaded,
        p.progress.secrets.len() != p.progress.references.len() ==> (expected(
            Cycle::Resolving(p),
            event,
        ) <==> event is Resolved),
        expected(Cycle::Building(candidate), event) <==> event is Built,
        !expected(Cycle::Ended, event),
{
}

} // verus!

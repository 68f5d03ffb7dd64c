//! Resolution of credentials by name at use time.

use vstd::prelude::*;

use crate::names;
use crate::names::{NameMap, NameSet};
use crate::oauth;
use crate::oauth::{
    Need, OAuthCache, Slot, TokenReply, TokenRequest, TokenStep, DEFAULT_REFRESH_SKEW,
};
use crate::references;
use crate::secret::Secret;
use crate::server::{OAuth, OAuthCredential};
use crate::text;

verus! {

/// Credentials that were resolved beforehand.
pub struct StaticResolver {
    secrets: NameMap<Secret>,
}

impl View for StaticResolver {
    type V = Seq<(Seq<char>, Seq<char>)>;

    closed spec fn view(&self) -> Seq<(Seq<char>, Seq<char>)> {
        names::deep(self.secrets@)
    }
}

impl Default for StaticResolver {
    fn default() -> (r: Self)
        ensures
            r@ == Seq::<(Seq<char>, Seq<char>)>::empty(),
    {
        let secrets: NameMap<Secret> = NameMap::new();
        assert(names::deep(secrets@) =~= Seq::empty());
        StaticResolver { secrets }
    }
}

impl StaticResolver {
    /// A resolver of the given secrets.
    pub fn new(secrets: NameMap<Secret>) -> (r: Self)
        ensures
            r@ == names::deep(secrets@),
    {
        StaticResolver { secrets }
    }

    /// The value of a credential.
    pub fn resolve(&self, name: &str) -> (r: Result<Secret, String>)
        ensures
            match names::find(self@, name@) {
                Some(value) => r matches Ok(s) && s@ == value,
                None => r matches Err(e) && e@ == "credential '"@ + name@
                    + "' was not pre-resolved"@,
            },
    {
        proof {
            names::lemma_find_deep(self.secrets@, name@);
        }
        match self.secrets.get(name) {
            Some(secret) => Ok(secret.clone()),
            None => {
                let mut m = String::from_str("credential '");
                m.append(name);
                m.append("' was not pre-resolved");
                Err(m)
            },
        }
    }
}

/// Which resolver a credential is resolved by.
#[derive(Debug, Clone, Copy, PartialEq, Eq, Structural)]
pub enum Owner {
    /// The one that handles this name.
    Handler,
    /// The one for every other name.
    Fallback,
}

/// Sends each credential name to the resolver that owns it.
pub struct CompositeResolver {
    handled: NameSet,
}

impl View for CompositeResolver {
    type V = Set<Seq<char>>;

    closed spec fn view(&self) -> Set<Seq<char>> {
        self.handled@
    }
}

impl CompositeResolver {
    /// A composite in which the given names have a handler of their own.
    pub fn new(handled: NameSet) -> (r: Self)
        ensures
            r@ == handled@,
    {
        CompositeResolver { handled }
    }

    /// Who resolves `name`.
    pub fn owner(&self, name: &str) -> (owner: Owner)
        ensures
            owner == (if self@.contains(name@) {
                Owner::Handler
            } else {
                Owner::Fallback
            }),
    {
        if self.handled.contains(name) {
            Owner::Handler
        } else {
            Owner::Fallback
        }
    }
}

// ---------------------------------------------------------------------------
// Tokens
// ---------------------------------------------------------------------------

/// What has to be done for the value of a credential.
pub enum Step {
    /// Nothing: this is the outcome.
    Done(Result<Secret, String>),
    /// A token has to be fetched.
    Fetch,
}

/// What has to be done, as a mathematical value.
pub enum StepValue {
    Done(Result<Seq<char>, Seq<char>>),
    Fetch,
}

impl View for Step {
    type V = StepValue;

    open spec fn view(&self) -> StepValue {
        match self {
            Step::Done(Ok(secret)) => StepValue::Done(Ok(secret@)),
            Step::Done(Err(e)) => StepValue::Done(Err(e@)),
            Step::Fetch => StepValue::Fetch,
        }
    }
}

/// What has to be done for a credential that is fetched by OAuth.
pub open spec fn issue(slots: Seq<(Seq<char>, Slot)>, name: Seq<char>, now: u128) -> StepValue {
    match oauth::need(slots, name, now) {
        Need::Cached(token) => StepValue::Done(Ok(token)),
        Need::Fetch => StepValue::Fetch,
        Need::Unknown(f) => StepValue::Done(Err(oauth::oauth_message(f))),
    }
}

/// Credentials that are fetched by OAuth and kept until they expire.
pub struct OAuthResolver {
    cache: OAuthCache,
}

impl View for OAuthResolver {
    type V = Seq<(Seq<char>, Slot)>;

    closed spec fn view(&self) -> Seq<(Seq<char>, Slot)> {
        self.cache@
    }
}

/// The latest time at which a token can be kept whatever its lifetime.
pub const LATEST_FETCH: u128 = 340_000_000_000_000_000_000_000_000_000_000_000_000;

impl OAuthResolver {
    /// A resolver over a cache.
    pub fn new(cache: OAuthCache) -> (r: Self)
        ensures
            r@ == cache@,
    {
        OAuthResolver { cache }
    }

    /// What has to be done for a credential at time `now`.
    pub fn resolve(&self, name: &str, now: u128) -> (step: Step)
        ensures
            step@ == issue(self@, name@, now),
    {
        match self.cache.token_at(name, now) {
            TokenStep::Cached(token) => Step::Done(Ok(token)),
            TokenStep::Fetch => Step::Fetch,
            TokenStep::Unknown(e) => Step::Done(Err(e.message())),
        }
    }

    /// The request that fetches a credential.
    pub fn request(&self, name: &str) -> (request: Option<&TokenRequest>)
        ensures
            match names::find(self@, name@) {
                Some(slot) => request matches Some(r) && r@ == slot.request,
                None => request is None,
            },
    {
        self.cache.request(name)
    }

    /// Take the reply of a token endpoint to the lookup that was made at time
    /// `now`: a token is kept and handed out, and an error leaves the cache as
    /// it is.
    pub fn fetched(&mut self, name: &str, reply: TokenReply, now: u128) -> (r: Result<
        Secret,
        String,
    >)
        requires
            now <= LATEST_FETCH,
            names::find(old(self)@, name@) is Some,
        ensures
            match oauth::token_of(reply) {
                Err(f) => (r matches Err(e) && e@ == oauth::oauth_message(f)) && final(self)@ == old(
                    self,
                )@,
                Ok(issued) => (r matches Ok(s) && s@ == issued.access_token) && final(self)@
                    == oauth::kept(old(self)@, name@, issued, now),
            },
    {
        match oauth::fetch_token(reply) {
            Err(e) => Err(e.message()),
            Ok(response) => match self.cache.store(name, &response, now) {
                Some(token) => Ok(token),
                None => Ok(response.access_token.clone()),
            },
        }
    }
}

// ---------------------------------------------------------------------------
// The resolver of a running gateway
// ---------------------------------------------------------------------------

/// Resolves every credential that a running gateway uses.
pub enum Resolver {
    /// All credentials were resolved beforehand.
    Static(StaticResolver),
    /// Some credentials are fetched by OAuth.
    Composite { routes: CompositeResolver, issued: OAuthResolver, fallback: StaticResolver },
}

/// A resolver as a mathematical value.
pub struct Sources {
    /// The credentials that are fetched by OAuth.
    pub handled: Set<Seq<char>>,
    /// What is known of them.
    pub slots: Seq<(Seq<char>, Slot)>,
    /// The credentials that were resolved beforehand.
    pub fixed: Seq<(Seq<char>, Seq<char>)>,
}

impl View for Resolver {
    type V = Sources;

    open spec fn view(&self) -> Sources {
        match self {
            Resolver::Static(fixed) => Sources {
                handled: Set::empty(),
                slots: Seq::empty(),
                fixed: fixed@,
            },
            Resolver::Composite { routes, issued, fallback } => Sources {
                handled: routes@,
                slots: issued@,
                fixed: fallback@,
            },
        }
    }
}

/// What has to be done for a credential: OAuth decides for the credentials
/// that it owns, and what was resolved beforehand for every other.
pub open spec fn resolution(s: Sources, name: Seq<char>, now: u128) -> StepValue {
    if s.handled.contains(name) {
        issue(s.slots, name, now)
    } else {
        match names::find(s.fixed, name) {
            Some(value) => StepValue::Done(Ok(value)),
            None => StepValue::Done(Err("credential '"@ + name + "' was not pre-resolved"@)),
        }
    }
}

impl Resolver {
    /// What has to be done for a credential at time `now`.
    pub fn resolve(&self, name: &str, now: u128) -> (step: Step)
        ensures
            step@ == resolution(self@, name@, now),
    {
        match self {
            Resolver::Static(fixed) => Step::Done(fixed.resolve(name)),
            Resolver::Composite { routes, issued, fallback } => match routes.owner(name) {
                Owner::Handler => issued.resolve(name, now),
                Owner::Fallback => Step::Done(fallback.resolve(name)),
            },
        }
    }
}

/// The resolver of a configuration whose references are resolved.
pub open spec fn sources_of(
    secrets: Seq<(Seq<char>, Seq<char>)>,
    oauth: Seq<(Seq<char>, OAuth)>,
) -> Sources {
    Sources {
        handled: names::keys(oauth).to_set(),
        slots: oauth::fresh_slots(references::grants_of(oauth, secrets), DEFAULT_REFRESH_SKEW),
        fixed: secrets,
    }
}

/// The set of the names of a map.
fn names_of(map: &NameMap<OAuthCredential>) -> (set: NameSet)
    ensures
        set@ == names::keys(names::deep(map@)).to_set(),
{
    let ghost all = names::keys(names::deep(map@));
    let mut list: Vec<String> = Vec::new();
    let mut i: usize = 0;
    while i < map.len()
        invariant
            i <= map@.len(),
            all == names::keys(names::deep(map@)),
            text::views(list@) == all.take(i as int),
        decreases map@.len() - i,
    {
        let ghost before = list@;
        list.push(map.key_at(i).clone());
        i = i + 1;
        assert(text::views(list@) =~= text::views(before).push(all[i - 1]));
        assert(all.take(i as int) =~= all.take(i - 1).push(all[i - 1]));
    }
    assert(all.take(all.len() as int) =~= all);
    NameSet::from_list(&list)
}

/// Build the resolver of a gateway from the credentials that were resolved
/// beforehand and the OAuth credentials of its configuration.
pub fn build_resolver(
    static_secrets: NameMap<Secret>,
    oauth_credentials: &NameMap<OAuthCredential>,
) -> (resolver: Resolver)
    requires
        references::secrets_known(names::deep(oauth_credentials@), names::deep(static_secrets@)),
    ensures
        resolver@ == sources_of(names::deep(static_secrets@), names::deep(oauth_credentials@)),
{
    if oauth_credentials.is_empty() {
        let resolver = Resolver::Static(StaticResolver::new(static_secrets));
        proof {
            let oauth = names::deep(oauth_credentials@);
            let expected = sources_of(names::deep(static_secrets@), oauth);
            assert(expected.handled =~= Set::empty());
            assert(expected.slots =~= Seq::empty());
        }
        return resolver;
    }
    let requests = references::build_token_requests(oauth_credentials, &static_secrets);
    let cache = OAuthCache::new(&requests, DEFAULT_REFRESH_SKEW);
    Resolver::Composite {
        routes: CompositeResolver::new(names_of(oauth_credentials)),
        issued: OAuthResolver::new(cache),
        fallback: StaticResolver::new(static_secrets),
    }
}

// ---------------------------------------------------------------------------
// Laws
// ---------------------------------------------------------------------------

/// In a resolver that was just built a credential of the `oauth` section is
/// fetched, even where a credential of that name was resolved beforehand;
/// every other credential has the value that was resolved for it.
pub proof fn oauth_names_are_fetched(
    secrets: Seq<(Seq<char>, Seq<char>)>,
    oauth: Seq<(Seq<char>, OAuth)>,
    name: Seq<char>,
    now: u128,
)
    ensures
        names::holds(oauth, name) ==> resolution(sources_of(secrets, oauth), name, now)
            == StepValue::Fetch,
        !names::holds(oauth, name) ==> resolution(sources_of(secrets, oauth), name, now) == (
        match names::find(secrets, name) {
            Some(value) => StepValue::Done(Ok(value)),
            None => StepValue::Done(Err("credential '"@ + name + "' was not pre-resolved"@)),
        }),
{
    let slots = sources_of(secrets, oauth).slots;
    names::lemma_has_key(oauth, name);
    assert(names::keys(oauth).to_set().contains(name) == names::keys(oauth).contains(name));
    names::lemma_position(oauth, name);
    let p = names::position(oauth, name);
    assert forall|i: int| 0 <= i < p implies (#[trigger] slots[i]).0 != name by {
        assert(oauth[i].0 != name);
    }
    names::lemma_position_is(slots, name, p);
}

/// A credential that OAuth owns is served by its current token, or fetched
/// where there is none, whatever was resolved beforehand; every other one is
/// what was resolved beforehand under its name, and a credential that is
/// neither is refused by name.
pub proof fn credentials_are_resolved_by_their_owner(
    s: Sources,
    name: Seq<char>,
    now: u128,
    slot: Slot,
)
    ensures
        s.handled.contains(name) && names::find(s.slots, name) == Some(slot) ==> {
            &&& slot.state is None ==> resolution(s, name, now) is Fetch
            &&& slot.state matches Some(held) ==> {
                &&& now < held.expires_at ==> resolution(s, name, now) == StepValue::Done(
                    Ok::<_, Seq<char>>(held.access_token),
                )
                &&& now >= held.expires_at ==> resolution(s, name, now) is Fetch
            }
        },
        s.handled.contains(name) && names::find(s.slots, name) is None ==> (resolution(
            s,
            name,
            now,
        ) matches StepValue::Done(Err(why)) && text::mentions(why, name)),
        !s.handled.contains(name) ==> match names::find(s.fixed, name) {
            Some(value) => resolution(s, name, now) == StepValue::Done(Ok::<_, Seq<char>>(value)),
            None => resolution(s, name, now) matches StepValue::Done(Err(why)) && text::mentions(
                why,
                name,
            ),
        },
{
    text::lemma_mentions("credential '"@, name, "' was not pre-resolved"@);
    let unknown = "OAuth credential '"@ + name + "' is not configured"@;
    let lead = "OAuth token endpoint returned malformed body: "@;
    assert(lead + unknown =~= (lead + "OAuth credential '"@) + name + "' is not configured"@);
    text::lemma_mentions(lead + "OAuth credential '"@, name, "' is not configured"@);
}

/// The resolver of a configuration owns the credentials of its `oauth`
/// section, each with its own request, no token and a skew of thirty seconds,
/// and has every other value as it was resolved.
pub proof fn resolvers_follow_the_configuration(
    secrets: Seq<(Seq<char>, Seq<char>)>,
    oauth: Seq<(Seq<char>, OAuth)>,
    name: Seq<char>,
    i: int,
)
    ensures
        ({
            let s = sources_of(secrets, oauth);
            &&& s.fixed == secrets
            &&& s.handled.contains(name) <==> exists|k: int|
                0 <= k < oauth.len() && (#[trigger] oauth[k]).0 == name
            &&& s.slots.len() == oauth.len()
            &&& 0 <= i < oauth.len() ==> s.slots[i].0 == oauth[i].0 && s.slots[i].1 == (Slot {
                request: references::grant_of(oauth[i].1, secrets),
                refresh_skew: 30_000_000_000,
                state: None,
            })
        }),
{
    names::lemma_has_key(oauth, name);
    assert(names::keys(oauth).to_set().contains(name) == names::keys(oauth).contains(name));
}

/// A step is read off its outcome.
pub proof fn steps_are_read_off_their_outcome(step: Step)
    ensures
        step matches Step::Done(Ok(secret)) ==> step@ == StepValue::Done(
            Ok::<_, Seq<char>>(secret@),
        ),
        step matches Step::Done(Err(e)) ==> step@ == StepValue::Done(Err::<Seq<char>, _>(e@)),
        step is Fetch ==> step@ is Fetch,
{
}

/// Names with a handler of their own go to it, and every other to the
/// fallback, which has the value that was resolved under the name or refuses
/// it by name.
pub proof fn names_go_to_their_owner(
    routes: &CompositeResolver,
    name: &str,
    owner: Owner,
    fixed: &StaticResolver,
    r: Result<Secret, String>,
)
    requires
        call_ensures(CompositeResolver::owner, (routes, name), owner),
        call_ensures(StaticResolver::resolve, (fixed, name), r),
    ensures
        owner is Handler <==> routes@.contains(name@),
        match names::find(fixed@, name@) {
            Some(value) => r matches Ok(secret) && secret@ == value,
            None => r matches Err(why) && text::mentions(why@, name@),
        },
{
    text::lemma_mentions("credential '"@, name@, "' was not pre-resolved"@);
}

/// A reply with a token gives the token and keeps it; any other leaves what is
/// known as it is and gives the reason.
pub proof fn replies_give_and_keep_their_token(
    issued: &mut OAuthResolver,
    name: &str,
    reply: TokenReply,
    now: u128,
    r: Result<Secret, String>,
)
    requires
        call_ensures(OAuthResolver::fetched, (issued, name, reply, now), r),
    ensures
        r is Ok <==> oauth::token_of(reply) is Ok,
        r matches Ok(token) ==> token@ == oauth::token_of(reply)->Ok_0.access_token,
        r is Err ==> final(issued)@ == old(issued)@,
        r is Ok ==> final(issued)@ == oauth::kept(
            old(issued)@,
            name@,
            oauth::token_of(reply)->Ok_0,
            now,
        ),
{
}

} // verus!

//! RFC 7662 token introspection.
//!
//! A token is validated by asking the authorisation server whether it is
//! active. Answers are cached by token digest for a bounded time, and an
//! outage policy says what happens while the endpoint cannot answer.
//!
//! Cache times are nanoseconds of a monotonic clock.

use vstd::prelude::*;
use vstd::utf8;

use crate::claims::{Claims, ValidatedClaims};
use crate::digest;
use crate::names::Duplicate;
use crate::secret::Secret;
use crate::text;
use crate::validator;
use crate::validator::{Audience, Checks, ClaimChecks, FailureReason, RawClaims, Token};

verus! {

/// How long a negative answer is cached: 5 seconds.
pub const NEGATIVE_TTL: u128 = 5_000_000_000;

/// The default bound on cached answers.
pub const DEFAULT_CACHE_CAPACITY: usize = 4096;

/// What happens while the introspection endpoint cannot answer.
#[derive(Debug, Clone, Copy, PartialEq, Eq, Structural)]
pub enum OutagePolicy {
    /// Reject the request.
    FailClosed,
    /// Serve a cached positive answer past its time, within a bound.
    ServeCached,
}

/// Cache and outage settings. Times are in nanoseconds.
#[derive(Debug, Clone, Copy)]
pub struct IntrospectionPolicy {
    /// How long a positive answer is served from the cache.
    pub cache_ttl: u128,
    /// What happens while the endpoint cannot answer.
    pub outage: OutagePolicy,
    /// How far past `cache_ttl` a positive answer may be served in an
    /// outage.
    pub max_stale: u128,
}

/// An answer of the authorisation server about a token.
#[derive(Debug)]
pub enum Outcome {
    /// The token is active and has these claims.
    Active(RawClaims),
    /// The token is not active.
    Inactive,
}

/// An answer as a mathematical value.
pub enum Answer {
    Active(Token),
    Inactive,
}

impl View for Outcome {
    type V = Answer;

    open spec fn view(&self) -> Answer {
        match self {
            Outcome::Active(claims) => Answer::Active(claims@),
            Outcome::Inactive => Answer::Inactive,
        }
    }
}

impl Duplicate for Outcome {
    fn duplicate(&self) -> (copy: Self) {
        match self {
            Outcome::Active(claims) => Outcome::Active(claims.duplicate()),
            Outcome::Inactive => Outcome::Inactive,
        }
    }
}

/// Why an introspection call gave no answer.
#[derive(Debug, Clone, Copy, PartialEq, Eq, Structural)]
pub enum IntrospectError {
    /// The endpoint could not be reached, or reported a server error.
    Outage,
    /// The endpoint answered with something unusable.
    Malformed,
}

// ---------------------------------------------------------------------------
// The cache
// ---------------------------------------------------------------------------

/// A cached answer with the digest of its token and the time of caching.
struct CacheEntry {
    key: [u8; 32],
    outcome: Outcome,
    cached_at: u128,
}

/// A cached answer as a mathematical value.
pub struct Entry {
    pub key: Seq<u8>,
    pub answer: Answer,
    pub cached_at: u128,
}

/// A bounded cache of answers by token digest.
pub struct IntrospectionCache {
    entries: Vec<CacheEntry>,
    capacity: usize,
}

spec fn entries_of(v: Seq<CacheEntry>) -> Seq<Entry> {
    v.map_values(
        |e: CacheEntry| Entry { key: e.key@, answer: e.outcome@, cached_at: e.cached_at },
    )
}

impl View for IntrospectionCache {
    type V = Seq<Entry>;

    closed spec fn view(&self) -> Seq<Entry> {
        entries_of(self.entries@)
    }
}

/// The position of the entry for `key`, or the length where there is none.
pub open spec fn position(s: Seq<Entry>, key: Seq<u8>) -> int
    decreases s.len(),
{
    if s.len() == 0 || s[0].key == key {
        0
    } else {
        1 + position(s.skip(1), key)
    }
}

/// The entry for `key`.
pub open spec fn cached(s: Seq<Entry>, key: Seq<u8>) -> Option<Entry> {
    if position(s, key) < s.len() {
        Some(s[position(s, key)])
    } else {
        None
    }
}

/// The position of the oldest entry; of two that are equally old, the first.
pub open spec fn oldest(s: Seq<Entry>) -> int
    decreases s.len(),
{
    if s.len() <= 1 {
        0
    } else {
        let before = oldest(s.drop_last());
        if s.last().cached_at < s[before].cached_at {
            s.len() - 1
        } else {
            before
        }
    }
}

/// The cache after an answer for `key` was stored at time `now`: in place of
/// an earlier answer for the key, or behind the others, and then after the
/// oldest entry left a full cache.
pub open spec fn stored(
    s: Seq<Entry>,
    capacity: nat,
    key: Seq<u8>,
    answer: Answer,
    now: u128,
) -> Seq<Entry> {
    let entry = Entry { key, answer, cached_at: now };
    if position(s, key) < s.len() {
        s.update(position(s, key), entry)
    } else if s.len() >= capacity && s.len() > 0 {
        s.remove(oldest(s)).push(entry)
    } else {
        s.push(entry)
    }
}

/// No key is cached twice.
pub open spec fn distinct(s: Seq<Entry>) -> bool {
    forall|i: int, j: int|
        0 <= i < j < s.len() ==> (#[trigger] s[i]).key != (#[trigger] s[j]).key
}

/// What holds of every cache: no key twice, and no more entries than the
/// capacity (a cache of capacity 0 still holds the last answer).
pub open spec fn sound(s: Seq<Entry>, capacity: nat) -> bool {
    distinct(s) && (s.len() <= capacity || s.len() <= 1)
}

proof fn lemma_position(s: Seq<Entry>, key: Seq<u8>)
    ensures
        0 <= position(s, key) <= s.len(),
        position(s, key) < s.len() ==> s[position(s, key)].key == key,
        forall|i: int| 0 <= i < position(s, key) ==> (#[trigger] s[i]).key != key,
    decreases s.len(),
{
    if s.len() > 0 && s[0].key != key {
        lemma_position(s.skip(1), key);
        assert forall|i: int| 0 <= i < position(s, key) implies (#[trigger] s[i]).key != key by {
            if i > 0 {
                assert(s.skip(1)[i - 1] == s[i]);
            }
        }
    }
}

proof fn lemma_position_is(s: Seq<Entry>, key: Seq<u8>, at: int)
    requires
        0 <= at <= s.len(),
        at < s.len() ==> s[at].key == key,
        forall|i: int| 0 <= i < at ==> (#[trigger] s[i]).key != key,
    ensures
        position(s, key) == at,
{
    lemma_position(s, key);
    let p = position(s, key);
    if p < at {
        assert(s[p].key != key);
    }
    if at < p {
        assert(s[at].key != key);
    }
}

proof fn lemma_oldest(s: Seq<Entry>)
    requires
        s.len() > 0,
    ensures
        0 <= oldest(s) < s.len(),
        forall|i: int| 0 <= i < s.len() ==> s[oldest(s)].cached_at <= (#[trigger] s[i]).cached_at,
    decreases s.len(),
{
    if s.len() > 1 {
        lemma_oldest(s.drop_last());
        assert forall|i: int| 0 <= i < s.len() implies s[oldest(s)].cached_at <= (
        #[trigger] s[i]).cached_at by {
            if i < s.len() - 1 {
                assert(s.drop_last()[i] == s[i]);
            }
        }
    }
}

/// Whether two digests are the same.
fn same_key(a: &[u8; 32], b: &[u8; 32]) -> (r: bool)
    ensures
        r == (a@ == b@),
{
    let mut i: usize = 0;
    while i < 32
        invariant
            i <= 32,
            forall|k: int| 0 <= k < i ==> a@[k] == b@[k],
        decreases 32 - i,
    {
        if a[i] != b[i] {
            return false;
        }
        i = i + 1;
    }
    assert(a@ =~= b@);
    true
}

impl IntrospectionCache {
    #[verifier::type_invariant]
    spec fn well_formed(self) -> bool {
        sound(self@, self.bound())
    }

    /// The largest number of entries.
    pub closed spec fn bound(&self) -> nat {
        self.capacity as nat
    }

    /// An empty cache.
    pub fn new(capacity: usize) -> (cache: Self)
        ensures
            cache@ == Seq::<Entry>::empty(),
            cache.bound() == capacity,
    {
        let cache = IntrospectionCache { entries: Vec::new(), capacity };
        assert(cache@ =~= Seq::<Entry>::empty());
        cache
    }

    /// The number of entries. They are no more than the capacity, and no two
    /// of them have the same key.
    pub fn len(&self) -> (n: usize)
        ensures
            n == self@.len(),
            sound(self@, self.bound()),
    {
        proof {
            use_type_invariant(self);
        }
        self.entries.len()
    }

    fn index_of(&self, key: &[u8; 32]) -> (at: usize)
        ensures
            at == position(self@, key@),
            at <= self@.len(),
            self@.len() == self.entries@.len(),
    {
        let mut i: usize = 0;
        while i < self.entries.len()
            invariant
                i <= self.entries@.len(),
                self@.len() == self.entries@.len(),
                forall|k: int| 0 <= k < i ==> (#[trigger] self@[k]).key != key@,
            decreases self.entries.len() - i,
        {
            if same_key(&self.entries[i].key, key) {
                proof {
                    lemma_position_is(self@, key@, i as int);
                }
                return i;
            }
            assert(self@[i as int].key == self.entries@[i as int].key@);
            i = i + 1;
        }
        proof {
            lemma_position_is(self@, key@, i as int);
        }
        i
    }

    /// The cached answer for `key`, with its age at time `now`.
    pub fn lookup(&self, key: &[u8; 32], now: u128) -> (found: Option<(Outcome, u128)>)
        ensures
            match cached(self@, key@) {
                Some(e) => found matches Some(f) && f.0@ == e.answer && f.1 == age(e, now),
                None => found is None,
            },
    {
        let at = self.index_of(key);
        if at < self.entries.len() {
            let entry = &self.entries[at];
            let age: u128 = if now < entry.cached_at {
                0
            } else {
                now - entry.cached_at
            };
            Some((entry.outcome.duplicate(), age))
        } else {
            None
        }
    }

    fn oldest_index(&self) -> (at: usize)
        requires
            self@.len() > 0,
        ensures
            at == oldest(self@),
            at < self.entries@.len(),
            self@.len() == self.entries@.len(),
    {
        let mut best: usize = 0;
        let mut i: usize = 1;
        while i < self.entries.len()
            invariant
                1 <= i <= self.entries@.len(),
                best < i,
                self@.len() == self.entries@.len(),
                best == oldest(self@.take(i as int)),
            decreases self.entries.len() - i,
        {
            proof {
                let next = self@.take(i + 1);
                assert(next.drop_last() =~= self@.take(i as int));
                assert(next.last() == self@[i as int]);
                assert(next[best as int] == self@[best as int]);
                assert(self@[best as int].cached_at == self.entries@[best as int].cached_at);
                assert(self@[i as int].cached_at == self.entries@[i as int].cached_at);
            }
            if self.entries[i].cached_at < self.entries[best].cached_at {
                best = i;
            }
            i = i + 1;
        }
        assert(self@.take(self@.len() as int) =~= self@);
        best
    }

    /// Store an answer; a full cache loses its oldest entry first.
    pub fn insert(&mut self, key: [u8; 32], outcome: Outcome, now: u128)
        ensures
            final(self)@ == stored(old(self)@, old(self).bound(), key@, outcome@, now),
            final(self).bound() == old(self).bound(),
    {
        let ghost before = self@;
        let ghost answer = outcome@;
        proof {
            use_type_invariant(&*self);
            storing_keeps_the_cache_sound(before, self.bound(), key@, answer, now);
        }
        let at = self.index_of(&key);
        let n = self.entries.len();
        let full = n >= self.capacity && n > 0;
        let out: usize = if full {
            self.oldest_index()
        } else {
            0
        };
        let mut cache = IntrospectionCache::new(self.capacity);
        std::mem::swap(&mut cache, self);
        let IntrospectionCache { mut entries, capacity } = cache;
        let entry = CacheEntry { key, outcome, cached_at: now };
        if at < n {
            entries.set(at, entry);
        } else {
            if full {
                entries.remove(out);
                proof {
                    assert(entries_of(entries@) =~= before.remove(out as int));
                }
            }
            entries.push(entry);
        }
        assert(entries_of(entries@) =~= stored(before, capacity as nat, key@, answer, now));
        *self = IntrospectionCache { entries, capacity };
    }

    /// Discard every entry.
    pub fn flush(&mut self)
        ensures
            final(self)@ == Seq::<Entry>::empty(),
            final(self).bound() == old(self).bound(),
    {
        *self = IntrospectionCache::new(self.capacity);
    }
}

/// The age of an entry at time `now`.
pub open spec fn age(e: Entry, now: u128) -> int {
    if now < e.cached_at {
        0
    } else {
        now - e.cached_at
    }
}

// ---------------------------------------------------------------------------
// The endpoint's answer
// ---------------------------------------------------------------------------

/// An RFC 7662 introspection response.
#[derive(Debug)]
pub struct IntrospectionResponse {
    pub active: bool,
    pub iss: Option<String>,
    pub sub: Option<String>,
    pub aud: Option<Audience>,
    pub exp: Option<i64>,
    pub nbf: Option<i64>,
    pub scope: Option<String>,
}

/// The claims of a response; `None` where a required claim is missing.
pub open spec fn response_claims(r: IntrospectionResponse) -> Option<Token> {
    match (r.iss, r.sub, r.exp) {
        (Some(iss), Some(sub), Some(exp)) => Some(
            (RawClaims { iss, sub, aud: r.aud, exp, nbf: r.nbf, scope: r.scope })@,
        ),
        _ => None,
    }
}

impl IntrospectionResponse {
    /// The claims of an active response. One without `iss`, `sub` or `exp`
    /// is malformed.
    pub fn into_claims(self) -> (r: Result<RawClaims, FailureReason>)
        ensures
            match response_claims(self) {
                Some(t) => r matches Ok(c) && c@ == t,
                None => r matches Err(e) && e == FailureReason::MalformedToken,
            },
    {
        match (self.iss, self.sub, self.exp) {
            (Some(iss), Some(sub), Some(exp)) => Ok(
                RawClaims { iss, sub, aud: self.aud, exp, nbf: self.nbf, scope: self.scope },
            ),
            _ => Err(FailureReason::MalformedToken),
        }
    }
}

/// What came back from the introspection endpoint.
#[derive(Debug)]
pub enum Reply {
    /// The request could not be sent, or no response came.
    Unreachable,
    /// A response with this status. The body is absent where it is not an
    /// introspection document.
    Response { status: u16, body: Option<IntrospectionResponse> },
}

/// What a reply says about the token.
pub open spec fn answer_of(reply: Reply) -> Result<Answer, IntrospectError> {
    match reply {
        Reply::Unreachable => Err(IntrospectError::Outage),
        Reply::Response { status, body } => if 500 <= status <= 599 {
            Err(IntrospectError::Outage)
        } else {
            match body {
                None => Err(IntrospectError::Malformed),
                Some(response) => if !response.active {
                    Ok(Answer::Inactive)
                } else {
                    match response_claims(response) {
                        Some(t) => Ok(Answer::Active(t)),
                        None => Err(IntrospectError::Malformed),
                    }
                },
            }
        },
    }
}

/// Classify a reply of the introspection endpoint.
pub fn introspect(reply: Reply) -> (r: Result<Outcome, IntrospectError>)
    ensures
        match answer_of(reply) {
            Ok(a) => r matches Ok(o) && o@ == a,
            Err(error) => r matches Err(e) && e == error,
        },
{
    match reply {
        Reply::Unreachable => Err(IntrospectError::Outage),
        Reply::Response { status, body } => {
            if 500 <= status && status <= 599 {
                return Err(IntrospectError::Outage);
            }
            match body {
                None => Err(IntrospectError::Malformed),
                Some(response) => {
                    if !response.active {
                        return Ok(Outcome::Inactive);
                    }
                    match response.into_claims() {
                        Ok(claims) => Ok(Outcome::Active(claims)),
                        Err(_) => Err(IntrospectError::Malformed),
                    }
                },
            }
        },
    }
}

// ---------------------------------------------------------------------------
// Validation
// ---------------------------------------------------------------------------

/// Validates tokens by introspection.
pub struct IntrospectionValidator {
    introspection_endpoint: String,
    client_id: String,
    client_secret: Secret,
    checks: ClaimChecks,
    policy: IntrospectionPolicy,
    cache: IntrospectionCache,
}

/// An introspection validator as a mathematical value.
pub struct Introspection {
    pub introspection_endpoint: Seq<char>,
    pub client_id: Seq<char>,
    pub client_secret: Seq<char>,
    pub checks: Checks,
    pub policy: IntrospectionPolicy,
    pub cache: Seq<Entry>,
    pub capacity: nat,
}

impl View for IntrospectionValidator {
    type V = Introspection;

    closed spec fn view(&self) -> Introspection {
        Introspection {
            introspection_endpoint: self.introspection_endpoint@,
            client_id: self.client_id@,
            client_secret: self.client_secret@,
            checks: self.checks@,
            policy: self.policy,
            cache: self.cache@,
            capacity: self.cache.bound(),
        }
    }
}

/// The digest that a token is cached under.
pub fn token_key(token: &str) -> (key: [u8; 32])
    ensures
        key@ == digest::text_digest(token@),
{
    digest::sha256_digest(token.as_bytes())
}

/// Whether an answer of the given age is still served without asking.
pub open spec fn fresh(policy: IntrospectionPolicy, answer: Answer, age: int) -> bool {
    match answer {
        Answer::Active(_) => age < policy.cache_ttl,
        Answer::Inactive => age < NEGATIVE_TTL,
    }
}

/// The outcome of validation that an answer leads to at time `unix_now`.
pub open spec fn finished(checks: Checks, answer: Answer, unix_now: int) -> Result<
    Claims,
    FailureReason,
> {
    match answer {
        Answer::Active(t) => validator::checked(t, checks, unix_now),
        Answer::Inactive => Err(FailureReason::Inactive),
    }
}

/// The outcome of validation from the cache alone, where it can decide.
pub open spec fn from_cache(
    v: Introspection,
    token: Seq<char>,
    now: u128,
    unix_now: int,
) -> Option<Result<Claims, FailureReason>> {
    match cached(v.cache, digest::text_digest(token)) {
        Some(e) => if fresh(v.policy, e.answer, age(e, now)) {
            Some(finished(v.checks, e.answer, unix_now))
        } else {
            None
        },
        None => None,
    }
}

/// The outcome of validation while the endpoint cannot answer.
pub open spec fn in_outage(
    v: Introspection,
    token: Seq<char>,
    now: u128,
    unix_now: int,
) -> Result<Claims, FailureReason> {
    match cached(v.cache, digest::text_digest(token)) {
        Some(e) => if v.policy.outage == OutagePolicy::ServeCached && e.answer is Active && age(
            e,
            now,
        ) <= v.policy.cache_ttl + v.policy.max_stale {
            finished(v.checks, e.answer, unix_now)
        } else {
            Err(FailureReason::Inactive)
        },
        None => Err(FailureReason::Inactive),
    }
}

/// Whether an exec result is the given outcome.
pub open spec fn gives(
    r: Result<ValidatedClaims, FailureReason>,
    outcome: Result<Claims, FailureReason>,
) -> bool {
    match outcome {
        Ok(claims) => r matches Ok(c) && c@ == claims,
        Err(reason) => r matches Err(e) && e == reason,
    }
}

/// The next step of a validation.
pub enum Step {
    /// The validation is decided.
    Done(Result<ValidatedClaims, FailureReason>),
    /// The endpoint has to be asked about this token.
    Ask(String),
}

impl IntrospectionValidator {
    /// A validator with an empty cache.
    pub fn new(
        introspection_endpoint: String,
        client_id: String,
        client_secret: Secret,
        checks: ClaimChecks,
        policy: IntrospectionPolicy,
    ) -> (v: Self)
        ensures
            v@ == (Introspection {
                introspection_endpoint: introspection_endpoint@,
                client_id: client_id@,
                client_secret: client_secret@,
                checks: checks@,
                policy,
                cache: Seq::empty(),
                capacity: DEFAULT_CACHE_CAPACITY as nat,
            }),
    {
        IntrospectionValidator {
            introspection_endpoint,
            client_id,
            client_secret,
            checks,
            policy,
            cache: IntrospectionCache::new(DEFAULT_CACHE_CAPACITY),
        }
    }

    /// The endpoint that is asked.
    pub fn endpoint(&self) -> (url: &str)
        ensures
            url@ == self@.introspection_endpoint,
    {
        self.introspection_endpoint.as_str()
    }

    /// The client identifier that the gateway authenticates with.
    pub fn client_id(&self) -> (id: &str)
        ensures
            id@ == self@.client_id,
    {
        self.client_id.as_str()
    }

    /// The client secret that the gateway authenticates with.
    pub fn client_secret(&self) -> (secret: &Secret)
        ensures
            secret@ == self@.client_secret,
    {
        &self.client_secret
    }

    /// Whether an answer of the given age is still served without asking.
    pub fn is_fresh(&self, outcome: &Outcome, age: u128) -> (b: bool)
        ensures
            b == fresh(self@.policy, outcome@, age as int),
    {
        match outcome {
            Outcome::Active(_) => age < self.policy.cache_ttl,
            Outcome::Inactive => age < NEGATIVE_TTL,
        }
    }

    /// Turn an answer into the outcome of validation at time `unix_now`.
    pub fn finish(&self, outcome: Outcome, unix_now: i64) -> (r: Result<
        ValidatedClaims,
        FailureReason,
    >)
        ensures
            gives(r, finished(self@.checks, outcome@, unix_now as int)),
    {
        match outcome {
            Outcome::Active(claims) => validator::check_claims(claims, &self.checks, unix_now),
            Outcome::Inactive => Err(FailureReason::Inactive),
        }
    }

    /// Begin the validation of the token in an `Authorization` header value:
    /// a fresh cached answer decides it, otherwise the endpoint is asked.
    pub fn validate(&self, authorization: &str, now: u128, unix_now: i64) -> (step: Step)
        ensures
            match validator::bearer(authorization@) {
                Err(reason) => step matches Step::Done(r) && gives(r, Err(reason)),
                Ok(token) => match from_cache(self@, token, now, unix_now as int) {
                    Some(outcome) => step matches Step::Done(r) && gives(r, outcome),
                    None => step matches Step::Ask(t) && t@ == token,
                },
            },
    {
        let token = match validator::bearer_token(authorization) {
            Ok(token) => token,
            Err(e) => {
                return Step::Done(Err(e));
            },
        };
        let key = token_key(token);
        if let Some((outcome, age)) = self.cache.lookup(&key, now) {
            if self.is_fresh(&outcome, age) {
                return Step::Done(self.finish(outcome, unix_now));
            }
        }
        Step::Ask(token.to_owned())
    }

    /// Conclude the validation of a token with the reply of the endpoint. An
    /// answer is cached and applied; an outage is left to the policy.
    pub fn conclude(&mut self, token: &str, reply: Reply, now: u128, unix_now: i64) -> (r: Result<
        ValidatedClaims,
        FailureReason,
    >)
        ensures
            match answer_of(reply) {
                Ok(a) => gives(r, finished(old(self)@.checks, a, unix_now as int)) && final(self)@
                    == (Introspection {
                    cache: stored(
                        old(self)@.cache,
                        old(self)@.capacity,
                        digest::text_digest(token@),
                        a,
                        now,
                    ),
                    ..old(self)@
                }),
                Err(IntrospectError::Malformed) => gives(r, Err(FailureReason::MalformedToken))
                    && final(self)@ == old(self)@,
                Err(IntrospectError::Outage) => gives(
                    r,
                    in_outage(old(self)@, token@, now, unix_now as int),
                ) && final(self)@ == old(self)@,
            },
    {
        match introspect(reply) {
            Ok(outcome) => {
                self.cache.insert(token_key(token), outcome.duplicate(), now);
                self.finish(outcome, unix_now)
            },
            Err(IntrospectError::Malformed) => Err(FailureReason::MalformedToken),
            Err(IntrospectError::Outage) => self.on_outage(token, now, unix_now),
        }
    }

    /// Decide a validation whose endpoint could not answer.
    pub fn on_outage(&self, token: &str, now: u128, unix_now: i64) -> (r: Result<
        ValidatedClaims,
        FailureReason,
    >)
        ensures
            gives(r, in_outage(self@, token@, now, unix_now as int)),
    {
        if self.policy.outage == OutagePolicy::ServeCached {
            let key = token_key(token);
            if let Some((outcome, age)) = self.cache.lookup(&key, now) {
                let ttl = self.policy.cache_ttl;
                if let Outcome::Active(claims) = outcome {
                    if age <= ttl || age - ttl <= self.policy.max_stale {
                        return self.finish(Outcome::Active(claims), unix_now);
                    }
                }
            }
        }
        Err(FailureReason::Inactive)
    }

    /// The subject that the cached answer about a token names.
    pub fn cached_subject(&self, token: &str) -> (subject: Option<String>)
        ensures
            match cached(self@.cache, digest::text_digest(token@)) {
                Some(e) => match e.answer {
                    Answer::Active(t) => subject matches Some(s) && s@ == t.sub,
                    Answer::Inactive => subject is None,
                },
                None => subject is None,
            },
    {
        match self.cache.lookup(&token_key(token), 0) {
            Some((Outcome::Active(claims), _)) => Some(claims.sub),
            _ => None,
        }
    }

    /// Discard every cached answer.
    pub fn flush(&mut self)
        ensures
            final(self)@ == (Introspection { cache: Seq::empty(), ..old(self)@ }),
    {
        self.cache.flush();
    }

    /// The body of the request that asks about `token`.
    pub fn request_body(token: &str) -> (body: String)
        ensures
            body@ == "token="@ + token@,
    {
        let mut body = String::from_str("token=");
        body.append(token);
        body
    }
}

// ---------------------------------------------------------------------------
// Laws
// ---------------------------------------------------------------------------

/// An empty cache is sound, storing keeps a cache sound, and what was stored
/// is what is read back, at age 0 when it is read at once.
pub proof fn storing_keeps_the_cache_sound(
    s: Seq<Entry>,
    capacity: nat,
    key: Seq<u8>,
    answer: Answer,
    now: u128,
)
    requires
        sound(s, capacity),
    ensures
        sound(Seq::<Entry>::empty(), capacity),
        sound(stored(s, capacity, key, answer, now), capacity),
        cached(stored(s, capacity, key, answer, now), key) == Some(
            Entry { key, answer, cached_at: now },
        ),
{
    let r = stored(s, capacity, key, answer, now);
    lemma_position(s, key);
    let p = position(s, key);
    if p < s.len() {
        assert forall|i: int, j: int| 0 <= i < j < r.len() implies (#[trigger] r[i]).key != (
        #[trigger] r[j]).key by {
            assert(s[i].key != s[j].key);
        }
        assert forall|i: int| 0 <= i < p implies (#[trigger] r[i]).key != key by {
            assert(s[i].key != key);
        }
        lemma_position_is(r, key, p);
    } else {
        let base = if s.len() >= capacity && s.len() > 0 {
            s.remove(oldest(s))
        } else {
            s
        };
        if s.len() > 0 {
            lemma_oldest(s);
        }
        let o = oldest(s);
        assert forall|i: int| 0 <= i < base.len() implies (#[trigger] base[i]).key != key by {
            if base.len() == s.len() {
                assert(s[i].key != key);
            } else if i < o {
                assert(base[i] == s[i]);
            } else {
                assert(base[i] == s[i + 1]);
            }
        }
        assert forall|i: int, j: int| 0 <= i < j < r.len() implies (#[trigger] r[i]).key != (
        #[trigger] r[j]).key by {
            if j < base.len() {
                if base.len() == s.len() {
                    assert(s[i].key != s[j].key);
                } else {
                    let a = if i < o { i } else { i + 1 };
                    let b = if j < o { j } else { j + 1 };
                    assert(base[i] == s[a] && base[j] == s[b]);
                    assert(s[a].key != s[b].key);
                }
            } else {
                assert(base[i].key != key);
            }
        }
        assert forall|i: int| 0 <= i < base.len() implies (#[trigger] r[i]).key != key by {
            assert(base[i].key != key);
        }
        lemma_position_is(r, key, base.len() as int);
    }
}

/// The entry that leaves a full cache is one that no other is older than;
/// every other entry stays.
pub proof fn the_oldest_entry_leaves(
    s: Seq<Entry>,
    capacity: nat,
    key: Seq<u8>,
    answer: Answer,
    now: u128,
    i: int,
)
    requires
        position(s, key) == s.len(),
        s.len() >= capacity,
        s.len() > 0,
        0 <= i < s.len(),
    ensures
        s[oldest(s)].cached_at <= s[i].cached_at,
        i != oldest(s) ==> stored(s, capacity, key, answer, now).contains(s[i]),
{
    lemma_oldest(s);
    let o = oldest(s);
    let r = stored(s, capacity, key, answer, now);
    if i < o {
        assert(r[i] == s[i]);
    } else if i > o {
        assert(r[i - 1] == s[i]);
    }
}

/// A validation that succeeds, from the cache or in an outage, rests on
/// claims that pass the checks at that time: a token that has expired is
/// never served.
pub proof fn served_tokens_pass_the_checks(
    v: Introspection,
    token: Seq<char>,
    now: u128,
    unix_now: int,
)
    ensures
        from_cache(v, token, now, unix_now) matches Some(Ok(claims)) ==> (cached(
            v.cache,
            digest::text_digest(token),
        ) matches Some(e) && e.answer matches Answer::Active(t) && validator::checked(
            t,
            v.checks,
            unix_now,
        ) == Ok::<Claims, FailureReason>(claims)),
        in_outage(v, token, now, unix_now) matches Ok(claims) ==> (cached(
            v.cache,
            digest::text_digest(token),
        ) matches Some(e) && e.answer matches Answer::Active(t) && validator::checked(
            t,
            v.checks,
            unix_now,
        ) == Ok::<Claims, FailureReason>(claims)),
{
}

/// Under the fail-closed policy an outage refuses every token. Under the
/// other policy it refuses every token whose answer is older than its
/// lifetime and the staleness bound together.
pub proof fn outages_are_bounded(v: Introspection, token: Seq<char>, now: u128, unix_now: int)
    ensures
        v.policy.outage == OutagePolicy::FailClosed ==> in_outage(v, token, now, unix_now) == Err::<
            Claims,
            FailureReason,
        >(FailureReason::Inactive),
        in_outage(v, token, now, unix_now) is Ok ==> (cached(v.cache, digest::text_digest(token))
            matches Some(e) && age(e, now) <= v.policy.cache_ttl + v.policy.max_stale),
{
}

/// After a flush nothing is served without asking, and nothing in an outage.
pub proof fn a_flush_forgets_every_answer(
    v: Introspection,
    token: Seq<char>,
    now: u128,
    unix_now: int,
)
    ensures
        ({
            let flushed = Introspection { cache: Seq::<Entry>::empty(), ..v };
            from_cache(flushed, token, now, unix_now) is None && in_outage(
                flushed,
                token,
                now,
                unix_now,
            ) == Err::<Claims, FailureReason>(FailureReason::Inactive)
        }),
{
}

/// The first entry of a key is the one that is found, and a key of no entry
/// finds none.
pub proof fn entries_are_found_by_their_key(
    front: Seq<Entry>,
    entry: Entry,
    back: Seq<Entry>,
    key: Seq<u8>,
)
    requires
        forall|i: int| 0 <= i < front.len() ==> (#[trigger] front[i]).key != key,
    ensures
        cached(front, key) is None,
        entry.key == key ==> cached(front + seq![entry] + back, key) == Some(entry),
{
    lemma_position_is(front, key, front.len() as int);
    if entry.key == key {
        let all = front + seq![entry] + back;
        assert forall|i: int| 0 <= i < front.len() implies (#[trigger] all[i]).key != key by {
            assert(all[i] == front[i]);
        }
        assert(all[front.len() as int] == entry);
        lemma_position_is(all, key, front.len() as int);
    }
}

/// A cached answer decides a validation without asking exactly while it is
/// younger than its lifetime: the configured one for a positive answer, five
/// seconds for a negative one. A positive answer is then judged by the claim
/// checks of the moment, a negative one refuses the token. Without an answer
/// the endpoint is asked.
pub proof fn answers_are_served_within_their_lifetime_only(
    v: Introspection,
    token: Seq<char>,
    e: Entry,
    now: u128,
    unix_now: int,
)
    requires
        cached(v.cache, digest::sha256(utf8::encode_utf8(token))) == Some(e),
    ensures
        ({
            let served = from_cache(v, token, now, unix_now);
            let past = if now > e.cached_at {
                now - e.cached_at
            } else {
                0
            };
            match e.answer {
                Answer::Active(t) => served == if past < v.policy.cache_ttl {
                    Some(validator::checked(t, v.checks, unix_now))
                } else {
                    None
                },
                Answer::Inactive => served == if past < 5_000_000_000 {
                    Some(Err::<Claims, _>(FailureReason::Inactive))
                } else {
                    None
                },
            }
        }),
{
}

/// While the endpoint cannot answer, a positive answer serves on where the
/// policy says so, until it is older than its lifetime and the staleness
/// bound together; every other token is refused as inactive.
pub proof fn outages_are_decided_by_the_policy(
    v: Introspection,
    token: Seq<char>,
    e: Entry,
    now: u128,
    unix_now: int,
)
    requires
        cached(v.cache, digest::sha256(utf8::encode_utf8(token))) == Some(e),
    ensures
        ({
            let past = if now > e.cached_at {
                now - e.cached_at
            } else {
                0
            };
            let kept = v.policy.outage == OutagePolicy::ServeCached && past <= v.policy.cache_ttl
                + v.policy.max_stale;
            in_outage(v, token, now, unix_now) == match e.answer {
                Answer::Active(t) => if kept {
                    validator::checked(t, v.checks, unix_now)
                } else {
                    Err(FailureReason::Inactive)
                },
                Answer::Inactive => Err(FailureReason::Inactive),
            }
        }),
{
}

/// A token that no answer is cached for is asked about, and refused while the
/// endpoint cannot answer.
pub proof fn unknown_tokens_are_asked_about(
    v: Introspection,
    token: Seq<char>,
    now: u128,
    unix_now: int,
)
    requires
        forall|i: int|
            0 <= i < v.cache.len() ==> (#[trigger] v.cache[i]).key != digest::sha256(
                utf8::encode_utf8(token),
            ),
    ensures
        from_cache(v, token, now, unix_now) is None,
        in_outage(v, token, now, unix_now) == Err::<Claims, _>(FailureReason::Inactive),
{
    lemma_position_is(
        v.cache,
        digest::sha256(utf8::encode_utf8(token)),
        v.cache.len() as int,
    );
}

/// A reply is an outage where none came or the server failed; otherwise it
/// has to be a document. One that says the token is not active is a negative
/// answer whatever else it says, and one that says it is active needs the
/// issuer, the subject and the expiry, which become the claims as they are.
pub proof fn replies_are_taken_at_their_word(status: u16, body: Option<IntrospectionResponse>)
    ensures
        answer_of(Reply::Unreachable) == Err::<Answer, _>(IntrospectError::Outage),
        ({
            let answer = answer_of(Reply::Response { status, body });
            if 500 <= status < 600 {
                answer == Err::<Answer, _>(IntrospectError::Outage)
            } else {
                match body {
                    None => answer == Err::<Answer, _>(IntrospectError::Malformed),
                    Some(r) => {
                        &&& !r.active ==> answer == Ok::<_, IntrospectError>(Answer::Inactive)
                        &&& r.active && (r.iss is None || r.sub is None || r.exp is None) ==> answer
                            == Err::<Answer, _>(IntrospectError::Malformed)
                        &&& r.active && r.iss is Some && r.sub is Some && r.exp is Some ==> (
                        answer matches Ok(Answer::Active(t)) && {
                            &&& t.iss == r.iss->Some_0@
                            &&& t.sub == r.sub->Some_0@
                            &&& t.exp == r.exp->Some_0
                            &&& t.aud is Some <==> r.aud is Some
                            &&& r.aud matches Some(a) ==> t.aud == Some(a@)
                            &&& t.nbf is Some <==> r.nbf is Some
                            &&& r.nbf matches Some(n) ==> t.nbf == Some(n as int)
                            &&& t.scope is Some <==> r.scope is Some
                            &&& r.scope matches Some(s) ==> t.scope == Some(s@)
                        })
                    },
                }
            }
        }),
{
}

/// Storing an answer leaves every other answer alone while there is room, and
/// in a full cache loses one, which no other is older than.
pub proof fn storing_loses_an_oldest_answer_at_most(
    s: Seq<Entry>,
    capacity: nat,
    key: Seq<u8>,
    answer: Answer,
    now: u128,
    i: int,
    j: int,
)
    requires
        distinct(s),
        0 <= i < s.len(),
        0 <= j < s.len(),
        s[i].key != key,
    ensures
        ({
            let after = stored(s, capacity, key, answer, now);
            let known = exists|k: int| 0 <= k < s.len() && (#[trigger] s[k]).key == key;
            &&& known ==> after.len() == s.len()
            &&& !known && s.len() < capacity ==> after.len() == s.len() + 1
            &&& !known && s.len() >= capacity ==> after.len() == s.len()
            &&& known || s.len() < capacity || s[j].cached_at < s[i].cached_at ==> after.contains(
                s[i],
            )
            &&& after.contains(Entry { key, answer, cached_at: now })
        }),
{
    let after = stored(s, capacity, key, answer, now);
    let entry = Entry { key, answer, cached_at: now };
    lemma_position(s, key);
    let p = position(s, key);
    if p < s.len() {
        assert(s[p].key == key);
        assert(after[p] == entry);
        assert(after[i] == s[i]);
    } else {
        assert(after[after.len() - 1] == entry);
        if exists|k: int| 0 <= k < s.len() && (#[trigger] s[k]).key == key {
            let k = choose|k: int| 0 <= k < s.len() && (#[trigger] s[k]).key == key;
            assert(s[k].key != key);
        }
        if s.len() < capacity {
            assert(after[i] == s[i]);
        } else {
            lemma_oldest(s);
            if i != oldest(s) {
                the_oldest_entry_leaves(s, capacity, key, answer, now, i);
            }
        }
    }
}

/// A cache is sound where no two of its entries have the same key and it holds
/// no more than its capacity, or one entry.
pub proof fn sound_caches_hold_each_key_once(s: Seq<Entry>, capacity: nat, i: int, j: int)
    ensures
        sound(s, capacity) && 0 <= i < s.len() && 0 <= j < s.len() && s[i].key == s[j].key ==> i
            == j,
        sound(s, capacity) ==> s.len() <= capacity || s.len() == 1 || s.len() == 0,
{
    if sound(s, capacity) && 0 <= i < s.len() && 0 <= j < s.len() {
        if i < j {
            assert(s[i].key != s[j].key);
        }
        if j < i {
            assert(s[j].key != s[i].key);
        }
    }
}

/// A validation ends as its outcome says.
pub proof fn validations_end_as_their_outcome_says(
    r: Result<ValidatedClaims, FailureReason>,
    outcome: Result<Claims, FailureReason>,
)
    ensures
        gives(r, outcome) <==> match r {
            Ok(claims) => outcome == Ok::<_, FailureReason>(claims@),
            Err(reason) => outcome == Err::<Claims, _>(reason),
        },
{
}

/// A validation asks the endpoint unless a cached answer about its token is
/// younger than its lifetime.
pub proof fn validations_ask_when_the_answer_is_old(
    v: &IntrospectionValidator,
    authorization: &str,
    token: Seq<char>,
    e: Entry,
    now: u128,
    unix_now: i64,
    step: Step,
)
    requires
        call_ensures(IntrospectionValidator::validate, (v, authorization, now, unix_now), step),
        validator::bearer(authorization@) == Ok::<_, FailureReason>(token),
        now >= e.cached_at,
    ensures
        cached(v@.cache, digest::sha256(utf8::encode_utf8(token))) == Some(e) ==> {
            &&& e.answer is Active && now - e.cached_at >= v@.policy.cache_ttl ==> (
            step matches Step::Ask(t) && t@ == token)
            &&& e.answer is Active && now - e.cached_at < v@.policy.cache_ttl ==> step is Done
            &&& e.answer is Inactive && now - e.cached_at >= 5_000_000_000 ==> (
            step matches Step::Ask(t) && t@ == token)
            &&& e.answer is Inactive && now - e.cached_at < 5_000_000_000 ==> (
            step matches Step::Done(Err(FailureReason::Inactive)))
        },
        cached(v@.cache, digest::sha256(utf8::encode_utf8(token))) is None ==> (step matches Step::Ask(
            t,
        ) && t@ == token),
{
    if cached(v@.cache, digest::sha256(utf8::encode_utf8(token))) == Some(e) {
        answers_are_served_within_their_lifetime_only(v@, token, e, now, unix_now as int);
    }
}

/// An answer is cached under its token at the time that it came, and decides
/// the validation; without an answer the cache stays as it is.
pub proof fn answers_are_cached_when_they_come(
    v: &mut IntrospectionValidator,
    token: &str,
    reply: Reply,
    now: u128,
    unix_now: i64,
    r: Result<ValidatedClaims, FailureReason>,
)
    requires
        call_ensures(IntrospectionValidator::conclude, (v, token, reply, now, unix_now), r),
        sound(old(v)@.cache, old(v)@.capacity),
    ensures
        answer_of(reply) matches Ok(answer) ==> {
            &&& cached(final(v)@.cache, digest::sha256(utf8::encode_utf8(token@))) == Some(
                Entry {
                    key: digest::sha256(utf8::encode_utf8(token@)),
                    answer,
                    cached_at: now,
                },
            )
            &&& answer is Inactive ==> r == Err::<ValidatedClaims, _>(FailureReason::Inactive)
            &&& answer matches Answer::Active(t) ==> match validator::checked(
                t,
                old(v)@.checks,
                unix_now as int,
            ) {
                Ok(c) => r matches Ok(x) && x@ == c,
                Err(reason) => r == Err::<ValidatedClaims, _>(reason),
            }
        },
        answer_of(reply) is Err ==> final(v)@ == old(v)@,
        answer_of(reply) == Err::<Answer, _>(IntrospectError::Malformed) ==> r == Err::<
            ValidatedClaims,
            _,
        >(FailureReason::MalformedToken),
{
    if let Ok(answer) = answer_of(reply) {
        storing_keeps_the_cache_sound(
            old(v)@.cache,
            old(v)@.capacity,
            digest::sha256(utf8::encode_utf8(token@)),
            answer,
            now,
        );
    }
}

/// The endpoint is asked about the token as it is.
pub proof fn questions_carry_the_token(token: &str, body: String)
    requires
        call_ensures(IntrospectionValidator::request_body, (token,), body),
    ensures
        body@ == "token="@ + token@,
        text::mentions(body@, token@),
{
    text::lemma_mentions("token="@, token@, Seq::empty());
}

/// A cached answer is given with the time that has passed since it came, and
/// is fresh while that is less than its lifetime.
pub proof fn answers_age_from_when_they_came(
    cache: &IntrospectionCache,
    key: &[u8; 32],
    now: u128,
    found: Option<(Outcome, u128)>,
    v: &IntrospectionValidator,
    outcome: &Outcome,
    age: u128,
    fresh: bool,
)
    requires
        call_ensures(IntrospectionCache::lookup, (cache, key, now), found),
        call_ensures(IntrospectionValidator::is_fresh, (v, outcome, age), fresh),
    ensures
        found is Some <==> cached(cache@, key@) is Some,
        found matches Some(f) ==> (cached(cache@, key@) matches Some(e) && f.0@ == e.answer && (now
            >= e.cached_at ==> f.1 == now - e.cached_at) && (now < e.cached_at ==> f.1 == 0)),
        *outcome is Active ==> (fresh <==> age < v@.policy.cache_ttl),
        *outcome is Inactive ==> (fresh <==> age < 5_000_000_000),
{
}

/// In an outage a token is let through only where the policy serves cached
/// answers and its answer is positive and not too old.
pub proof fn outages_let_cached_answers_through_only(
    v: &IntrospectionValidator,
    token: &str,
    now: u128,
    unix_now: i64,
    r: Result<ValidatedClaims, FailureReason>,
)
    requires
        call_ensures(IntrospectionValidator::on_outage, (v, token, now, unix_now), r),
    ensures
        r is Ok ==> v@.policy.outage is ServeCached && (cached(
            v@.cache,
            digest::sha256(utf8::encode_utf8(token@)),
        ) matches Some(e) && e.answer is Active && now <= e.cached_at + v@.policy.cache_ttl
            + v@.policy.max_stale),
{
}

/// Storing puts an answer into the cache and flushing empties it; neither
/// changes how much it may hold.
pub proof fn caches_store_and_forget(
    cache: &mut IntrospectionCache,
    key: [u8; 32],
    outcome: Outcome,
    now: u128,
    flushed: &mut IntrospectionCache,
)
    requires
        call_ensures(IntrospectionCache::insert, (cache, key, outcome, now), ()),
        call_ensures(IntrospectionCache::flush, (flushed,), ()),
        sound(old(cache)@, old(cache).bound()),
    ensures
        cached(final(cache)@, key@) == Some(
            Entry { key: key@, answer: outcome@, cached_at: now },
        ),
        final(cache).bound() == old(cache).bound(),
        final(flushed)@.len() == 0,
        final(flushed).bound() == old(flushed).bound(),
{
    storing_keeps_the_cache_sound(old(cache)@, old(cache).bound(), key@, outcome@, now);
}

} // verus!

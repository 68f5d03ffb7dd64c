//! OAuth 2.0 `client_credentials` tokens and their cache.

use vstd::prelude::*;

use crate::names;
use crate::names::{Duplicate, NameMap};
use crate::secret::Secret;
use crate::text;

verus! {

/// How long before its expiry a token is refreshed: 30 seconds, in
/// nanoseconds.
pub const DEFAULT_REFRESH_SKEW: u128 = 30_000_000_000;

/// A request to a token endpoint.
pub struct TokenRequest {
    /// The URL of the token endpoint.
    pub token_endpoint: String,
    /// The client identifier.
    pub client_id: String,
    /// The client secret.
    pub client_secret: Secret,
    /// The scope asked for.
    pub scope: Option<String>,
    /// The audience asked for.
    pub audience: Option<String>,
}

/// A request as a mathematical value.
pub struct Grant {
    pub token_endpoint: Seq<char>,
    pub client_id: Seq<char>,
    pub client_secret: Seq<char>,
    pub scope: Option<Seq<char>>,
    pub audience: Option<Seq<char>>,
}

impl View for TokenRequest {
    type V = Grant;

    open spec fn view(&self) -> Grant {
        Grant {
            token_endpoint: self.token_endpoint@,
            client_id: self.client_id@,
            client_secret: self.client_secret@,
            scope: text::opt(self.scope),
            audience: text::opt(self.audience),
        }
    }
}

/// What a token endpoint sends on success.
pub struct TokenPayload {
    pub access_token: String,
    /// Lifetime in seconds.
    pub expires_in: u64,
    pub token_type: String,
}

/// A token with its lifetime.
pub struct TokenResponse {
    /// The token.
    pub access_token: Secret,
    /// The lifetime in nanoseconds.
    pub expires_in: u128,
    /// The type of the token, `Bearer` as a rule.
    pub token_type: String,
}

/// A token as a mathematical value.
pub struct Issued {
    pub access_token: Seq<char>,
    pub expires_in: u128,
    pub token_type: Seq<char>,
}

impl View for TokenResponse {
    type V = Issued;

    open spec fn view(&self) -> Issued {
        Issued {
            access_token: self.access_token@,
            expires_in: self.expires_in,
            token_type: self.token_type@,
        }
    }
}

/// Why no token was obtained.
#[derive(Debug)]
pub enum OAuthError {
    /// The request failed.
    Request(String),
    /// The endpoint answered with another status than success.
    BadStatus { status: u16, body: String },
    /// The body is no token response.
    MalformedBody(String),
}

/// A token error as a mathematical value.
pub enum OAuthFault {
    Request(Seq<char>),
    BadStatus(u16, Seq<char>),
    MalformedBody(Seq<char>),
}

impl View for OAuthError {
    type V = OAuthFault;

    open spec fn view(&self) -> OAuthFault {
        match self {
            OAuthError::Request(e) => OAuthFault::Request(e@),
            OAuthError::BadStatus { status, body } => OAuthFault::BadStatus(*status, body@),
            OAuthError::MalformedBody(e) => OAuthFault::MalformedBody(e@),
        }
    }
}

/// The message of a token error.
pub open spec fn oauth_message(f: OAuthFault) -> Seq<char> {
    match f {
        OAuthFault::Request(e) => "OAuth token request failed: "@ + e,
        OAuthFault::BadStatus(status, body) => "OAuth token endpoint returned status "@
            + text::decimal(status as nat) + ": "@ + body,
        OAuthFault::MalformedBody(e) => "OAuth token endpoint returned malformed body: "@ + e,
    }
}

impl OAuthError {
    /// The message shown to operators.
    pub fn message(&self) -> (m: String)
        ensures
            m@ == oauth_message(self@),
    {
        match self {
            OAuthError::Request(e) => {
                let mut m = String::from_str("OAuth token request failed: ");
                m.append(e.as_str());
                m
            },
            OAuthError::BadStatus { status, body } => {
                let mut m = String::from_str("OAuth token endpoint returned status ");
                let shown = text::decimal_text(*status as u64);
                m.append(shown.as_str());
                m.append(": ");
                m.append(body.as_str());
                m
            },
            OAuthError::MalformedBody(e) => {
                let mut m = String::from_str("OAuth token endpoint returned malformed body: ");
                m.append(e.as_str());
                m
            },
        }
    }
}

/// The type of a token whose response names none.
pub fn default_token_type() -> (t: String)
    ensures
        t@ == "Bearer"@,
{
    "Bearer".to_owned()
}

// ---------------------------------------------------------------------------
// The round trip
// ---------------------------------------------------------------------------

/// Name and value pairs as an `application/x-www-form-urlencoded` text, as
/// `form_urlencoded::Serializer` writes them.
pub uninterp spec fn form_encoded(pairs: Seq<(Seq<char>, Seq<char>)>) -> Seq<char>;

/// The pairs of a list.
pub open spec fn pair_values(v: Seq<(String, String)>) -> Seq<(Seq<char>, Seq<char>)> {
    v.map_values(|p: (String, String)| (p.0@, p.1@))
}

/// Encode pairs with `url::form_urlencoded::Serializer::extend_pairs`. The
/// claim is that the text depends on the pairs alone.
#[verifier::external_body]
fn encode_pairs(pairs: &Vec<(String, String)>) -> (body: String)
    ensures
        body@ == form_encoded(pair_values(pairs@)),
{
    url::form_urlencoded::Serializer::new(String::new()).extend_pairs(pairs).finish()
}

/// The parameters of a request: the grant type, and the scope and the
/// audience where they are given.
pub open spec fn parameters(g: Grant) -> Seq<(Seq<char>, Seq<char>)> {
    let scope = match g.scope {
        Some(s) => seq![("scope"@, s)],
        None => Seq::empty(),
    };
    let audience = match g.audience {
        Some(a) => seq![("audience"@, a)],
        None => Seq::empty(),
    };
    seq![("grant_type"@, "client_credentials"@)] + scope + audience
}

/// The parameters of a request.
pub fn token_request_parameters(request: &TokenRequest) -> (pairs: Vec<(String, String)>)
    ensures
        pair_values(pairs@) == parameters(request@),
{
    let mut pairs: Vec<(String, String)> = Vec::new();
    pairs.push(("grant_type".to_owned(), "client_credentials".to_owned()));
    if let Some(scope) = &request.scope {
        pairs.push(("scope".to_owned(), scope.clone()));
    }
    if let Some(audience) = &request.audience {
        pairs.push(("audience".to_owned(), audience.clone()));
    }
    assert(pair_values(pairs@) =~= parameters(request@));
    pairs
}

/// The body of a request.
pub fn encode_token_request_body(request: &TokenRequest) -> (body: String)
    ensures
        body@ == form_encoded(parameters(request@)),
{
    encode_pairs(&token_request_parameters(request))
}

/// What came back from a token endpoint.
pub enum TokenReply {
    /// The request could not be sent, or no response came.
    Unreachable(String),
    /// A response. The payload is the error text where the body is no token
    /// response.
    Response { status: u16, body: String, payload: Result<TokenPayload, String> },
}

/// The token of a reply.
pub open spec fn token_of(reply: TokenReply) -> Result<Issued, OAuthFault> {
    match reply {
        TokenReply::Unreachable(e) => Err(OAuthFault::Request(e@)),
        TokenReply::Response { status, body, payload } => if !(200 <= status <= 299) {
            Err(OAuthFault::BadStatus(status, body@))
        } else {
            match payload {
                Err(e) => Err(OAuthFault::MalformedBody(e@)),
                Ok(p) => Ok(
                    Issued {
                        access_token: p.access_token@,
                        expires_in: (p.expires_in * 1_000_000_000) as u128,
                        token_type: p.token_type@,
                    },
                ),
            }
        },
    }
}

/// Read the token out of a reply.
pub fn fetch_token(reply: TokenReply) -> (r: Result<TokenResponse, OAuthError>)
    ensures
        match token_of(reply) {
            Ok(t) => r matches Ok(x) && x@ == t,
            Err(f) => r matches Err(e) && e@ == f,
        },
{
    match reply {
        TokenReply::Unreachable(e) => Err(OAuthError::Request(e)),
        TokenReply::Response { status, body, payload } => {
            if !(200 <= status && status <= 299) {
                return Err(OAuthError::BadStatus { status, body });
            }
            match payload {
                Ok(p) => Ok(
                    TokenResponse {
                        access_token: Secret::new(p.access_token),
                        expires_in: p.expires_in as u128 * 1_000_000_000,
                        token_type: p.token_type,
                    },
                ),
                Err(e) => Err(OAuthError::MalformedBody(e)),
            }
        },
    }
}

// ---------------------------------------------------------------------------
// The clock
// ---------------------------------------------------------------------------

/// A clock that does not go back. Times are nanoseconds since some fixed
/// moment.
pub trait Clock {
    /// The current time.
    fn now(&self) -> u128;
}

/// A moment of the monotonic clock.
#[verifier::external_type_specification]
#[verifier::external_body]
pub struct ExInstant(std::time::Instant);

/// `std::time::Instant::now`. Nothing is claimed of the moment.
#[verifier::external_body]
fn current_instant() -> std::time::Instant {
    std::time::Instant::now()
}

/// The most nanoseconds that a `std::time::Duration` holds: its seconds are a
/// `u64`, and its further nanoseconds less than a second.
pub const LATEST_MOMENT: u128 = 18_446_744_073_709_551_615_999_999_999;

/// The nanoseconds since `origin`, with `std::time::Instant::elapsed`. They
/// are those of a `std::time::Duration`; nothing more is claimed of their
/// number, which is the machine's.
#[verifier::external_body]
fn nanos_since(origin: &std::time::Instant) -> (nanos: u128)
    ensures
        nanos <= LATEST_MOMENT,
{
    origin.elapsed().as_nanos()
}

/// The monotonic clock of the system, counted from its construction.
#[derive(Debug)]
pub struct SystemClock {
    origin: std::time::Instant,
}

impl SystemClock {
    /// Whether the clock may have been started by reading the time.
    pub closed spec fn started(self) -> bool {
        call_ensures(current_instant, (), self.origin)
    }

    /// Whether the clock may show this time.
    pub closed spec fn shows(self, nanos: u128) -> bool {
        call_ensures(nanos_since, (&self.origin,), nanos)
    }

    /// A clock that starts now.
    pub fn new() -> (clock: Self)
        ensures
            clock.started(),
    {
        SystemClock { origin: current_instant() }
    }
}

impl Clock for SystemClock {
    fn now(&self) -> (nanos: u128)
        ensures
            nanos <= LATEST_MOMENT,
            self.shows(nanos),
    {
        nanos_since(&self.origin)
    }
}

// ---------------------------------------------------------------------------
// The cache
// ---------------------------------------------------------------------------

/// A cached token and the time from which it counts as expired.
pub struct CachedToken {
    access_token: Secret,
    expires_at: u128,
}

/// A cached token as a mathematical value.
pub struct Held {
    pub access_token: Seq<char>,
    pub expires_at: u128,
}

impl View for CachedToken {
    type V = Held;

    closed spec fn view(&self) -> Held {
        Held { access_token: self.access_token@, expires_at: self.expires_at }
    }
}

/// One credential of the cache.
pub struct CacheEntry {
    request: TokenRequest,
    refresh_skew: u128,
    state: Option<CachedToken>,
}

/// One credential of the cache as a mathematical value.
pub struct Slot {
    pub request: Grant,
    pub refresh_skew: u128,
    pub state: Option<Held>,
}

impl View for CacheEntry {
    type V = Slot;

    closed spec fn view(&self) -> Slot {
        Slot {
            request: self.request@,
            refresh_skew: self.refresh_skew,
            state: match self.state {
                Some(t) => Some(t@),
                None => None,
            },
        }
    }
}

/// Tokens by credential name.
pub struct OAuthCache {
    entries: NameMap<CacheEntry>,
}

impl View for OAuthCache {
    type V = Seq<(Seq<char>, Slot)>;

    closed spec fn view(&self) -> Seq<(Seq<char>, Slot)> {
        names::deep(self.entries@)
    }
}

/// The time from which a token counts as expired: its lifetime less the skew
/// from now, and now where the skew is longer.
pub open spec fn expiry(now: u128, expires_in: u128, skew: u128) -> int {
    if expires_in > skew {
        now + expires_in - skew
    } else {
        now as int
    }
}

/// Keep a fresh token until its expiry.
pub fn build_cached_token(response: &TokenResponse, now: u128, skew: u128) -> (t: CachedToken)
    requires
        expiry(now, response.expires_in, skew) <= u128::MAX,
    ensures
        t@ == (Held {
            access_token: response@.access_token,
            expires_at: expiry(now, response@.expires_in, skew) as u128,
        }),
{
    let lifetime: u128 = if response.expires_in > skew {
        response.expires_in - skew
    } else {
        0
    };
    CachedToken { access_token: response.access_token.clone(), expires_at: now + lifetime }
}

/// What has to be done for a token.
pub enum TokenStep {
    /// The cached token serves.
    Cached(Secret),
    /// A token has to be fetched.
    Fetch,
    /// The credential is not configured.
    Unknown(OAuthError),
}

/// What has to be done for a token, as a mathematical value.
pub enum Need {
    Cached(Seq<char>),
    Fetch,
    Unknown(OAuthFault),
}

impl View for TokenStep {
    type V = Need;

    open spec fn view(&self) -> Need {
        match self {
            TokenStep::Cached(s) => Need::Cached(s@),
            TokenStep::Fetch => Need::Fetch,
            TokenStep::Unknown(e) => Need::Unknown(e@),
        }
    }
}

/// What has to be done for a token at time `now`: a token serves until its
/// expiry.
pub open spec fn need(cache: Seq<(Seq<char>, Slot)>, name: Seq<char>, now: u128) -> Need {
    match names::find(cache, name) {
        None => Need::Unknown(
            OAuthFault::MalformedBody("OAuth credential '"@ + name + "' is not configured"@),
        ),
        Some(slot) => match slot.state {
            Some(held) => if held.expires_at > now {
                Need::Cached(held.access_token)
            } else {
                Need::Fetch
            },
            None => Need::Fetch,
        },
    }
}

/// The cache once a token that was fetched at time `now` is kept. Nothing is
/// kept for a credential that is not configured.
pub open spec fn kept(
    cache: Seq<(Seq<char>, Slot)>,
    name: Seq<char>,
    issued: Issued,
    now: u128,
) -> Seq<(Seq<char>, Slot)> {
    match names::find(cache, name) {
        None => cache,
        Some(slot) => names::with_entry(
            cache,
            name,
            Slot {
                state: Some(
                    Held {
                        access_token: issued.access_token,
                        expires_at: expiry(now, issued.expires_in, slot.refresh_skew) as u128,
                    },
                ),
                ..slot
            },
        ),
    }
}

/// The slots of a fresh cache.
pub open spec fn fresh_slots(
    credentials: Seq<(Seq<char>, Grant)>,
    skew: u128,
) -> Seq<(Seq<char>, Slot)> {
    credentials.map_values(
        |e: (Seq<char>, Grant)| (e.0, Slot { request: e.1, refresh_skew: skew, state: None }),
    )
}

impl Duplicate for TokenRequest {
    fn duplicate(&self) -> (copy: Self) {
        TokenRequest {
            token_endpoint: self.token_endpoint.clone(),
            client_id: self.client_id.clone(),
            client_secret: self.client_secret.clone(),
            scope: text::copy_opt(&self.scope),
            audience: text::copy_opt(&self.audience),
        }
    }
}

impl OAuthCache {
    /// A cache for the given requests, by credential name.
    pub fn new(credentials: &NameMap<TokenRequest>, refresh_skew: u128) -> (cache: Self)
        ensures
            cache@ == fresh_slots(names::deep(credentials@), refresh_skew),
    {
        let n = credentials.len();
        let mut entries: NameMap<CacheEntry> = NameMap::new();
        let mut i: usize = 0;
        while i < n
            invariant
                i <= n == credentials@.len(),
                names::distinct(credentials@),
                entries@.len() == i,
                forall|k: int|
                    0 <= k < i ==> (#[trigger] entries@[k]).0 == credentials@[k].0
                        && entries@[k].1@ == (Slot {
                        request: credentials@[k].1@,
                        refresh_skew,
                        state: None,
                    }),
            decreases n - i,
        {
            let name = credentials.key_at(i).clone();
            let entry = CacheEntry {
                request: credentials.value_at(i).duplicate(),
                refresh_skew,
                state: None,
            };
            proof {
                names::lemma_next_name(entries@, credentials@, entry);
            }
            entries.insert(name, entry);
            i = i + 1;
        }
        assert(names::deep(entries@) =~= fresh_slots(names::deep(credentials@), refresh_skew));
        OAuthCache { entries }
    }

    /// What has to be done for a current token at time `now`.
    pub fn token_at(&self, credential_name: &str, now: u128) -> (step: TokenStep)
        ensures
            step@ == need(self@, credential_name@, now),
    {
        proof {
            names::lemma_find_deep(self.entries@, credential_name@);
        }
        match self.entries.get(credential_name) {
            None => {
                let mut m = String::from_str("OAuth credential '");
                m.append(credential_name);
                m.append("' is not configured");
                TokenStep::Unknown(OAuthError::MalformedBody(m))
            },
            Some(entry) => match &entry.state {
                Some(held) => if held.expires_at > now {
                    TokenStep::Cached(held.access_token.clone())
                } else {
                    TokenStep::Fetch
                },
                None => TokenStep::Fetch,
            },
        }
    }

    /// Read the clock, and work out what has to be done for a current token.
    pub fn current_token<C: Clock>(&self, credential_name: &str, clock: &C) -> (r: (
        u128,
        TokenStep,
    ))
        ensures
            call_ensures(C::now, (clock,), r.0),
            r.1@ == need(self@, credential_name@, r.0),
    {
        let now = clock.now();
        (now, self.token_at(credential_name, now))
    }

    /// The request that fetches a token for a credential.
    pub fn request(&self, credential_name: &str) -> (request: Option<&TokenRequest>)
        ensures
            match names::find(self@, credential_name@) {
                Some(slot) => request matches Some(r) && r@ == slot.request,
                None => request is None,
            },
    {
        proof {
            names::lemma_find_deep(self.entries@, credential_name@);
        }
        match self.entries.get(credential_name) {
            Some(entry) => Some(&entry.request),
            None => None,
        }
    }

    /// Keep a token that was fetched at time `now`, and hand it out. For a
    /// credential that is not configured nothing is kept.
    pub fn store(&mut self, credential_name: &str, response: &TokenResponse, now: u128) -> (token:
        Option<Secret>)
        requires
            now + response.expires_in <= u128::MAX,
        ensures
            final(self)@ == kept(old(self)@, credential_name@, response@, now),
            match names::find(old(self)@, credential_name@) {
                None => token is None,
                Some(_) => token matches Some(t) && t@ == response@.access_token,
            },
    {
        proof {
            names::lemma_find_deep(self.entries@, credential_name@);
        }
        let at = self.entries.index_of(credential_name);
        if at == self.entries.len() {
            return None;
        }
        let ghost before = self.entries@;
        let entry = self.entries.value_at_mut(at);
        let cached = build_cached_token(response, now, entry.refresh_skew);
        let token = cached.access_token.clone();
        entry.state = Some(cached);
        proof {
            names::lemma_position(before, credential_name@);
            let p = at as int;
            let slot = names::deep(before)[p].1;
            let after = self.entries@;
            assert(names::deep(after) =~= names::deep(before).update(
                p,
                (credential_name@, after[p].1@),
            ));
        }
        Some(token)
    }
}

// ---------------------------------------------------------------------------
// Laws
// ---------------------------------------------------------------------------

/// A token that was kept serves until its expiry, without another fetch, and
/// from its expiry on it does not serve.
pub proof fn kept_tokens_serve_until_expiry(
    cache: Seq<(Seq<char>, Slot)>,
    name: Seq<char>,
    issued: Issued,
    now: u128,
    later: u128,
)
    requires
        names::find(cache, name) is Some,
        now + issued.expires_in <= u128::MAX,
    ensures
        need(kept(cache, name, issued, now), name, later) == (if later < expiry(
            now,
            issued.expires_in,
            names::find(cache, name)->0.refresh_skew,
        ) {
            Need::Cached(issued.access_token)
        } else {
            Need::Fetch
        }),
{
    let slot = names::find(cache, name)->0;
    let held = Held {
        access_token: issued.access_token,
        expires_at: expiry(now, issued.expires_in, slot.refresh_skew) as u128,
    };
    names::store_then_find(cache, name, Slot { state: Some(held), ..slot }, name);
}

/// Keeping a token of one credential changes what no other credential needs.
pub proof fn credentials_are_independent(
    cache: Seq<(Seq<char>, Slot)>,
    name: Seq<char>,
    issued: Issued,
    fetched: u128,
    other: Seq<char>,
    now: u128,
)
    requires
        other != name,
    ensures
        need(kept(cache, name, issued, fetched), other, now) == need(cache, other, now),
{
    if let Some(slot) = names::find(cache, name) {
        let held = Held {
            access_token: issued.access_token,
            expires_at: expiry(fetched, issued.expires_in, slot.refresh_skew) as u128,
        };
        names::store_then_find(cache, name, Slot { state: Some(held), ..slot }, other);
    }
}

/// A token counts as expired the skew before the end of its lifetime, and at
/// once where its lifetime is no longer than the skew.
pub proof fn tokens_expire_ahead_of_their_end(now: u128, expires_in: u128, skew: u128)
    ensures
        expires_in >= skew ==> expiry(now, expires_in, skew) + skew == now + expires_in,
        expires_in <= skew ==> expiry(now, expires_in, skew) == now,
{
}

/// A credential that is not configured is not fetched for. One without a token
/// is, and one with a token is served by it until the token has expired.
pub proof fn tokens_serve_while_they_are_current(
    cache: Seq<(Seq<char>, Slot)>,
    name: Seq<char>,
    slot: Slot,
    now: u128,
)
    ensures
        names::find(cache, name) is None ==> (need(cache, name, now) matches Need::Unknown(
            OAuthFault::MalformedBody(why),
        ) && text::mentions(why, name)),
        names::find(cache, name) == Some(slot) ==> {
            &&& slot.state is None ==> need(cache, name, now) is Fetch
            &&& slot.state matches Some(held) ==> {
                &&& now < held.expires_at ==> need(cache, name, now) == Need::Cached(
                    held.access_token,
                )
                &&& now >= held.expires_at ==> need(cache, name, now) is Fetch
            }
        },
{
    text::lemma_mentions("OAuth credential '"@, name, "' is not configured"@);
}

/// Keeping a token puts it, with its expiry, into the slot of its credential
/// and changes nothing else of the slot; without a slot nothing is kept.
pub proof fn kept_tokens_go_into_their_slot(
    cache: Seq<(Seq<char>, Slot)>,
    name: Seq<char>,
    issued: Issued,
    now: u128,
    slot: Slot,
)
    ensures
        names::find(cache, name) is None ==> kept(cache, name, issued, now) == cache,
        names::find(cache, name) == Some(slot) && now + issued.expires_in <= u128::MAX ==> (
        names::find(kept(cache, name, issued, now), name) matches Some(after) && {
            &&& after.request == slot.request
            &&& after.refresh_skew == slot.refresh_skew
            &&& after.state matches Some(held) && held.access_token == issued.access_token && (
            issued.expires_in >= slot.refresh_skew ==> held.expires_at + slot.refresh_skew == now
                + issued.expires_in) && (issued.expires_in < slot.refresh_skew ==> held.expires_at
                == now)
        }),
        kept(cache, name, issued, now).len() == cache.len(),
{
    names::lemma_position(cache, name);
    if let Some(own) = names::find(cache, name) {
        let held = Held {
            access_token: issued.access_token,
            expires_at: expiry(now, issued.expires_in, own.refresh_skew) as u128,
        };
        names::store_then_find(cache, name, Slot { state: Some(held), ..own }, name);
    }
}

/// A reply gives a token only where it is a success with a token in it: the
/// token, its type, and its lifetime of so many seconds.
pub proof fn tokens_come_from_successful_replies_only(
    status: u16,
    body: String,
    payload: Result<TokenPayload, String>,
    why: String,
)
    ensures
        token_of(TokenReply::Unreachable(why)) == Err::<Issued, _>(OAuthFault::Request(why@)),
        ({
            let token = token_of(TokenReply::Response { status, body, payload });
            &&& !(200 <= status < 300) ==> token == Err::<Issued, _>(
                OAuthFault::BadStatus(status, body@),
            )
            &&& 200 <= status < 300 ==> match payload {
                Ok(p) => token matches Ok(t) && t.access_token == p.access_token@ && t.token_type
                    == p.token_type@ && t.expires_in == p.expires_in * 1_000_000_000,
                Err(e) => token == Err::<Issued, _>(OAuthFault::MalformedBody(e@)),
            }
        }),
{
}

/// A token is asked for with the grant `client_credentials`, and with the scope
/// and the audience exactly where they are given.
pub proof fn requests_ask_for_what_is_given(g: Grant)
    ensures
        names::find(parameters(g), "grant_type"@) == Some("client_credentials"@),
        names::find(parameters(g), "scope"@) == g.scope,
        names::find(parameters(g), "audience"@) == g.audience,
        parameters(g).len() == 1 + (if g.scope is Some {
            1int
        } else {
            0int
        }) + (if g.audience is Some {
            1int
        } else {
            0int
        }),
{
    reveal_strlit("grant_type");
    reveal_strlit("scope");
    reveal_strlit("audience");
    reveal_with_fuel(names::position, 4);
    assert("grant_type"@.len() == 10 && "scope"@.len() == 5 && "audience"@.len() == 8);
    let p = parameters(g);
    assert(p[0] == ("grant_type"@, "client_credentials"@));
    if let Some(s) = g.scope {
        assert(p[1] == ("scope"@, s));
        if let Some(a) = g.audience {
            assert(p[2] == ("audience"@, a));
            names::lemma_position_is(p, "audience"@, 2);
        } else {
            names::lemma_position_is(p, "audience"@, 2);
        }
        names::lemma_position_is(p, "scope"@, 1);
    } else {
        if let Some(a) = g.audience {
            assert(p[1] == ("audience"@, a));
            names::lemma_position_is(p, "audience"@, 1);
            names::lemma_position_is(p, "scope"@, 2);
        } else {
            names::lemma_position_is(p, "audience"@, 1);
            names::lemma_position_is(p, "scope"@, 1);
        }
    }
}

/// A fresh cache has a slot without a token for every credential, under its
/// name and in its place.
pub proof fn fresh_caches_hold_no_token(
    credentials: Seq<(Seq<char>, Grant)>,
    skew: u128,
    pairs: Seq<(String, String)>,
    i: int,
)
    ensures
        fresh_slots(credentials, skew).len() == credentials.len(),
        0 <= i < credentials.len() ==> fresh_slots(credentials, skew)[i] == (
            credentials[i].0,
            Slot { request: credentials[i].1, refresh_skew: skew, state: None },
        ),
        pair_values(pairs).len() == pairs.len(),
        0 <= i < pairs.len() ==> pair_values(pairs)[i] == (pairs[i].0@, pairs[i].1@),
{
}

/// A token error holds its reason.
pub proof fn token_errors_hold_their_reason(what: Seq<char>, status: u16)
    ensures
        text::mentions(oauth_message(OAuthFault::Request(what)), what),
        text::mentions(oauth_message(OAuthFault::MalformedBody(what)), what),
        text::mentions(oauth_message(OAuthFault::BadStatus(status, what)), what),
        text::mentions(
            oauth_message(OAuthFault::BadStatus(status, what)),
            text::decimal(status as nat),
        ),
{
    let none = Seq::<char>::empty();
    text::lemma_mentions("OAuth token request failed: "@, what, none);
    text::lemma_mentions("OAuth token endpoint returned malformed body: "@, what, none);
    let lead = "OAuth token endpoint returned status "@;
    let shown = text::decimal(status as nat);
    assert(lead + shown + ": "@ + what =~= lead + shown + (": "@ + what));
    text::lemma_mentions(lead, shown, ": "@ + what);
    text::lemma_mentions(lead + shown + ": "@, what, none);
}

/// A token is handed out only while it is current by the clock that is read,
/// and what is stored under a name is what the name is served with.
pub proof fn caches_serve_what_was_stored(
    cache: &mut OAuthCache,
    name: &str,
    response: &TokenResponse,
    now: u128,
    token: Option<Secret>,
    later: u128,
)
    requires
        call_ensures(OAuthCache::store, (cache, name, response, now), token),
        now + response.expires_in <= u128::MAX,
    ensures
        token is Some <==> names::find(old(cache)@, name@) is Some,
        token matches Some(t) ==> t@ == response.access_token@,
        names::find(old(cache)@, name@) matches Some(slot) ==> {
            let end = now + (if response.expires_in > slot.refresh_skew {
                response.expires_in - slot.refresh_skew
            } else {
                0
            });
            need(final(cache)@, name@, later) == if later < end {
                Need::Cached(response.access_token@)
            } else {
                Need::Fetch
            }
        },
{
    if let Some(slot) = names::find(old(cache)@, name@) {
        kept_tokens_serve_until_expiry(old(cache)@, name@, response@, now, later);
    }
}

/// A lookup gives a token, asks for one, or refuses a name that is not
/// configured.
pub proof fn lookups_give_current_tokens_only(
    cache: &OAuthCache,
    name: &str,
    now: u128,
    step: TokenStep,
)
    requires
        call_ensures(OAuthCache::token_at, (cache, name, now), step),
    ensures
        step is Unknown <==> names::find(cache@, name@) is None,
        step matches TokenStep::Cached(token) ==> (names::find(cache@, name@) matches Some(slot)
            && slot.state matches Some(held) && now < held.expires_at && token@
            == held.access_token),
        step is Fetch ==> (names::find(cache@, name@) matches Some(slot) && (
        slot.state matches Some(held) ==> now >= held.expires_at)),
{
}

} // verus!

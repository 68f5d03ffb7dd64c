//! Caching of an authorisation server's JSON Web Key Set.
//!
//! A known key is served from memory. An unknown key asks for one fetch
//! before giving up, which is how a rotated key is picked up. A fetch that
//! misses arms a cooldown, so that a flood of unknown keys does not become a
//! flood of fetches.
//!
//! Times are nanoseconds of a monotonic clock.

use vstd::prelude::*;

use crate::json;
use crate::json::{Json, JsonValue};
use crate::names::Duplicate;
use crate::text;
use crate::validator;

verus! {

/// The least time between two fetches that miss: 10 seconds.
pub const UNKNOWN_KID_REFRESH_COOLDOWN: u128 = 10_000_000_000;

/// A cache over an authorisation server's key set.
pub struct JwksCache {
    jwks_uri: String,
    keys: Option<Vec<Json>>,
    last_missed_refresh: Option<u128>,
}

/// A key cache as a mathematical value.
pub struct KeyCache {
    pub jwks_uri: Seq<char>,
    pub keys: Option<Seq<JsonValue>>,
    pub last_missed_refresh: Option<u128>,
}

/// The values of a list of keys.
pub open spec fn key_values(keys: Seq<Json>) -> Seq<JsonValue> {
    keys.map_values(|k: Json| k@)
}

impl View for JwksCache {
    type V = KeyCache;

    closed spec fn view(&self) -> KeyCache {
        KeyCache {
            jwks_uri: self.jwks_uri@,
            keys: match self.keys {
                Some(k) => Some(key_values(k@)),
                None => None,
            },
            last_missed_refresh: self.last_missed_refresh,
        }
    }
}

/// Whether a key carries the identifier `kid`.
pub open spec fn has_kid(key: JsonValue, kid: Seq<char>) -> bool {
    validator::key_text(key, "kid"@) == Some(kid)
}

/// The first key that carries `kid`.
pub open spec fn first_key(keys: Seq<JsonValue>, kid: Seq<char>) -> Option<JsonValue>
    decreases keys.len(),
{
    if keys.len() == 0 {
        None
    } else if has_kid(keys[0], kid) {
        Some(keys[0])
    } else {
        first_key(keys.skip(1), kid)
    }
}

/// The first cached key that carries `kid`.
pub open spec fn cached(c: KeyCache, kid: Seq<char>) -> Option<JsonValue> {
    match c.keys {
        Some(keys) => first_key(keys, kid),
        None => None,
    }
}

/// Whether a fetch missed so recently that another one has to wait.
pub open spec fn cooling(c: KeyCache, now: u128) -> bool {
    c.last_missed_refresh matches Some(at) && now - at < UNKNOWN_KID_REFRESH_COOLDOWN
}

/// The cache after a fetch of `keys` on behalf of `kid`: the keys are
/// replaced, and a miss is remembered.
pub open spec fn after_fetch(
    c: KeyCache,
    kid: Seq<char>,
    keys: Seq<JsonValue>,
    now: u128,
) -> KeyCache {
    KeyCache {
        keys: Some(keys),
        last_missed_refresh: if first_key(keys, kid) is None {
            Some(now)
        } else {
            c.last_missed_refresh
        },
        ..c
    }
}

/// The cache after a background fetch.
pub open spec fn refreshed(c: KeyCache, fetched: Result<Vec<Json>, JwksError>) -> KeyCache {
    match fetched {
        Ok(keys) => KeyCache { keys: Some(key_values(keys@)), ..c },
        Err(_) => c,
    }
}

/// Why a key set could not be fetched.
#[derive(Debug)]
pub enum JwksError {
    /// The request failed.
    Request(String),
    /// The body is not a key set.
    Parse(String),
}

impl JwksError {
    /// The message shown to operators.
    pub fn message(&self) -> (m: String)
        ensures
            m@ == (match self {
                JwksError::Request(e) => "JWKS request failed: "@ + e@,
                JwksError::Parse(e) => "JWKS document is not valid JSON: "@ + e@,
            }),
    {
        match self {
            JwksError::Request(e) => {
                let mut m = String::from_str("JWKS request failed: ");
                m.append(e.as_str());
                m
            },
            JwksError::Parse(e) => {
                let mut m = String::from_str("JWKS document is not valid JSON: ");
                m.append(e.as_str());
                m
            },
        }
    }
}

/// What a lookup asks for.
#[derive(Debug)]
pub enum Lookup {
    /// The key is cached.
    Found(Json),
    /// The key is unknown, and a fetch missed too recently to try again.
    Absent,
    /// The key set has to be fetched.
    Fetch,
}

/// Find the key that carries `kid`.
pub fn find_key(keys: &Vec<Json>, kid: &str) -> (found: Option<Json>)
    ensures
        match first_key(key_values(keys@), kid@) {
            Some(k) => found matches Some(f) && f@ == k,
            None => found is None,
        },
{
    let mut i: usize = 0;
    assert(key_values(keys@).skip(0) =~= key_values(keys@));
    while i < keys.len()
        invariant
            i <= keys@.len(),
            first_key(key_values(keys@).skip(i as int), kid@) == first_key(
                key_values(keys@),
                kid@,
            ),
        decreases keys.len() - i,
    {
        proof {
            let rest = key_values(keys@).skip(i as int);
            assert(rest[0] == keys@[i as int]@);
            assert(rest.skip(1) =~= key_values(keys@).skip(i + 1));
        }
        if let Some(value) = keys[i].get("kid") {
            if let Some(s) = value.as_str() {
                if text::same(s, kid) {
                    return Some(keys[i].duplicate());
                }
            }
        }
        i = i + 1;
    }
    assert(key_values(keys@).skip(i as int) =~= Seq::empty());
    None
}

impl JwksCache {
    /// An empty cache for the given key set URI.
    pub fn new(jwks_uri: String) -> (cache: Self)
        ensures
            cache@ == (KeyCache { jwks_uri: jwks_uri@, keys: None, last_missed_refresh: None }),
    {
        JwksCache { jwks_uri, keys: None, last_missed_refresh: None }
    }

    /// The URI that the key set is fetched from.
    pub fn jwks_uri(&self) -> (uri: &str)
        ensures
            uri@ == self@.jwks_uri,
    {
        self.jwks_uri.as_str()
    }

    /// Whether keys were loaded.
    pub fn has_keys(&self) -> (b: bool)
        ensures
            b == (self@.keys is Some),
    {
        self.keys.is_some()
    }

    /// The cached key that carries `kid`.
    pub fn cached_key(&self, kid: &str) -> (found: Option<Json>)
        ensures
            match cached(self@, kid@) {
                Some(k) => found matches Some(f) && f@ == k,
                None => found is None,
            },
    {
        match &self.keys {
            Some(keys) => find_key(keys, kid),
            None => None,
        }
    }

    /// Look `kid` up at time `now`, without touching the network.
    ///
    /// A cached key is found. An unknown one asks for a fetch, unless a
    /// fetch missed less than the cooldown ago.
    pub fn lookup(&self, kid: &str, now: u128) -> (l: Lookup)
        ensures
            match cached(self@, kid@) {
                Some(k) => l matches Lookup::Found(f) && f@ == k,
                None => if cooling(self@, now) {
                    l is Absent
                } else {
                    l is Fetch
                },
            },
    {
        if let Some(found) = self.cached_key(kid) {
            return Lookup::Found(found);
        }
        if let Some(missed_at) = self.last_missed_refresh {
            if now < missed_at || now - missed_at < UNKNOWN_KID_REFRESH_COOLDOWN {
                return Lookup::Absent;
            }
        }
        Lookup::Fetch
    }

    /// Take in what a fetch on behalf of `kid` brought, and look the key up
    /// once more. A failed fetch leaves the cache as it was.
    pub fn key_for_kid(
        &mut self,
        kid: &str,
        fetched: Result<Vec<Json>, JwksError>,
        now: u128,
    ) -> (r: Result<Option<Json>, JwksError>)
        ensures
            match fetched {
                Ok(keys) => {
                    &&& final(self)@ == after_fetch(old(self)@, kid@, key_values(keys@), now)
                    &&& match first_key(key_values(keys@), kid@) {
                        Some(k) => r matches Ok(Some(f)) && f@ == k,
                        None => r matches Ok(None),
                    }
                },
                Err(e) => final(self)@ == old(self)@ && r == Err::<Option<Json>, JwksError>(e),
            },
    {
        let keys = match fetched {
            Ok(keys) => keys,
            Err(e) => {
                return Err(e);
            },
        };
        let found = find_key(&keys, kid);
        self.keys = Some(keys);
        if found.is_none() {
            self.last_missed_refresh = Some(now);
        }
        Ok(found)
    }

    /// Take in what a background fetch brought: keys replace the cached
    /// ones, a failure leaves the cache as it was.
    pub fn refresh(&mut self, fetched: Result<Vec<Json>, JwksError>) -> (r: Result<(), JwksError>)
        ensures
            final(self)@ == refreshed(old(self)@, fetched),
            match fetched {
                Ok(_) => r is Ok,
                Err(e) => r == Err::<(), JwksError>(e),
            },
    {
        match fetched {
            Ok(keys) => {
                self.keys = Some(keys);
                Ok(())
            },
            Err(e) => Err(e),
        }
    }
}

// ---------------------------------------------------------------------------
// Laws
// ---------------------------------------------------------------------------

/// The first key found is one of the keys and carries the identifier; none
/// is found only where no key carries it.
pub proof fn found_keys_carry_the_kid(keys: Seq<JsonValue>, kid: Seq<char>)
    ensures
        match first_key(keys, kid) {
            Some(k) => has_kid(k, kid) && keys.contains(k),
            None => forall|i: int| 0 <= i < keys.len() ==> !has_kid(#[trigger] keys[i], kid),
        },
    decreases keys.len(),
{
    if keys.len() > 0 && !has_kid(keys[0], kid) {
        found_keys_carry_the_kid(keys.skip(1), kid);
        match first_key(keys.skip(1), kid) {
            Some(k) => {
                let rest = keys.skip(1);
                let i = choose|i: int| 0 <= i < rest.len() && rest[i] == k;
                assert(keys[i + 1] == k);
            },
            None => {
                assert forall|i: int| 0 <= i < keys.len() implies !has_kid(
                    #[trigger] keys[i],
                    kid,
                ) by {
                    if i > 0 {
                        assert(keys.skip(1)[i - 1] == keys[i]);
                    }
                }
            },
        }
    } else if keys.len() > 0 {
        assert(keys.contains(keys[0]));
    }
}

/// After a fetch, a lookup of the same key needs no further fetch: it is
/// found where the fetch brought it, and reported absent until the cooldown
/// has passed where it did not.
pub proof fn a_fetch_settles_the_lookup(
    c: KeyCache,
    kid: Seq<char>,
    keys: Seq<JsonValue>,
    fetched_at: u128,
    now: u128,
)
    requires
        fetched_at <= now,
        now - fetched_at < UNKNOWN_KID_REFRESH_COOLDOWN,
    ensures
        ({
            let after = after_fetch(c, kid, keys, fetched_at);
            cached(after, kid) == first_key(keys, kid) && (cached(after, kid) is None ==> cooling(
                after,
                now,
            ))
        }),
{
}

/// A fetch that brings its key never arms the cooldown.
pub proof fn a_hit_does_not_arm_the_cooldown(
    c: KeyCache,
    kid: Seq<char>,
    keys: Seq<JsonValue>,
    fetched_at: u128,
)
    requires
        first_key(keys, kid) is Some,
    ensures
        after_fetch(c, kid, keys, fetched_at).last_missed_refresh == c.last_missed_refresh,
{
}

/// A key is found by the text of its own `kid` member: the first key that
/// carries it counts, and keys that carry another one, or none, do not.
pub proof fn keys_are_found_by_their_kid(
    front: Seq<JsonValue>,
    key: JsonValue,
    back: Seq<JsonValue>,
    kid: Seq<char>,
)
    requires
        forall|i: int|
            0 <= i < front.len() ==> json::member(#[trigger] front[i], "kid"@) != Some(
                JsonValue::Text(kid),
            ),
        json::member(key, "kid"@) == Some(JsonValue::Text(kid)),
    ensures
        first_key(front, kid) is None,
        first_key(front + seq![key] + back, kid) == Some(key),
    decreases front.len(),
{
    let all = front + seq![key] + back;
    if front.len() == 0 {
        assert(all[0] == key);
    } else {
        assert(all[0] == front[0]);
        assert(all.skip(1) =~= front.skip(1) + seq![key] + back);
        keys_are_found_by_their_kid(front.skip(1), key, back, kid);
    }
}

/// A cache without keys holds none, and one with keys finds what they hold.
pub proof fn caches_find_what_was_loaded(c: KeyCache, kid: Seq<char>)
    ensures
        c.keys is None ==> cached(c, kid) is None,
        c.keys matches Some(keys) ==> cached(c, kid) == first_key(keys, kid),
{
}

/// A missed fetch holds back the next one for ten seconds, and nothing else
/// does.
pub proof fn misses_hold_fetches_back_for_ten_seconds(c: KeyCache, now: u128)
    ensures
        cooling(c, now) <==> (c.last_missed_refresh matches Some(at) && now < at + 10_000_000_000),
{
}

/// A fetch replaces every key and remembers when it missed the key that it
/// was made for. A background fetch replaces the keys and remembers nothing,
/// and one that fails changes nothing.
pub proof fn fetches_replace_the_keys(
    c: KeyCache,
    kid: Seq<char>,
    keys: Seq<JsonValue>,
    now: u128,
    fetched: Result<Vec<Json>, JwksError>,
    i: int,
)
    ensures
        ({
            let after = after_fetch(c, kid, keys, now);
            &&& after.keys == Some(keys)
            &&& after.jwks_uri == c.jwks_uri
            &&& first_key(keys, kid) is None ==> after.last_missed_refresh == Some(now)
            &&& first_key(keys, kid) is Some ==> after.last_missed_refresh == c.last_missed_refresh
        }),
        fetched matches Ok(list) ==> {
            let after = refreshed(c, fetched);
            &&& after.keys is Some
            &&& after.keys->Some_0.len() == list@.len()
            &&& 0 <= i < list@.len() ==> after.keys->Some_0[i] == list@[i]@
            &&& after.jwks_uri == c.jwks_uri
            &&& after.last_missed_refresh == c.last_missed_refresh
        },
        fetched is Err ==> refreshed(c, fetched) == c,
{
}

/// A key that is cached is found without a fetch. One that is not asks for a
/// fetch, unless a fetch missed less than ten seconds ago.
pub proof fn unknown_keys_ask_for_a_fetch(cache: &JwksCache, kid: &str, now: u128, l: Lookup)
    requires
        call_ensures(JwksCache::lookup, (cache, kid, now), l),
    ensures
        l matches Lookup::Found(key) ==> cached(cache@, kid@) == Some(key@),
        l is Found <==> cached(cache@, kid@) is Some,
        l is Fetch <==> cached(cache@, kid@) is None && (cache@.last_missed_refresh matches Some(at)
            ==> now >= at + 10_000_000_000),
{
}

/// A fetch that brought keys puts them in place of the old ones and gives the
/// key that it was made for, if it is among them; one that failed changes
/// nothing and gives its error.
pub proof fn fetched_keys_replace_the_cached_ones(
    cache: &mut JwksCache,
    kid: &str,
    fetched: Result<Vec<Json>, JwksError>,
    now: u128,
    r: Result<Option<Json>, JwksError>,
)
    requires
        call_ensures(JwksCache::key_for_kid, (cache, kid, fetched, now), r),
    ensures
        fetched matches Err(e) ==> r == Err::<Option<Json>, _>(e) && final(cache)@ == old(cache)@,
        fetched matches Ok(keys) ==> {
            &&& final(cache)@.keys is Some
            &&& final(cache)@.keys->Some_0.len() == keys@.len()
            &&& r matches Ok(found) && {
                &&& found matches Some(key) ==> key@ is Object && json::member(key@, "kid"@) == Some(
                    JsonValue::Text(kid@),
                ) && final(cache)@.last_missed_refresh == old(cache)@.last_missed_refresh
                &&& found is None ==> final(cache)@.last_missed_refresh == Some(now)
            }
        },
{
    if let Ok(keys) = fetched {
        found_keys_carry_the_kid(key_values(keys@), kid@);
    }
}

} // verus!

//! The configured token-validation strategy.

use vstd::prelude::*;

use crate::introspection;
use crate::introspection::{Introspection, IntrospectionValidator, Step};
use crate::json::Json;
use crate::jwks;
use crate::jwks::JwksError;
use crate::jwt;
use crate::jwt::{Jwt, JwtStep, JwtValidator};
use crate::validator;

verus! {

/// The validation strategy in effect.
pub enum Validator {
    /// Local validation of JWTs against the cached key set.
    Jwt(JwtValidator),
    /// Remote validation by introspection.
    Introspection(IntrospectionValidator),
}

/// A strategy as a mathematical value.
pub enum Strategy {
    Jwt(Jwt),
    Introspection(Introspection),
}

impl View for Validator {
    type V = Strategy;

    open spec fn view(&self) -> Strategy {
        match self {
            Validator::Jwt(v) => Strategy::Jwt(v@),
            Validator::Introspection(v) => Strategy::Introspection(v@),
        }
    }
}

/// A strategy after a background fetch of the key set: a failure keeps the
/// keys that are loaded, and introspection has no keys.
pub open spec fn refreshed(s: Strategy, fetched: Result<Vec<Json>, JwksError>) -> Strategy {
    match s {
        Strategy::Jwt(v) => Strategy::Jwt(Jwt { jwks: jwks::refreshed(v.jwks, fetched), ..v }),
        Strategy::Introspection(v) => Strategy::Introspection(v),
    }
}

/// The first step of a validation.
pub enum Opening {
    /// How local validation begins.
    Local(JwtStep),
    /// How remote validation begins.
    Remote(Step),
}

impl Validator {
    /// Begin the validation of an `Authorization` header value. `now` is the
    /// time of a monotonic clock in nanoseconds, `unix_now` the time in
    /// seconds since the Unix epoch.
    pub fn validate(&self, authorization: &str, now: u128, unix_now: i64) -> (o: Opening)
        ensures
            match self@ {
                Strategy::Jwt(v) => o matches Opening::Local(step) && jwt::begins(
                    step,
                    v,
                    authorization@,
                    now,
                ),
                Strategy::Introspection(v) => o matches Opening::Remote(step) && (
                match validator::bearer(authorization@) {
                    Err(reason) => step matches Step::Done(Err(e)) && e == reason,
                    Ok(token) => match introspection::from_cache(
                        v,
                        token,
                        now,
                        unix_now as int,
                    ) {
                        Some(outcome) => step matches Step::Done(r) && introspection::gives(
                            r,
                            outcome,
                        ),
                        None => step matches Step::Ask(t) && t@ == token,
                    },
                }),
            },
    {
        match self {
            Validator::Jwt(v) => Opening::Local(v.validate(authorization, now)),
            Validator::Introspection(v) => Opening::Remote(v.validate(authorization, now, unix_now)),
        }
    }

    /// Discard cached answers. Local validation has none.
    pub fn flush_cache(&mut self)
        ensures
            final(self)@ == (match old(self)@ {
                Strategy::Jwt(v) => Strategy::Jwt(v),
                Strategy::Introspection(v) => Strategy::Introspection(
                    Introspection { cache: Seq::empty(), ..v },
                ),
            }),
    {
        match self {
            Validator::Jwt(_) => {},
            Validator::Introspection(v) => {
                v.flush();
            },
        }
    }

    /// Take in what a background fetch of the key set brought. A failure
    /// keeps the keys that are loaded; introspection has no keys.
    pub fn refresh_keys(&mut self, fetched: Result<Vec<Json>, JwksError>)
        ensures
            final(self)@ == refreshed(old(self)@, fetched),
    {
        match self {
            Validator::Jwt(v) => {
                let _ = v.refresh_jwks(fetched);
            },
            Validator::Introspection(_) => {},
        }
    }
}

// ---------------------------------------------------------------------------
// Laws
// ---------------------------------------------------------------------------

/// A background fetch replaces the signing keys of local validation and
/// nothing else; a failed one changes nothing, and introspection has no keys.
pub proof fn refreshes_change_the_keys_alone(
    s: Strategy,
    fetched: Result<Vec<Json>, JwksError>,
    i: int,
)
    ensures
        fetched is Err ==> refreshed(s, fetched) == s,
        s is Introspection ==> refreshed(s, fetched) == s,
        s matches Strategy::Jwt(v) ==> (refreshed(s, fetched) matches Strategy::Jwt(w) && {
            &&& w == (Jwt { jwks: w.jwks, ..v })
            &&& w.jwks.jwks_uri == v.jwks.jwks_uri
            &&& fetched matches Ok(keys) ==> w.jwks.keys is Some && w.jwks.keys->Some_0.len()
                == keys@.len() && (0 <= i < keys@.len() ==> w.jwks.keys->Some_0[i] == keys@[i]@)
        }),
{
}

/// Flushing forgets every cached answer of introspection and nothing else.
pub proof fn flushing_forgets_answers_alone(v: &mut Validator)
    requires
        call_ensures(Validator::flush_cache, (v,), ()),
    ensures
        old(v)@ is Jwt ==> final(v)@ == old(v)@,
        old(v)@ matches Strategy::Introspection(before) ==> (final(v)@ matches Strategy::Introspection(after) && after.cache.len() == 0 && after == (
        Introspection { cache: after.cache, ..before })),
{
}

/// A validation begins in the way of its strategy: locally with the token
/// itself, remotely with what is cached about it.
pub proof fn validations_begin_in_the_way_of_their_strategy(
    v: &Validator,
    authorization: &str,
    now: u128,
    unix_now: i64,
    o: Opening,
)
    requires
        call_ensures(Validator::validate, (v, authorization, now, unix_now), o),
    ensures
        o is Local <==> v@ is Jwt,
        o is Remote <==> v@ is Introspection,
        o matches Opening::Local(step) ==> jwt::begins(step, v@->Jwt_0, authorization@, now),
        o matches Opening::Remote(Step::Ask(token)) ==> validator::bearer(authorization@) == Ok::<
            _,
            validator::FailureReason,
        >(token@) && introspection::from_cache(
            v@->Introspection_0,
            token@,
            now,
            unix_now as int,
        ) is None,
        o matches Opening::Remote(Step::Done(Ok(claims))) ==> (validator::bearer(
            authorization@,
        ) matches Ok(token) && introspection::from_cache(
            v@->Introspection_0,
            token,
            now,
            unix_now as int,
        ) == Some(Ok::<_, validator::FailureReason>(claims@))),
{
}

} // verus!

//! JWT validation.

use vstd::prelude::*;

use crate::claims::ValidatedClaims;
use crate::json;
use crate::json::{Json, JsonValue};
use crate::jwks;
use crate::jwks::{JwksCache, JwksError, KeyCache, Lookup};
use crate::names::NameSet;
use crate::validator;
use crate::validator::{
    Admitted, AdmittedToken, Checks, ClaimChecks, DecodeFault, FailureReason, RawClaims,
};

verus! {

/// Validates JWTs against a configured issuer, resource, principal list and
/// key set.
pub struct JwtValidator {
    checks: ClaimChecks,
    kid_pins: Option<NameSet>,
    reference_time: Option<i64>,
    jwks: JwksCache,
}

/// A JWT validator as a mathematical value.
pub struct Jwt {
    pub checks: Checks,
    pub kid_pins: Option<Set<Seq<char>>>,
    pub reference_time: Option<i64>,
    pub jwks: KeyCache,
}

impl View for JwtValidator {
    type V = Jwt;

    closed spec fn view(&self) -> Jwt {
        Jwt {
            checks: self.checks@,
            kid_pins: validator::pin_set(self.kid_pins),
            reference_time: self.reference_time,
            jwks: self.jwks@,
        }
    }
}

/// The failure that a fault of the signature check stands for.
pub open spec fn decode_failure(fault: DecodeFault) -> FailureReason {
    match fault {
        DecodeFault::Signature => FailureReason::InvalidSignature,
        DecodeFault::Algorithm => FailureReason::InvalidAlgorithm,
        DecodeFault::Other => FailureReason::MalformedToken,
    }
}

/// The claims of an admitted token as bytes, given the key that was found for
/// it.
pub open spec fn opened(a: Admitted, jwk: Option<JsonValue>) -> Result<Seq<u8>, FailureReason> {
    match jwk {
        None => Err(FailureReason::InvalidSignature),
        Some(k) => match validator::material(k) {
            None => Err(FailureReason::InvalidSignature),
            Some(m) => match validator::key_of(m) {
                None => Err(FailureReason::InvalidSignature),
                Some(key) => match validator::signed_claims(a.token, a.algorithm, key) {
                    Ok(claims) => Ok(claims),
                    Err(fault) => Err(decode_failure(fault)),
                },
            },
        },
    }
}

/// The failure that a fault of the signature check stands for.
pub fn map_decode_error(fault: DecodeFault) -> (reason: FailureReason)
    ensures
        reason == decode_failure(fault),
{
    match fault {
        DecodeFault::Signature => FailureReason::InvalidSignature,
        DecodeFault::Algorithm => FailureReason::InvalidAlgorithm,
        DecodeFault::Other => FailureReason::MalformedToken,
    }
}

/// The claims of a token whose signature verified, as the bytes of a JSON
/// text. They need not be UTF-8 where nothing reads them.
#[derive(Debug)]
pub struct SignedClaims {
    bytes: Vec<u8>,
}

impl View for SignedClaims {
    type V = Seq<u8>;

    closed spec fn view(&self) -> Seq<u8> {
        self.bytes@
    }
}

/// Whether claims come from some token whose signature verified.
pub open spec fn vouched_for(claims: Seq<u8>) -> bool {
    exists|a: Admitted, key: jsonwebtoken::DecodingKey|
        #[trigger] validator::signed_claims(a.token, a.algorithm, key) == Ok::<
            Seq<u8>,
            DecodeFault,
        >(claims)
}

impl SignedClaims {
    #[verifier::type_invariant]
    spec fn verified(self) -> bool {
        vouched_for(self.bytes@)
    }

    /// The claims as bytes.
    pub fn as_bytes(&self) -> (bytes: &[u8])
        ensures
            bytes@ == self@,
    {
        self.bytes.as_slice()
    }
}

/// Verify the signature of an admitted token with the key that was found for
/// it, and return its claims. Without a usable key the signature cannot
/// be trusted.
pub fn open_token(admitted: &AdmittedToken, jwk: Option<&Json>) -> (r: Result<
    SignedClaims,
    FailureReason,
>)
    ensures
        match opened(
            admitted@,
            match jwk {
                Some(j) => Some(j@),
                None => None,
            },
        ) {
            Ok(claims) => r matches Ok(c) && c@ == claims,
            Err(reason) => r matches Err(e) && e == reason,
        },
{
    let jwk = match jwk {
        Some(j) => j,
        None => {
            return Err(FailureReason::InvalidSignature);
        },
    };
    let key = match validator::decoding_key(jwk) {
        Ok(key) => key,
        Err(e) => {
            return Err(e);
        },
    };
    match validator::open_signed(admitted.token.as_str(), admitted.algorithm.as_str(), &key) {
        Ok(bytes) => {
            proof {
                let a = admitted@;
                assert(validator::signed_claims(a.token, a.algorithm, key) == Ok::<
                    Seq<u8>,
                    DecodeFault,
                >(bytes@));
            }
            Ok(SignedClaims { bytes })
        },
        Err(fault) => Err(map_decode_error(fault)),
    }
}

/// How a validation goes on.
pub enum JwtStep {
    /// The validation is decided.
    Done(Result<ValidatedClaims, FailureReason>),
    /// The key set has to be fetched on behalf of this token.
    FetchKeys(AdmittedToken),
    /// These claims have to be read.
    ReadClaims(SignedClaims),
}

/// How the validation of an admitted token goes on, given the key that was
/// found for it.
pub open spec fn continues(step: JwtStep, a: Admitted, jwk: Option<JsonValue>) -> bool {
    match opened(a, jwk) {
        Ok(claims) => step matches JwtStep::ReadClaims(s) && s@ == claims,
        Err(reason) => step matches JwtStep::Done(Err(e)) && e == reason,
    }
}

/// How the validation of an `Authorization` header value begins.
pub open spec fn begins(step: JwtStep, jwt: Jwt, authorization: Seq<char>, now: u128) -> bool {
    match validator::bearer(authorization) {
        Err(reason) => step matches JwtStep::Done(Err(e)) && e == reason,
        Ok(token) => match validator::admits(token, validator::jwt_header(token), jwt.kid_pins) {
            Err(reason) => step matches JwtStep::Done(Err(e)) && e == reason,
            Ok(a) => if jwks::cached(jwt.jwks, a.kid) is None && !jwks::cooling(jwt.jwks, now) {
                step matches JwtStep::FetchKeys(t) && t@ == a
            } else {
                continues(step, a, jwks::cached(jwt.jwks, a.kid))
            },
        },
    }
}

fn go_on(admitted: &AdmittedToken, jwk: Option<&Json>) -> (step: JwtStep)
    ensures
        continues(
            step,
            admitted@,
            match jwk {
                Some(j) => Some(j@),
                None => None,
            },
        ),
{
    match open_token(admitted, jwk) {
        Ok(claims) => JwtStep::ReadClaims(claims),
        Err(e) => JwtStep::Done(Err(e)),
    }
}

impl JwtValidator {
    /// A validator without pins.
    pub fn new(
        issuer_url: String,
        resource: String,
        principal_subjects: NameSet,
        clock_skew: u128,
        jwks: JwksCache,
    ) -> (v: Self)
        ensures
            v@ == (Jwt {
                checks: Checks {
                    issuer_url: issuer_url@,
                    resource: resource@,
                    principal_subjects: principal_subjects@,
                    clock_skew,
                },
                kid_pins: None,
                reference_time: None,
                jwks: jwks@,
            }),
    {
        JwtValidator {
            checks: ClaimChecks::new(issuer_url, resource, principal_subjects, clock_skew),
            kid_pins: None,
            reference_time: None,
            jwks,
        }
    }

    /// Accept only keys whose identifiers are pinned.
    pub fn with_kid_pins(self, pins: NameSet) -> (v: Self)
        ensures
            v@ == (Jwt { kid_pins: Some(pins@), ..self@ }),
    {
        JwtValidator { kid_pins: Some(pins), ..self }
    }

    /// Compare `exp` and `nbf` with a fixed time in place of the clock.
    pub fn with_current_time(self, unix_seconds: i64) -> (v: Self)
        ensures
            v@ == (Jwt { reference_time: Some(unix_seconds), ..self@ }),
    {
        JwtValidator { reference_time: Some(unix_seconds), ..self }
    }

    /// Read the token of an `Authorization` header value and decide whether
    /// its header is admitted.
    pub fn admit_token(&self, authorization: &str) -> (r: Result<AdmittedToken, FailureReason>)
        ensures
            match validator::bearer(authorization@) {
                Ok(token) => match validator::admits(
                    token,
                    validator::jwt_header(token),
                    self@.kid_pins,
                ) {
                    Ok(a) => r matches Ok(t) && t@ == a,
                    Err(reason) => r matches Err(e) && e == reason,
                },
                Err(reason) => r matches Err(e) && e == reason,
            },
    {
        let token = match validator::bearer_token(authorization) {
            Ok(token) => token,
            Err(e) => {
                return Err(e);
            },
        };
        let header = validator::decode_header(token);
        validator::admit_header(token, header, &self.kid_pins)
    }

    /// The URI that the key set is fetched from.
    pub fn jwks_uri(&self) -> (uri: &str)
        ensures
            uri@ == self@.jwks.jwks_uri,
    {
        self.jwks.jwks_uri()
    }

    /// Whether signing keys were loaded.
    pub fn has_keys(&self) -> (b: bool)
        ensures
            b == (self@.jwks.keys is Some),
    {
        self.jwks.has_keys()
    }

    /// Look a signing key up at time `now`.
    pub fn lookup_key(&self, kid: &str, now: u128) -> (l: Lookup)
        ensures
            match jwks::cached(self@.jwks, kid@) {
                Some(k) => l matches Lookup::Found(f) && f@ == k,
                None => if jwks::cooling(self@.jwks, now) {
                    l is Absent
                } else {
                    l is Fetch
                },
            },
    {
        self.jwks.lookup(kid, now)
    }

    /// Begin the validation of an `Authorization` header value at time
    /// `now`: read the token, admit its header, and verify its signature if
    /// the key is at hand.
    pub fn validate(&self, authorization: &str, now: u128) -> (step: JwtStep)
        ensures
            begins(step, self@, authorization@, now),
    {
        let token = match self.admit_token(authorization) {
            Ok(token) => token,
            Err(e) => {
                return JwtStep::Done(Err(e));
            },
        };
        match self.lookup_key(token.kid.as_str(), now) {
            Lookup::Found(jwk) => go_on(&token, Some(&jwk)),
            Lookup::Absent => go_on(&token, None),
            Lookup::Fetch => JwtStep::FetchKeys(token),
        }
    }

    /// Go on with a validation once the key set was or was not fetched.
    /// Without the key the signature cannot be trusted.
    pub fn fetched(
        &mut self,
        token: AdmittedToken,
        fetched: Result<Vec<Json>, JwksError>,
        now: u128,
    ) -> (step: JwtStep)
        ensures
            match fetched {
                Ok(keys) => {
                    let keys = jwks::key_values(keys@);
                    &&& final(self)@ == (Jwt {
                        jwks: jwks::after_fetch(old(self)@.jwks, token@.kid, keys, now),
                        ..old(self)@
                    })
                    &&& continues(step, token@, jwks::first_key(keys, token@.kid))
                },
                Err(_) => final(self)@ == old(self)@ && continues(step, token@, None),
            },
    {
        match self.jwks.key_for_kid(token.kid.as_str(), fetched, now) {
            Ok(Some(jwk)) => go_on(&token, Some(&jwk)),
            Ok(None) => go_on(&token, None),
            Err(_) => go_on(&token, None),
        }
    }

    /// Take in what a background fetch brought: keys replace the cached
    /// ones, a failure keeps them.
    pub fn refresh_jwks(&mut self, fetched: Result<Vec<Json>, JwksError>) -> (r: Result<
        (),
        JwksError,
    >)
        ensures
            final(self)@ == (Jwt { jwks: jwks::refreshed(old(self)@.jwks, fetched), ..old(self)@ }),
            match fetched {
                Ok(_) => r is Ok,
                Err(e) => r == Err::<(), JwksError>(e),
            },
    {
        self.jwks.refresh(fetched)
    }

    /// Check the claims of a token whose signature verified. `claims` is what
    /// was read from `signed`; claims that could not be read stand for a
    /// malformed token. `now` is the time of the clock, in seconds since the
    /// Unix epoch.
    pub fn conclude(&self, signed: SignedClaims, claims: Option<RawClaims>, now: i64) -> (r: Result<
        ValidatedClaims,
        FailureReason,
    >)
        ensures
            r is Ok ==> vouched_for(signed@),
            match claims {
                None => r matches Err(e) && e == FailureReason::MalformedToken,
                Some(raw) => match validator::checked(
                    raw@,
                    self@.checks,
                    match self@.reference_time {
                        Some(t) => t as int,
                        None => now as int,
                    },
                ) {
                    Ok(c) => r matches Ok(v) && v@ == c,
                    Err(reason) => r matches Err(e) && e == reason,
                },
            },
    {
        proof {
            use_type_invariant(&signed);
        }
        match claims {
            None => Err(FailureReason::MalformedToken),
            Some(raw) => {
                let now: i64 = match self.reference_time {
                    Some(t) => t,
                    None => now,
                };
                validator::check_claims(raw, &self.checks, now)
            },
        }
    }
}

// ---------------------------------------------------------------------------
// Laws
// ---------------------------------------------------------------------------

/// A fault of the signature check is a failure of the signature, of the
/// algorithm, or of the form of the token.
pub proof fn decode_faults_keep_their_kind(fault: DecodeFault)
    ensures
        decode_failure(fault) == FailureReason::InvalidSignature <==> fault
            == DecodeFault::Signature,
        decode_failure(fault) == FailureReason::InvalidAlgorithm <==> fault
            == DecodeFault::Algorithm,
        decode_failure(fault) == FailureReason::MalformedToken <==> fault == DecodeFault::Other,
{
}

/// A token is opened with the key that its JWK makes, and only where its
/// signature verifies with that key. Without a key, or with a JWK that makes
/// none, the signature counts as invalid.
pub proof fn tokens_are_opened_with_their_own_key(
    a: Admitted,
    jwk: JsonValue,
    key: Option<jsonwebtoken::DecodingKey>,
    x: Seq<char>,
    y: Seq<char>,
)
    requires
        ({
            let kty = json::member(jwk, "kty"@);
            ||| kty == Some(JsonValue::Text("RSA"@)) && json::member(jwk, "n"@) == Some(
                JsonValue::Text(x),
            ) && json::member(jwk, "e"@) == Some(JsonValue::Text(y)) && key == validator::rsa_key(
                x,
                y,
            )
            ||| kty == Some(JsonValue::Text("EC"@)) && json::member(jwk, "x"@) == Some(
                JsonValue::Text(x),
            ) && json::member(jwk, "y"@) == Some(JsonValue::Text(y)) && key == validator::ec_key(
                x,
                y,
            )
            ||| kty == Some(JsonValue::Text("OKP"@)) && json::member(jwk, "x"@) == Some(
                JsonValue::Text(x),
            ) && key == validator::ed_key(x)
        }),
    ensures
        opened(a, None) == Err::<Seq<u8>, _>(FailureReason::InvalidSignature),
        key is None ==> opened(a, Some(jwk)) == Err::<Seq<u8>, _>(FailureReason::InvalidSignature),
        key matches Some(k) ==> match validator::signature_outcome(a.token, a.algorithm, k) {
            Ok(()) => (opened(a, Some(jwk)) matches Ok(claims) ==> validator::signed_claims(
                a.token,
                a.algorithm,
                k,
            ) == Ok::<_, DecodeFault>(claims)) && (validator::signed_claims(
                a.token,
                a.algorithm,
                k,
            ) is Ok ==> opened(a, Some(jwk)) is Ok),
            Err(DecodeFault::Signature) => opened(a, Some(jwk)) == Err::<Seq<u8>, _>(
                FailureReason::InvalidSignature,
            ),
            Err(DecodeFault::Algorithm) => opened(a, Some(jwk)) == Err::<Seq<u8>, _>(
                FailureReason::InvalidAlgorithm,
            ),
            Err(DecodeFault::Other) => opened(a, Some(jwk)) == Err::<Seq<u8>, _>(
                FailureReason::MalformedToken,
            ),
        },
{
    validator::keys_are_made_of_their_members(jwk, x, y);
}

/// A validation begins by no success: claims are read before a token is let
/// through. Claims are read only of a token that is admitted and whose
/// signature verifies with a cached key, keys are fetched only for an
/// admitted token whose key is not cached and that no recent miss holds back,
/// and a token that is refused at once is refused for its own fault.
pub proof fn validations_begin_with_the_signature(
    step: JwtStep,
    jwt: Jwt,
    authorization: Seq<char>,
    now: u128,
)
    requires
        begins(step, jwt, authorization, now),
    ensures
        !(step matches JwtStep::Done(Ok(_))),
        ({
            let token = validator::bearer(authorization);
            let admitted = match token {
                Ok(t) => validator::admits(t, validator::jwt_header(t), jwt.kid_pins),
                Err(reason) => Err(reason),
            };
            match admitted {
                Err(reason) => step matches JwtStep::Done(Err(e)) && e == reason,
                Ok(a) => match jwks::cached(jwt.jwks, a.kid) {
                    Some(jwk) => match opened(a, Some(jwk)) {
                        Ok(claims) => step matches JwtStep::ReadClaims(s) && s@ == claims,
                        Err(reason) => step matches JwtStep::Done(Err(e)) && e == reason,
                    },
                    None => if jwks::cooling(jwt.jwks, now) {
                        step matches JwtStep::Done(Err(e)) && e == FailureReason::InvalidSignature
                    } else {
                        step matches JwtStep::FetchKeys(t) && t@ == a
                    },
                },
            }
        }),
{
}

/// A validation goes on to the claims exactly where the token could be
/// opened, and otherwise ends with the failure.
pub proof fn validations_go_on_with_verified_claims(
    step: JwtStep,
    a: Admitted,
    jwk: Option<JsonValue>,
)
    requires
        continues(step, a, jwk),
    ensures
        step is ReadClaims <==> opened(a, jwk) is Ok,
        step matches JwtStep::ReadClaims(s) ==> opened(a, jwk) == Ok::<_, FailureReason>(s@),
        step matches JwtStep::Done(r) ==> (r matches Err(e) && opened(a, jwk) == Err::<Seq<u8>, _>(
            e,
        )),
        !(step is FetchKeys),
{
}

/// A token is let through only where its signature verified and its claims
/// pass the checks; claims that could not be read are malformed.
pub proof fn tokens_are_let_through_by_signature_and_claims(
    v: &JwtValidator,
    signed: SignedClaims,
    claims: Option<RawClaims>,
    now: i64,
    r: Result<ValidatedClaims, FailureReason>,
)
    requires
        call_ensures(JwtValidator::conclude, (v, signed, claims, now), r),
    ensures
        r is Ok ==> claims is Some && vouched_for(signed@),
        claims is None ==> r == Err::<ValidatedClaims, _>(FailureReason::MalformedToken),
        claims matches Some(raw) ==> match validator::checked(
            raw@,
            v@.checks,
            match v@.reference_time {
                Some(t) => t as int,
                None => now as int,
            },
        ) {
            Ok(c) => r matches Ok(x) && x@ == c,
            Err(reason) => r == Err::<ValidatedClaims, _>(reason),
        },
{
}

/// Once the keys were fetched the token is opened with the key of its own id,
/// and without that key, or where the fetch failed, its signature is invalid.
pub proof fn fetched_keys_open_their_token(
    v: &mut JwtValidator,
    token: AdmittedToken,
    fetched: Result<Vec<Json>, JwksError>,
    now: u128,
    step: JwtStep,
)
    requires
        call_ensures(JwtValidator::fetched, (v, token, fetched, now), step),
    ensures
        fetched is Err ==> (step matches JwtStep::Done(Err(FailureReason::InvalidSignature)))
            && final(v)@ == old(v)@,
        fetched matches Ok(keys) ==> match jwks::first_key(
            jwks::key_values(keys@),
            token.kid@,
        ) {
            None => step matches JwtStep::Done(Err(FailureReason::InvalidSignature)),
            Some(jwk) => step is ReadClaims <==> opened(token@, Some(jwk)) is Ok,
        },
        !(step matches JwtStep::Done(Ok(_))),
        final(v)@.checks == old(v)@.checks,
        final(v)@.kid_pins == old(v)@.kid_pins,
{
}

/// Claims that are vouched for are the payload of a token whose signature
/// verified with some key.
pub proof fn vouched_claims_come_from_a_verified_token(claims: Seq<u8>)
    ensures
        vouched_for(claims) ==> exists|a: Admitted, key: jsonwebtoken::DecodingKey|
            (#[trigger] validator::signature_outcome(a.token, a.algorithm, key)) is Ok && (
            validator::payload_of(a.token) matches Some(p) && validator::base64_bytes(p) == Some(
                claims,
            )),
{
    if vouched_for(claims) {
        let (a, key) = choose|a: Admitted, key: jsonwebtoken::DecodingKey|
            #[trigger] validator::signed_claims(a.token, a.algorithm, key) == Ok::<
                Seq<u8>,
                DecodeFault,
            >(claims);
        assert(validator::signature_outcome(a.token, a.algorithm, key) is Ok);
    }
}

} // verus!

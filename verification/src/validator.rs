//! Token validation.
//!
//! The claim checks are shared by both strategies. A JWT is first admitted
//! by its header, then its signature is verified with the key that its `kid`
//! names, and then its claims are checked.

use vstd::prelude::*;

use crate::claims::{Claims, ValidatedClaims};
use crate::json;
use crate::json::{Json, JsonValue};
use crate::names::{Duplicate, NameSet};
use crate::text;

verus! {

/// The names of the signing algorithms that are accepted: asymmetric ones
/// only.
pub const ASYMMETRIC_ALGORITHM_NAMES: [&'static str; 9] = [
    "RS256", "RS384", "RS512", "PS256", "PS384", "PS512", "ES256", "ES384", "EdDSA",
];

/// Whether an algorithm is accepted.
pub open spec fn accepted(name: Seq<char>) -> bool {
    exists|i: int|
        0 <= i < ASYMMETRIC_ALGORITHM_NAMES@.len() && (#[trigger] ASYMMETRIC_ALGORITHM_NAMES@[i])@
            == name
}

/// Whether an algorithm is accepted.
fn is_accepted(name: &str) -> (b: bool)
    ensures
        b == accepted(name@),
{
    let names = ASYMMETRIC_ALGORITHM_NAMES;
    let mut i: usize = 0;
    while i < names.len()
        invariant
            i <= names@.len(),
            names == ASYMMETRIC_ALGORITHM_NAMES,
            forall|k: int| 0 <= k < i ==> (#[trigger] names@[k])@ != name@,
        decreases names.len() - i,
    {
        if text::same(names[i], name) {
            return true;
        }
        i = i + 1;
    }
    false
}

/// Why a token failed validation.
#[derive(Debug, Clone, Copy, PartialEq, Eq, Structural)]
pub enum FailureReason {
    /// No bearer token was present.
    MissingToken,
    /// The token is not well formed.
    MalformedToken,
    /// The signature did not verify.
    InvalidSignature,
    /// The algorithm is not accepted.
    InvalidAlgorithm,
    /// The `iss` claim is not the configured issuer.
    InvalidIssuer,
    /// The `aud` claim does not bind to the configured resource.
    InvalidAudience,
    /// The token has expired.
    Expired,
    /// The token is not yet valid.
    NotYetValid,
    /// The `sub` claim is not an admitted principal.
    UnknownPrincipal,
    /// The token lacks a scope that the server requires.
    MissingScope,
    /// The signing key is not pinned.
    KidNotPinned,
    /// The token is not active, or its state could not be asked for.
    Inactive,
}

/// The message of a failure reason.
pub open spec fn failure_message(reason: FailureReason) -> Seq<char> {
    match reason {
        FailureReason::MissingToken => "no bearer token present"@,
        FailureReason::MalformedToken => "malformed token"@,
        FailureReason::InvalidSignature => "invalid signature"@,
        FailureReason::InvalidAlgorithm => "invalid or disallowed algorithm"@,
        FailureReason::InvalidIssuer => "invalid issuer"@,
        FailureReason::InvalidAudience => "invalid audience"@,
        FailureReason::Expired => "token expired"@,
        FailureReason::NotYetValid => "token not yet valid"@,
        FailureReason::UnknownPrincipal => "unknown principal"@,
        FailureReason::MissingScope => "missing required scope"@,
        FailureReason::KidNotPinned => "signing key is not pinned"@,
        FailureReason::Inactive => "token is not active"@,
    }
}

impl FailureReason {
    /// The message shown to operators. It carries no token bytes.
    pub fn message(self) -> (m: &'static str)
        ensures
            m@ == failure_message(self),
    {
        match self {
            FailureReason::MissingToken => "no bearer token present",
            FailureReason::MalformedToken => "malformed token",
            FailureReason::InvalidSignature => "invalid signature",
            FailureReason::InvalidAlgorithm => "invalid or disallowed algorithm",
            FailureReason::InvalidIssuer => "invalid issuer",
            FailureReason::InvalidAudience => "invalid audience",
            FailureReason::Expired => "token expired",
            FailureReason::NotYetValid => "token not yet valid",
            FailureReason::UnknownPrincipal => "unknown principal",
            FailureReason::MissingScope => "missing required scope",
            FailureReason::KidNotPinned => "signing key is not pinned",
            FailureReason::Inactive => "token is not active",
        }
    }
}

// ---------------------------------------------------------------------------
// Claims
// ---------------------------------------------------------------------------

/// A token's `aud` claim.
#[derive(Debug)]
pub enum Audience {
    /// A single audience.
    One(String),
    /// An array of audiences.
    Many(Vec<String>),
}

/// The claims that are checked.
#[derive(Debug)]
pub struct RawClaims {
    /// The issuer.
    pub iss: String,
    /// The subject.
    pub sub: String,
    /// The audience.
    pub aud: Option<Audience>,
    /// The expiry, in seconds since the Unix epoch.
    pub exp: i64,
    /// The not-before, in seconds since the Unix epoch.
    pub nbf: Option<i64>,
    /// The scopes, separated by white space.
    pub scope: Option<String>,
}

/// What the claims of a token are checked against.
pub struct ClaimChecks {
    /// The issuer that `iss` must equal.
    pub issuer_url: String,
    /// The resource that `aud` must bind to.
    pub resource: String,
    /// The subjects that are admitted.
    pub principal_subjects: NameSet,
    /// Tolerance of the `exp` and `nbf` checks, in nanoseconds.
    pub clock_skew: u128,
}

/// `RawClaims` as a mathematical value.
pub struct Token {
    pub iss: Seq<char>,
    pub sub: Seq<char>,
    pub aud: Option<Aud>,
    pub exp: int,
    pub nbf: Option<int>,
    pub scope: Option<Seq<char>>,
}

/// `Audience` as a mathematical value.
pub enum Aud {
    One(Seq<char>),
    Many(Seq<Seq<char>>),
}

/// `ClaimChecks` as a mathematical value.
pub struct Checks {
    pub issuer_url: Seq<char>,
    pub resource: Seq<char>,
    pub principal_subjects: Set<Seq<char>>,
    pub clock_skew: u128,
}

impl View for Audience {
    type V = Aud;

    open spec fn view(&self) -> Aud {
        match self {
            Audience::One(value) => Aud::One(value@),
            Audience::Many(values) => Aud::Many(text::views(values@)),
        }
    }
}

impl View for RawClaims {
    type V = Token;

    open spec fn view(&self) -> Token {
        Token {
            iss: self.iss@,
            sub: self.sub@,
            aud: match self.aud {
                Some(a) => Some(a@),
                None => None,
            },
            exp: self.exp as int,
            nbf: match self.nbf {
                Some(n) => Some(n as int),
                None => None,
            },
            scope: text::opt(self.scope),
        }
    }
}

impl View for ClaimChecks {
    type V = Checks;

    open spec fn view(&self) -> Checks {
        Checks {
            issuer_url: self.issuer_url@,
            resource: self.resource@,
            principal_subjects: self.principal_subjects@,
            clock_skew: self.clock_skew,
        }
    }
}

impl Duplicate for Audience {
    fn duplicate(&self) -> (copy: Self) {
        match self {
            Audience::One(value) => Audience::One(value.clone()),
            Audience::Many(values) => Audience::Many(text::copy_all(values)),
        }
    }
}

impl Duplicate for RawClaims {
    fn duplicate(&self) -> (copy: Self) {
        RawClaims {
            iss: self.iss.clone(),
            sub: self.sub.clone(),
            aud: match &self.aud {
                Some(a) => Some(a.duplicate()),
                None => None,
            },
            exp: self.exp,
            nbf: self.nbf,
            scope: text::copy_opt(&self.scope),
        }
    }
}

impl ClaimChecks {
    /// Bundle the parameters of the claim checks.
    pub fn new(
        issuer_url: String,
        resource: String,
        principal_subjects: NameSet,
        clock_skew: u128,
    ) -> (checks: Self)
        ensures
            checks@ == (Checks {
                issuer_url: issuer_url@,
                resource: resource@,
                principal_subjects: principal_subjects@,
                clock_skew,
            }),
    {
        ClaimChecks { issuer_url, resource, principal_subjects, clock_skew }
    }
}

/// Whether an `aud` claim binds to a resource: it names the resource and
/// nothing else.
pub open spec fn binds(aud: Option<Aud>, resource: Seq<char>) -> bool {
    match aud {
        Some(Aud::One(value)) => value == resource,
        Some(Aud::Many(values)) => values.len() > 0 && forall|i: int|
            0 <= i < values.len() ==> #[trigger] values[i] == resource,
        None => false,
    }
}

/// Whole seconds of a span in nanoseconds, as far as they fit in 64 bits.
pub open spec fn whole_seconds(nanos: u128) -> int {
    let seconds = nanos as int / 1_000_000_000;
    if seconds > i64::MAX {
        i64::MAX as int
    } else {
        seconds
    }
}

/// `n` moved into the range of `i64`.
pub open spec fn clamped(n: int) -> int {
    if n > i64::MAX {
        i64::MAX as int
    } else if n < i64::MIN {
        i64::MIN as int
    } else {
        n
    }
}

/// The outcome of the claim checks at time `now`: the first check that fails
/// decides.
pub open spec fn checked(t: Token, c: Checks, now: int) -> Result<Claims, FailureReason> {
    let skew = whole_seconds(c.clock_skew);
    if t.iss != c.issuer_url {
        Err(FailureReason::InvalidIssuer)
    } else if !binds(t.aud, c.resource) {
        Err(FailureReason::InvalidAudience)
    } else if t.exp <= clamped(now - skew) {
        Err(FailureReason::Expired)
    } else if t.nbf matches Some(nbf) && nbf > clamped(now + skew) {
        Err(FailureReason::NotYetValid)
    } else if !c.principal_subjects.contains(t.sub) {
        Err(FailureReason::UnknownPrincipal)
    } else {
        Ok(
            Claims {
                subject: t.sub,
                scopes: match t.scope {
                    Some(s) => text::words(s).to_set(),
                    None => Set::empty(),
                },
            },
        )
    }
}

/// Whether the `aud` claim binds to the configured resource.
pub fn audience_binds_to(audience: Option<&Audience>, resource: &str) -> (b: bool)
    ensures
        b == binds(
            match audience {
                Some(a) => Some(a@),
                None => None,
            },
            resource@,
        ),
{
    match audience {
        Some(Audience::One(value)) => text::same(value.as_str(), resource),
        Some(Audience::Many(values)) => {
            if values.len() == 0 {
                return false;
            }
            let mut i: usize = 0;
            while i < values.len()
                invariant
                    i <= values@.len(),
                    audience matches Some(a) && *a == Audience::Many(*values),
                    forall|k: int|
                        0 <= k < i ==> #[trigger] text::views(values@)[k] == resource@,
                decreases values.len() - i,
            {
                if !text::same(values[i].as_str(), resource) {
                    assert(text::views(values@)[i as int] != resource@);
                    return false;
                }
                i = i + 1;
            }
            true
        },
        None => false,
    }
}

/// The clock-skew tolerance as whole seconds.
pub fn skew_seconds(skew: u128) -> (seconds: i64)
    ensures
        seconds == whole_seconds(skew),
{
    let seconds: u128 = skew / 1_000_000_000;
    if seconds > i64::MAX as u128 {
        i64::MAX
    } else {
        seconds as i64
    }
}

/// `n` moved into the range of `i64`.
fn clamp(n: i128) -> (r: i64)
    ensures
        r == clamped(n as int),
{
    if n > i64::MAX as i128 {
        i64::MAX
    } else if n < i64::MIN as i128 {
        i64::MIN
    } else {
        n as i64
    }
}

/// Check the claims that both strategies share.
pub fn check_claims(raw: RawClaims, checks: &ClaimChecks, now: i64) -> (r: Result<
    ValidatedClaims,
    FailureReason,
>)
    ensures
        match checked(raw@, checks@, now as int) {
            Ok(claims) => r matches Ok(c) && c@ == claims,
            Err(reason) => r matches Err(e) && e == reason,
        },
{
    if !text::same(raw.iss.as_str(), checks.issuer_url.as_str()) {
        return Err(FailureReason::InvalidIssuer);
    }
    if !audience_binds_to(raw.aud.as_ref(), checks.resource.as_str()) {
        return Err(FailureReason::InvalidAudience);
    }
    let skew = skew_seconds(checks.clock_skew);
    if raw.exp <= clamp(now as i128 - skew as i128) {
        return Err(FailureReason::Expired);
    }
    if let Some(nbf) = raw.nbf {
        if nbf > clamp(now as i128 + skew as i128) {
            return Err(FailureReason::NotYetValid);
        }
    }
    if !checks.principal_subjects.contains(raw.sub.as_str()) {
        return Err(FailureReason::UnknownPrincipal);
    }
    let scopes = match &raw.scope {
        Some(scope) => NameSet::from_list(&text::split_words(scope.as_str())),
        None => NameSet::new(),
    };
    Ok(ValidatedClaims::new(raw.sub, scopes))
}

// ---------------------------------------------------------------------------
// The token of an `Authorization` header
// ---------------------------------------------------------------------------

/// The bearer token of an `Authorization` header value. The scheme matches
/// in any case.
pub open spec fn bearer(authorization: Seq<char>) -> Result<Seq<char>, FailureReason> {
    let at = text::seek(authorization, ' ', 0);
    let token = text::trimmed(authorization.skip(at + 1));
    if at < authorization.len() && text::fold(authorization.take(at)) == text::fold("Bearer"@)
        && token.len() > 0 {
        Ok(token)
    } else {
        Err(FailureReason::MissingToken)
    }
}

/// Take the bearer token out of an `Authorization` header value.
pub fn bearer_token(authorization: &str) -> (r: Result<&str, FailureReason>)
    ensures
        match bearer(authorization@) {
            Ok(token) => r matches Ok(t) && t@ == token,
            Err(reason) => r matches Err(e) && e == reason,
        },
{
    let v = text::chars_of(authorization);
    let at = text::find_char(&v, ' ', 0);
    if at == v.len() {
        return Err(FailureReason::MissingToken);
    }
    let scheme = text::text_of_range(&v, 0, at);
    assert(scheme@ =~= authorization@.take(at as int));
    if !text::same_ignoring_case(scheme.as_str(), "Bearer") {
        return Err(FailureReason::MissingToken);
    }
    let (from, to) = text::trimmed_range(&v, at + 1);
    if from == to {
        return Err(FailureReason::MissingToken);
    }
    Ok(authorization.substring_char(from, to))
}

// ---------------------------------------------------------------------------
// JWT header
// ---------------------------------------------------------------------------

/// What a JWT header says: the algorithm and the key identifier.
#[derive(Debug)]
pub struct TokenHeader {
    pub algorithm: String,
    pub kid: Option<String>,
}

impl View for TokenHeader {
    type V = (Seq<char>, Option<Seq<char>>);

    open spec fn view(&self) -> (Seq<char>, Option<Seq<char>>) {
        (self.algorithm@, text::opt(self.kid))
    }
}

/// The algorithm and key identifier of a token's header, as
/// `jsonwebtoken::decode_header` reads them; `None` for a token that it
/// refuses.
pub uninterp spec fn jwt_header(token: Seq<char>) -> Option<(Seq<char>, Option<Seq<char>>)>;

/// Read a token's header with `jsonwebtoken::decode_header`, without
/// checking the signature. The algorithm is given by its name. The claim is
/// that the outcome depends on the token alone.
#[verifier::external_body]
pub(crate) fn decode_header(token: &str) -> (header: Option<TokenHeader>)
    ensures
        match header {
            Some(h) => jwt_header(token@) == Some(h@),
            None => jwt_header(token@) is None,
        },
{
    let header = jsonwebtoken::decode_header(token).ok()?;
    Some(TokenHeader { algorithm: format!("{:?}", header.alg), kid: header.kid })
}

/// A token whose header was admitted, with the key that it names.
#[derive(Debug)]
pub struct AdmittedToken {
    pub token: String,
    pub algorithm: String,
    pub kid: String,
}

/// An admitted token as a mathematical value.
pub struct Admitted {
    pub token: Seq<char>,
    pub algorithm: Seq<char>,
    pub kid: Seq<char>,
}

impl View for AdmittedToken {
    type V = Admitted;

    open spec fn view(&self) -> Admitted {
        Admitted { token: self.token@, algorithm: self.algorithm@, kid: self.kid@ }
    }
}

/// Whether a token with the given header is admitted: its algorithm is
/// accepted, it names a key, and the key is pinned where there are pins.
pub open spec fn admits(
    token: Seq<char>,
    header: Option<(Seq<char>, Option<Seq<char>>)>,
    pins: Option<Set<Seq<char>>>,
) -> Result<Admitted, FailureReason> {
    match header {
        None => Err(FailureReason::MalformedToken),
        Some((algorithm, kid)) => if !accepted(algorithm) {
            Err(FailureReason::InvalidAlgorithm)
        } else {
            match kid {
                None => Err(FailureReason::MalformedToken),
                Some(k) => if pins matches Some(p) && !p.contains(k) {
                    Err(FailureReason::KidNotPinned)
                } else {
                    Ok(Admitted { token, algorithm, kid: k })
                },
            }
        },
    }
}

/// Decide whether a token with the given header is admitted.
pub fn admit_header(
    token: &str,
    header: Option<TokenHeader>,
    pins: &Option<NameSet>,
) -> (r: Result<AdmittedToken, FailureReason>)
    ensures
        match admits(
            token@,
            match header {
                Some(h) => Some(h@),
                None => None,
            },
            pin_set(*pins),
        ) {
            Ok(a) => r matches Ok(t) && t@ == a,
            Err(reason) => r matches Err(e) && e == reason,
        },
{
    let header = match header {
        Some(h) => h,
        None => {
            return Err(FailureReason::MalformedToken);
        },
    };
    if !is_accepted(header.algorithm.as_str()) {
        return Err(FailureReason::InvalidAlgorithm);
    }
    let kid = match header.kid {
        Some(k) => k,
        None => {
            return Err(FailureReason::MalformedToken);
        },
    };
    if let Some(p) = pins {
        if !p.contains(kid.as_str()) {
            return Err(FailureReason::KidNotPinned);
        }
    }
    Ok(AdmittedToken { token: token.to_owned(), algorithm: header.algorithm, kid })
}

/// The pinned key identifiers, where there are pins.
pub open spec fn pin_set(pins: Option<NameSet>) -> Option<Set<Seq<char>>> {
    match pins {
        Some(p) => Some(p@),
        None => None,
    }
}

// ---------------------------------------------------------------------------
// Signature
// ---------------------------------------------------------------------------

/// A key that signatures are verified with.
#[verifier::external_type_specification]
#[verifier::external_body]
pub struct ExDecodingKey(jsonwebtoken::DecodingKey);

/// The public parts of a key.
#[derive(Debug)]
pub enum KeyMaterial {
    Ec { x: String, y: String },
    Rsa { n: String, e: String },
    Okp { x: String },
}

/// The public parts of a key as a mathematical value.
pub enum Material {
    Ec { x: Seq<char>, y: Seq<char> },
    Rsa { n: Seq<char>, e: Seq<char> },
    Okp { x: Seq<char> },
}

impl View for KeyMaterial {
    type V = Material;

    open spec fn view(&self) -> Material {
        match self {
            KeyMaterial::Ec { x, y } => Material::Ec { x: x@, y: y@ },
            KeyMaterial::Rsa { n, e } => Material::Rsa { n: n@, e: e@ },
            KeyMaterial::Okp { x } => Material::Okp { x: x@ },
        }
    }
}

/// The text of a key's member.
pub open spec fn key_text(jwk: JsonValue, name: Seq<char>) -> Option<Seq<char>> {
    match json::member(jwk, name) {
        Some(JsonValue::Text(s)) => Some(s),
        _ => None,
    }
}

/// The public parts of a JWK, by its key type.
pub open spec fn material(jwk: JsonValue) -> Option<Material> {
    match key_text(jwk, "kty"@) {
        Some(kty) => if kty == "EC"@ {
            match (key_text(jwk, "x"@), key_text(jwk, "y"@)) {
                (Some(x), Some(y)) => Some(Material::Ec { x, y }),
                _ => None,
            }
        } else if kty == "RSA"@ {
            match (key_text(jwk, "n"@), key_text(jwk, "e"@)) {
                (Some(n), Some(e)) => Some(Material::Rsa { n, e }),
                _ => None,
            }
        } else if kty == "OKP"@ {
            match key_text(jwk, "x"@) {
                Some(x) => Some(Material::Okp { x }),
                None => None,
            }
        } else {
            None
        },
        None => None,
    }
}

/// The text of a key's member; without it there is no usable key.
fn jwk_field(jwk: &Json, name: &str) -> (r: Result<String, FailureReason>)
    ensures
        match key_text(jwk@, name@) {
            Some(s) => r matches Ok(t) && t@ == s,
            None => r matches Err(e) && e == FailureReason::InvalidSignature,
        },
{
    match jwk.get(name) {
        Some(value) => match value.as_str() {
            Some(s) => Ok(s.to_owned()),
            None => Err(FailureReason::InvalidSignature),
        },
        None => Err(FailureReason::InvalidSignature),
    }
}

/// Take the public parts out of a JWK.
pub fn key_material(jwk: &Json) -> (r: Result<KeyMaterial, FailureReason>)
    ensures
        match material(jwk@) {
            Some(m) => r matches Ok(k) && k@ == m,
            None => r matches Err(e) && e == FailureReason::InvalidSignature,
        },
{
    proof {
        reveal_strlit("EC");
        reveal_strlit("RSA");
        reveal_strlit("OKP");
    }
    let kty = match jwk_field(jwk, "kty") {
        Ok(kty) => kty,
        Err(e) => {
            return Err(e);
        },
    };
    if text::same(kty.as_str(), "EC") {
        match (jwk_field(jwk, "x"), jwk_field(jwk, "y")) {
            (Ok(x), Ok(y)) => Ok(KeyMaterial::Ec { x, y }),
            _ => Err(FailureReason::InvalidSignature),
        }
    } else if text::same(kty.as_str(), "RSA") {
        match (jwk_field(jwk, "n"), jwk_field(jwk, "e")) {
            (Ok(n), Ok(e)) => Ok(KeyMaterial::Rsa { n, e }),
            _ => Err(FailureReason::InvalidSignature),
        }
    } else if text::same(kty.as_str(), "OKP") {
        match jwk_field(jwk, "x") {
            Ok(x) => Ok(KeyMaterial::Okp { x }),
            Err(e) => Err(e),
        }
    } else {
        Err(FailureReason::InvalidSignature)
    }
}

/// The key that `jsonwebtoken::DecodingKey::from_ec_components` makes.
pub uninterp spec fn ec_key(x: Seq<char>, y: Seq<char>) -> Option<jsonwebtoken::DecodingKey>;

/// The key that `jsonwebtoken::DecodingKey::from_rsa_components` makes.
pub uninterp spec fn rsa_key(n: Seq<char>, e: Seq<char>) -> Option<jsonwebtoken::DecodingKey>;

/// The key that `jsonwebtoken::DecodingKey::from_ed_components` makes.
pub uninterp spec fn ed_key(x: Seq<char>) -> Option<jsonwebtoken::DecodingKey>;

/// Why a signed token could not be opened.
#[derive(Debug, Clone, Copy, PartialEq, Eq, Structural)]
pub enum DecodeFault {
    /// The signature does not match.
    Signature,
    /// The algorithm does not fit the key.
    Algorithm,
    /// Anything else.
    Other,
}

/// Whether the signature of a token verifies and its claims are JSON, as
/// `jsonwebtoken::decode` finds, or what it objects to.
pub uninterp spec fn signature_outcome(
    token: Seq<char>,
    algorithm: Seq<char>,
    key: jsonwebtoken::DecodingKey,
) -> Result<(), DecodeFault>;

/// The bytes that a text stands for in the URL-safe base64 alphabet without
/// padding, as `base64` decodes it; `None` for a text that it refuses.
pub uninterp spec fn base64_bytes(text: Seq<char>) -> Option<Seq<u8>>;

/// Make a key with `jsonwebtoken::DecodingKey::from_ec_components`. The claim
/// is that the outcome depends on the components alone.
#[verifier::external_body]
fn key_from_ec(x: &str, y: &str) -> (key: Option<jsonwebtoken::DecodingKey>)
    ensures
        key == ec_key(x@, y@),
{
    jsonwebtoken::DecodingKey::from_ec_components(x, y).ok()
}

/// Make a key with `jsonwebtoken::DecodingKey::from_rsa_components`. The
/// claim is that the outcome depends on the components alone.
#[verifier::external_body]
fn key_from_rsa(n: &str, e: &str) -> (key: Option<jsonwebtoken::DecodingKey>)
    ensures
        key == rsa_key(n@, e@),
{
    jsonwebtoken::DecodingKey::from_rsa_components(n, e).ok()
}

/// Make a key with `jsonwebtoken::DecodingKey::from_ed_components`. The claim
/// is that the outcome depends on the component alone.
#[verifier::external_body]
fn key_from_ed(x: &str) -> (key: Option<jsonwebtoken::DecodingKey>)
    ensures
        key == ed_key(x@),
{
    jsonwebtoken::DecodingKey::from_ed_components(x).ok()
}

/// Verify a token's signature with `jsonwebtoken::decode`. Every check of the
/// claims but that they are JSON is switched off, so that the outcome depends
/// on the token, the algorithm and the key alone.
#[verifier::external_body]
fn verify_signature(token: &str, algorithm: &str, key: &jsonwebtoken::DecodingKey) -> (r: Result<
    (),
    DecodeFault,
>)
    ensures
        r == signature_outcome(token@, algorithm@, *key),
{
    let algorithm = algorithm.parse().map_err(|_| DecodeFault::Algorithm)?;
    let mut validation = jsonwebtoken::Validation::new(algorithm);
    validation.validate_exp = false;
    validation.validate_nbf = false;
    validation.validate_aud = false;
    validation.required_spec_claims.clear();
    match jsonwebtoken::decode::<serde::de::IgnoredAny>(token, key, &validation) {
        Ok(_) => Ok(()),
        Err(error) => Err(match error.kind() {
            jsonwebtoken::errors::ErrorKind::InvalidSignature => DecodeFault::Signature,
            jsonwebtoken::errors::ErrorKind::InvalidAlgorithm
            | jsonwebtoken::errors::ErrorKind::InvalidAlgorithmName => DecodeFault::Algorithm,
            _ => DecodeFault::Other,
        }),
    }
}

/// Decode a text with the URL-safe engine of `base64` that takes no padding.
/// The claim is that the outcome depends on the text alone.
#[verifier::external_body]
fn decode_base64(text: &str) -> (bytes: Option<Vec<u8>>)
    ensures
        match bytes {
            Some(b) => base64_bytes(text@) == Some(b@),
            None => base64_bytes(text@) is None,
        },
{
    base64::Engine::decode(&base64::engine::general_purpose::URL_SAFE_NO_PAD, text).ok()
}

/// The payload of a token: what stands between its last two dots.
pub open spec fn payload_of(token: Seq<char>) -> Option<Seq<char>> {
    let end = text::seek_last(token, '.');
    let start = text::seek_last(token.take(end), '.');
    if end < 0 || start < 0 {
        None
    } else {
        Some(token.subrange(start + 1, end))
    }
}

/// The payload of a token, as text.
fn payload(token: &str) -> (p: Option<String>)
    ensures
        text::opt(p) == payload_of(token@),
{
    let v = text::chars_of(token);
    assert(v@.take(v@.len() as int) =~= v@);
    let end = match text::find_last_char(&v, '.', v.len()) {
        Some(end) => end,
        None => {
            return None;
        },
    };
    match text::find_last_char(&v, '.', end) {
        Some(start) => Some(text::text_of_range(&v, start + 1, end)),
        None => None,
    }
}

/// The claims of a token whose signature verifies, as the bytes of its
/// payload. A payload that cannot be decoded is at fault too.
pub open spec fn signed_claims(
    token: Seq<char>,
    algorithm: Seq<char>,
    key: jsonwebtoken::DecodingKey,
) -> Result<Seq<u8>, DecodeFault> {
    match signature_outcome(token, algorithm, key) {
        Err(fault) => Err(fault),
        Ok(()) => match payload_of(token) {
            Some(p) => match base64_bytes(p) {
                Some(claims) => Ok(claims),
                None => Err(DecodeFault::Other),
            },
            None => Err(DecodeFault::Other),
        },
    }
}

/// The claims of a token whose signature was verified with the given outcome,
/// as the bytes of its payload.
pub fn claims_bytes(token: &str, outcome: Result<(), DecodeFault>) -> (r: Result<
    Vec<u8>,
    DecodeFault,
>)
    ensures
        match outcome {
            Err(fault) => r == Err::<Vec<u8>, DecodeFault>(fault),
            Ok(()) => match payload_of(token@) {
                Some(p) => match base64_bytes(p) {
                    Some(claims) => r matches Ok(c) && c@ == claims,
                    None => r == Err::<Vec<u8>, DecodeFault>(DecodeFault::Other),
                },
                None => r == Err::<Vec<u8>, DecodeFault>(DecodeFault::Other),
            },
        },
{
    match outcome {
        Err(fault) => Err(fault),
        Ok(()) => match payload(token) {
            Some(p) => match decode_base64(p.as_str()) {
                Some(claims) => Ok(claims),
                None => Err(DecodeFault::Other),
            },
            None => Err(DecodeFault::Other),
        },
    }
}

/// Verify a token's signature and return its claims as bytes.
pub fn open_signed(token: &str, algorithm: &str, key: &jsonwebtoken::DecodingKey) -> (r: Result<
    Vec<u8>,
    DecodeFault,
>)
    ensures
        match signed_claims(token@, algorithm@, *key) {
            Ok(claims) => r matches Ok(c) && c@ == claims,
            Err(fault) => r matches Err(e) && e == fault,
        },
{
    claims_bytes(token, verify_signature(token, algorithm, key))
}

/// Make the key that a JWK describes. A key that is unsupported or
/// malformed stands for an invalid signature.
pub fn decoding_key(jwk: &Json) -> (r: Result<jsonwebtoken::DecodingKey, FailureReason>)
    ensures
        match material(jwk@) {
            Some(m) => match key_of(m) {
                Some(key) => r matches Ok(k) && k == key,
                None => r matches Err(e) && e == FailureReason::InvalidSignature,
            },
            None => r matches Err(e) && e == FailureReason::InvalidSignature,
        },
{
    let key = match key_material(jwk) {
        Ok(KeyMaterial::Ec { x, y }) => key_from_ec(x.as_str(), y.as_str()),
        Ok(KeyMaterial::Rsa { n, e }) => key_from_rsa(n.as_str(), e.as_str()),
        Ok(KeyMaterial::Okp { x }) => key_from_ed(x.as_str()),
        Err(e) => {
            return Err(e);
        },
    };
    match key {
        Some(key) => Ok(key),
        None => Err(FailureReason::InvalidSignature),
    }
}

/// The key made of the public parts of a JWK.
pub open spec fn key_of(m: Material) -> Option<jsonwebtoken::DecodingKey> {
    match m {
        Material::Ec { x, y } => ec_key(x, y),
        Material::Rsa { n, e } => rsa_key(n, e),
        Material::Okp { x } => ed_key(x),
    }
}

// ---------------------------------------------------------------------------
// The clock
// ---------------------------------------------------------------------------

/// A time of the system's clock.
#[verifier::external_type_specification]
#[verifier::external_body]
pub struct ExSystemTime(std::time::SystemTime);

/// The whole seconds from the Unix epoch to a time; `None` for one before it.
pub uninterp spec fn seconds_since_epoch(time: std::time::SystemTime) -> Option<u64>;

/// `std::time::SystemTime::now`. Nothing is claimed of the time, which is the
/// machine's.
#[verifier::external_body]
fn current_time() -> std::time::SystemTime {
    std::time::SystemTime::now()
}

/// `std::time::SystemTime::duration_since` the Unix epoch, in whole seconds.
/// The claim is that the number depends on the time alone.
#[verifier::external_body]
fn unix_seconds(time: &std::time::SystemTime) -> (elapsed: Option<u64>)
    ensures
        elapsed == seconds_since_epoch(*time),
{
    time.duration_since(std::time::UNIX_EPOCH).ok().map(|elapsed| elapsed.as_secs())
}

/// Whether the clock may show this time.
pub closed spec fn clock_shows(time: std::time::SystemTime) -> bool {
    call_ensures(current_time, (), time)
}

/// The time of a clock that shows `elapsed` seconds since the Unix epoch: 0
/// for a clock that stands before it, and the latest time that fits for one
/// that runs past it.
pub open spec fn clock_time(elapsed: Option<u64>) -> int {
    match elapsed {
        None => 0,
        Some(s) => if s <= i64::MAX {
            s as int
        } else {
            i64::MAX as int
        },
    }
}

/// The time of a clock that shows `elapsed` seconds since the Unix epoch: 0
/// for a clock that stands before it, and the latest time that fits for one
/// that runs past it.
pub fn time_of_clock(elapsed: Option<u64>) -> (seconds: i64)
    ensures
        seconds == clock_time(elapsed),
{
    match elapsed {
        None => 0,
        Some(s) => if s > i64::MAX as u64 {
            i64::MAX
        } else {
            s as i64
        },
    }
}

/// The current time as whole seconds since the Unix epoch.
pub fn now_unix_seconds() -> (seconds: i64)
    ensures
        seconds >= 0,
        exists|time: std::time::SystemTime| #[trigger]
            clock_shows(time) && seconds == clock_time(seconds_since_epoch(time)),
{
    let time = current_time();
    assert(clock_shows(time));
    time_of_clock(unix_seconds(&time))
}

// ---------------------------------------------------------------------------
// Laws
// ---------------------------------------------------------------------------

/// The payload of a token is the part before its signature, whatever stands
/// before it.
pub proof fn payloads_stand_before_the_signature(
    header: Seq<char>,
    payload: Seq<char>,
    signature: Seq<char>,
)
    requires
        !payload.contains('.'),
        !signature.contains('.'),
    ensures
        payload_of(header + seq!['.'] + payload + seq!['.'] + signature) == Some(payload),
{
    let token = header + seq!['.'] + payload + seq!['.'] + signature;
    let start = header.len() as int;
    let end = start + 1 + payload.len();
    assert forall|k: int| end < k < token.len() implies token[k] != '.' by {
        assert(signature.contains(signature[k - end - 1]));
    }
    text::lemma_seek_last_unique(token, '.', end);
    assert forall|k: int| start < k < end implies token.take(end)[k] != '.' by {
        assert(payload.contains(payload[k - start - 1]));
    }
    text::lemma_seek_last_unique(token.take(end), '.', start);
    assert(token.subrange(start + 1, end) =~= payload);
}

/// A token's claims are accepted exactly where every check passes.
pub proof fn claims_are_accepted_iff_every_check_passes(t: Token, c: Checks, now: int)
    ensures
        checked(t, c, now) is Ok <==> {
            let skew = whole_seconds(c.clock_skew);
            &&& t.iss == c.issuer_url
            &&& binds(t.aud, c.resource)
            &&& t.exp > clamped(now - skew)
            &&& t.nbf matches Some(nbf) ==> nbf <= clamped(now + skew)
            &&& c.principal_subjects.contains(t.sub)
        },
        checked(t, c, now) matches Ok(claims) ==> claims.subject == t.sub,
{
}

/// A token that has expired stays expired: at any later time it is refused.
pub proof fn expired_tokens_stay_expired(t: Token, c: Checks, now: int, later: int)
    requires
        checked(t, c, now) == Err::<Claims, FailureReason>(FailureReason::Expired),
        now <= later,
    ensures
        checked(t, c, later) == Err::<Claims, FailureReason>(FailureReason::Expired),
{
}

/// A token that names an audience beside the resource is refused, even where
/// the resource is among its audiences.
pub proof fn foreign_audiences_are_refused(t: Token, c: Checks, now: int, i: int)
    requires
        t.iss == c.issuer_url,
        t.aud matches Some(Aud::Many(values)) && 0 <= i < values.len() && values[i] != c.resource,
    ensures
        checked(t, c, now) == Err::<Claims, FailureReason>(FailureReason::InvalidAudience),
{
}

/// A token whose algorithm is not accepted is refused by its header alone,
/// whatever key it names and whatever pins there are.
pub proof fn unaccepted_algorithms_are_refused(
    token: Seq<char>,
    header: (Seq<char>, Option<Seq<char>>),
    pins: Option<Set<Seq<char>>>,
)
    requires
        !accepted(header.0),
    ensures
        admits(token, Some(header), pins) == Err::<Admitted, FailureReason>(
            FailureReason::InvalidAlgorithm,
        ),
{
}

/// An unsigned or symmetric algorithm is never accepted.
pub proof fn symmetric_algorithms_are_not_accepted(name: Seq<char>)
    requires
        text::begins_with(text::upper_all(name), "HS"@) || text::upper_all(name) == "NONE"@,
    ensures
        !accepted(name),
{
    reveal_strlit("HS");
    reveal_strlit("NONE");
    reveal_strlit("RS256");
    reveal_strlit("RS384");
    reveal_strlit("RS512");
    reveal_strlit("PS256");
    reveal_strlit("PS384");
    reveal_strlit("PS512");
    reveal_strlit("ES256");
    reveal_strlit("ES384");
    reveal_strlit("EdDSA");
    if accepted(name) {
        let i = choose|i: int|
            0 <= i < ASYMMETRIC_ALGORITHM_NAMES@.len() && (
            #[trigger] ASYMMETRIC_ALGORITHM_NAMES@[i])@ == name;
        assert(name[0] == 'R' || name[0] == 'P' || name[0] == 'E');
        assert(text::upper_all(name)[0] == name[0]);
        if text::begins_with(text::upper_all(name), "HS"@) {
            assert(text::upper_all(name).take(2)[0] == 'H');
        }
    }
}

/// The algorithms that tokens are verified with are the nine asymmetric ones,
/// by their registered names and by no other spelling.
pub proof fn accepted_algorithms_are_the_asymmetric_ones(name: Seq<char>)
    ensures
        accepted(name) <==> {
            ||| name == "RS256"@ || name == "RS384"@ || name == "RS512"@
            ||| name == "PS256"@ || name == "PS384"@ || name == "PS512"@
            ||| name == "ES256"@ || name == "ES384"@
            ||| name == "EdDSA"@
        },
{
    let all = ASYMMETRIC_ALGORITHM_NAMES@;
    assert(all.len() == 9);
    assert(all[0]@ == "RS256"@ && all[1]@ == "RS384"@ && all[2]@ == "RS512"@);
    assert(all[3]@ == "PS256"@ && all[4]@ == "PS384"@ && all[5]@ == "PS512"@);
    assert(all[6]@ == "ES256"@ && all[7]@ == "ES384"@ && all[8]@ == "EdDSA"@);
    if accepted(name) {
        let i = choose|i: int| 0 <= i < all.len() && (#[trigger] all[i])@ == name;
        assert(i == 0 || i == 1 || i == 2 || i == 3 || i == 4 || i == 5 || i == 6 || i == 7 || i
            == 8);
    }
}

/// The key of a JWK is made of its own members, each in its own place: the
/// modulus and the exponent of an RSA key, the two coordinates of a key on a
/// curve, and the one of an Edwards key. A JWK of another type, or one that
/// lacks a member, makes none.
pub proof fn keys_are_made_of_their_members(jwk: JsonValue, a: Seq<char>, b: Seq<char>)
    ensures
        ({
            let kty = json::member(jwk, "kty"@);
            let rsa = kty == Some(JsonValue::Text("RSA"@));
            let ec = kty == Some(JsonValue::Text("EC"@));
            let okp = kty == Some(JsonValue::Text("OKP"@));
            let (n, e) = (json::member(jwk, "n"@), json::member(jwk, "e"@));
            let (x, y) = (json::member(jwk, "x"@), json::member(jwk, "y"@));
            &&& rsa && n == Some(JsonValue::Text(a)) && e == Some(JsonValue::Text(b)) ==> material(
                jwk,
            ) == Some(Material::Rsa { n: a, e: b }) && key_of(material(jwk)->Some_0) == rsa_key(
                a,
                b,
            )
            &&& ec && x == Some(JsonValue::Text(a)) && y == Some(JsonValue::Text(b)) ==> material(
                jwk,
            ) == Some(Material::Ec { x: a, y: b }) && key_of(material(jwk)->Some_0) == ec_key(a, b)
            &&& okp && x == Some(JsonValue::Text(a)) ==> material(jwk) == Some(
                Material::Okp { x: a },
            ) && key_of(material(jwk)->Some_0) == ed_key(a)
            &&& !rsa && !ec && !okp ==> material(jwk) is None
            &&& rsa && !((n matches Some(JsonValue::Text(_))) && (e matches Some(
                JsonValue::Text(_),
            ))) ==> material(jwk) is None
            &&& ec && !((x matches Some(JsonValue::Text(_))) && (y matches Some(
                JsonValue::Text(_),
            ))) ==> material(jwk) is None
            &&& okp && !(x matches Some(JsonValue::Text(_))) ==> material(jwk) is None
        }),
{
    reveal_strlit("RSA");
    reveal_strlit("EC");
    reveal_strlit("OKP");
    assert("RSA"@[0] == 'R' && "EC"@.len() == 2 && "OKP"@[0] == 'O');
}

/// The parts of a key keep their places.
pub proof fn key_parts_keep_their_places(m: KeyMaterial)
    ensures
        m matches KeyMaterial::Rsa { n, e } ==> m@ == (Material::Rsa { n: n@, e: e@ }),
        m matches KeyMaterial::Ec { x, y } ==> m@ == (Material::Ec { x: x@, y: y@ }),
        m matches KeyMaterial::Okp { x } ==> m@ == (Material::Okp { x: x@ }),
{
}

/// A token's claims are the bytes of its payload where its signature verifies
/// with the key, and are not to be had where it does not.
pub proof fn claims_are_had_from_verified_tokens_only(
    header: Seq<char>,
    payload: Seq<char>,
    signature: Seq<char>,
    algorithm: Seq<char>,
    key: jsonwebtoken::DecodingKey,
)
    requires
        !payload.contains('.'),
        !signature.contains('.'),
    ensures
        ({
            let token = header + seq!['.'] + payload + seq!['.'] + signature;
            let claims = signed_claims(token, algorithm, key);
            &&& claims is Ok <==> signature_outcome(token, algorithm, key) is Ok && base64_bytes(
                payload,
            ) is Some
            &&& claims matches Ok(bytes) ==> base64_bytes(payload) == Some(bytes)
            &&& signature_outcome(token, algorithm, key) matches Err(fault) ==> claims == Err::<
                Seq<u8>,
                _,
            >(fault)
        }),
{
    payloads_stand_before_the_signature(header, payload, signature);
}

/// The token of an `Authorization` header is what follows the scheme `Bearer`,
/// in any case, without the white space around it. Another scheme, no scheme
/// and nothing behind the scheme carry no token.
pub proof fn bearer_tokens_follow_the_scheme(
    scheme: Seq<char>,
    front: Seq<char>,
    token: Seq<char>,
    back: Seq<char>,
)
    requires
        !scheme.contains(' '),
        forall|i: int| 0 <= i < front.len() ==> text::white_space(#[trigger] front[i]),
        forall|i: int| 0 <= i < back.len() ==> text::white_space(#[trigger] back[i]),
        token.len() > 0 ==> !text::white_space(token[0]) && !text::white_space(token.last()),
    ensures
        ({
            let header = scheme + seq![' '] + front + token + back;
            &&& bearer(header) == if text::fold(scheme) == text::fold("Bearer"@) && token.len() > 0 {
                Ok::<_, FailureReason>(token)
            } else {
                Err::<Seq<char>, _>(FailureReason::MissingToken)
            }
            &&& bearer(scheme) == Err::<Seq<char>, _>(FailureReason::MissingToken)
        }),
{
    let header = scheme + seq![' '] + front + token + back;
    let n = scheme.len() as int;
    assert forall|k: int| 0 <= k < n implies header[k] != ' ' && scheme[k] != ' ' by {
        assert(scheme.contains(scheme[k]));
        assert(header[k] == scheme[k]);
    }
    assert(header[n] == ' ');
    text::lemma_seek_unique(header, ' ', 0, n);
    text::lemma_seek_unique(scheme, ' ', 0, n);
    assert(header.take(n) =~= scheme);
    assert(header.skip(n + 1) =~= front + token + back);
    text::trimming_loses_white_space_only(front, token, back);
}

/// An audience binds to a resource where it is the resource, or a list that
/// holds the resource and nothing else.
pub proof fn audiences_name_the_resource_alone(
    one: Seq<char>,
    many: Seq<Seq<char>>,
    resource: Seq<char>,
)
    ensures
        binds(Some(Aud::One(one)), resource) <==> one == resource,
        binds(Some(Aud::Many(many)), resource) <==> many.contains(resource) && forall|a: Seq<char>|
            #[trigger] many.contains(a) ==> a == resource,
        !binds(None, resource),
{
    if many.contains(resource) && forall|a: Seq<char>| #[trigger]
        many.contains(a) ==> a == resource {
        assert forall|i: int| 0 <= i < many.len() implies #[trigger] many[i] == resource by {
            assert(many.contains(many[i]));
        }
    }
    if binds(Some(Aud::Many(many)), resource) {
        assert(many[0] == resource);
    }
}

/// The clock skew counts in whole seconds, and times that fit in 64 bits are
/// compared as they are.
pub proof fn skews_count_in_whole_seconds(nanos: u128, n: int)
    ensures
        nanos < 9_223_372_036_854_775_808_000_000_000 ==> whole_seconds(nanos) * 1_000_000_000
            <= nanos < (whole_seconds(nanos) + 1) * 1_000_000_000,
        nanos >= 9_223_372_036_854_775_807_000_000_000 ==> whole_seconds(nanos)
            == 9_223_372_036_854_775_807,
        i64::MIN <= n <= i64::MAX ==> clamped(n) == n,
        n > i64::MAX ==> clamped(n) == i64::MAX,
        n < i64::MIN ==> clamped(n) == i64::MIN,
{
}

/// The first check that fails decides which failure is reported: the issuer,
/// the audience, the expiry, the start, the principal. A token that passes
/// has its own subject and the words of its own scope.
pub proof fn the_first_failing_check_is_reported(t: Token, c: Checks, now: int, scope: Seq<char>)
    requires
        i64::MIN <= now - c.clock_skew as int / 1_000_000_000,
        now + c.clock_skew as int / 1_000_000_000 <= i64::MAX,
        c.clock_skew as int / 1_000_000_000 <= i64::MAX,
    ensures
        ({
            let skew = c.clock_skew as int / 1_000_000_000;
            let issuer = t.iss == c.issuer_url;
            let audience = binds(t.aud, c.resource);
            let current = t.exp + skew > now;
            let started = t.nbf is None || t.nbf->Some_0 - skew <= now;
            let known = c.principal_subjects.contains(t.sub);
            match checked(t, c, now) {
                Err(FailureReason::InvalidIssuer) => !issuer,
                Err(FailureReason::InvalidAudience) => issuer && !audience,
                Err(FailureReason::Expired) => issuer && audience && !current,
                Err(FailureReason::NotYetValid) => issuer && audience && current && !started,
                Err(FailureReason::UnknownPrincipal) => issuer && audience && current && started
                    && !known,
                Err(_) => false,
                Ok(claims) => issuer && audience && current && started && known && claims.subject
                    == t.sub && (claims.scopes.contains(scope) <==> (t.scope matches Some(s)
                    && text::words(s).contains(scope))),
            }
        }),
{
}

/// A token is admitted with an accepted algorithm and the id of a key that is
/// pinned, if keys are; the algorithm is looked at before the key.
pub proof fn admitted_tokens_name_a_pinned_key(
    token: Seq<char>,
    algorithm: Seq<char>,
    kid: Option<Seq<char>>,
    pins: Option<Set<Seq<char>>>,
)
    ensures
        admits(token, None, pins) == Err::<Admitted, _>(FailureReason::MalformedToken),
        !accepted(algorithm) ==> admits(token, Some((algorithm, kid)), pins) == Err::<Admitted, _>(
            FailureReason::InvalidAlgorithm,
        ),
        accepted(algorithm) && kid is None ==> admits(token, Some((algorithm, kid)), pins) == Err::<
            Admitted,
            _,
        >(FailureReason::MalformedToken),
        accepted(algorithm) && kid is Some && (pins is None || pins->Some_0.contains(kid->Some_0))
            ==> (admits(token, Some((algorithm, kid)), pins) matches Ok(a) && a.token == token
            && a.algorithm == algorithm && a.kid == kid->Some_0),
        accepted(algorithm) && kid is Some && pins is Some && !pins->Some_0.contains(kid->Some_0)
            ==> admits(token, Some((algorithm, kid)), pins) == Err::<Admitted, _>(
            FailureReason::KidNotPinned,
        ),
{
}

/// The time of a clock is what it shows, as far as that fits, and never
/// before the epoch; a clock that shows more has no earlier time.
pub proof fn clocks_show_their_time(a: u64, b: u64)
    ensures
        a <= 9_223_372_036_854_775_807 ==> clock_time(Some(a)) == a,
        a <= b ==> clock_time(Some(a)) <= clock_time(Some(b)),
        clock_time(Some(b)) <= 9_223_372_036_854_775_807,
        clock_time(None) == 0,
{
}

/// The message of a failure says what it was that failed.
pub proof fn failure_messages_say_what_failed()
    ensures
        text::mentions(failure_message(FailureReason::MissingToken), "no bearer token"@),
        text::mentions(failure_message(FailureReason::MalformedToken), "malformed"@),
        text::mentions(failure_message(FailureReason::InvalidSignature), "signature"@),
        text::mentions(failure_message(FailureReason::InvalidAlgorithm), "algorithm"@),
        text::mentions(failure_message(FailureReason::InvalidIssuer), "issuer"@),
        text::mentions(failure_message(FailureReason::InvalidAudience), "audience"@),
        text::mentions(failure_message(FailureReason::Expired), "expired"@),
        text::mentions(failure_message(FailureReason::NotYetValid), "not yet valid"@),
        text::mentions(failure_message(FailureReason::UnknownPrincipal), "principal"@),
        text::mentions(failure_message(FailureReason::MissingScope), "required scope"@),
        text::mentions(failure_message(FailureReason::KidNotPinned), "not pinned"@),
        text::mentions(failure_message(FailureReason::Inactive), "not active"@),
{
    reveal_strlit("no bearer token present");
    reveal_strlit("no bearer token");
    let s = "no bearer token present"@;
    assert(s =~= s.take(0) + "no bearer token"@ + s.skip(15));
    text::lemma_mentions(s.take(0), "no bearer token"@, s.skip(15));
    reveal_strlit("malformed token");
    reveal_strlit("malformed");
    let s = "malformed token"@;
    assert(s =~= s.take(0) + "malformed"@ + s.skip(9));
    text::lemma_mentions(s.take(0), "malformed"@, s.skip(9));
    reveal_strlit("invalid signature");
    reveal_strlit("signature");
    let s = "invalid signature"@;
    assert(s =~= s.take(8) + "signature"@ + s.skip(17));
    text::lemma_mentions(s.take(8), "signature"@, s.skip(17));
    reveal_strlit("invalid or disallowed algorithm");
    reveal_strlit("algorithm");
    let s = "invalid or disallowed algorithm"@;
    assert(s =~= s.take(22) + "algorithm"@ + s.skip(31));
    text::lemma_mentions(s.take(22), "algorithm"@, s.skip(31));
    reveal_strlit("invalid issuer");
    reveal_strlit("issuer");
    let s = "invalid issuer"@;
    assert(s =~= s.take(8) + "issuer"@ + s.skip(14));
    text::lemma_mentions(s.take(8), "issuer"@, s.skip(14));
    reveal_strlit("invalid audience");
    reveal_strlit("audience");
    let s = "invalid audience"@;
    assert(s =~= s.take(8) + "audience"@ + s.skip(16));
    text::lemma_mentions(s.take(8), "audience"@, s.skip(16));
    reveal_strlit("token expired");
    reveal_strlit("expired");
    let s = "token expired"@;
    assert(s =~= s.take(6) + "expired"@ + s.skip(13));
    text::lemma_mentions(s.take(6), "expired"@, s.skip(13));
    reveal_strlit("token not yet valid");
    reveal_strlit("not yet valid");
    let s = "token not yet valid"@;
    assert(s =~= s.take(6) + "not yet valid"@ + s.skip(19));
    text::lemma_mentions(s.take(6), "not yet valid"@, s.skip(19));
    reveal_strlit("unknown principal");
    reveal_strlit("principal");
    let s = "unknown principal"@;
    assert(s =~= s.take(8) + "principal"@ + s.skip(17));
    text::lemma_mentions(s.take(8), "principal"@, s.skip(17));
    reveal_strlit("missing required scope");
    reveal_strlit("required scope");
    let s = "missing required scope"@;
    assert(s =~= s.take(8) + "required scope"@ + s.skip(22));
    text::lemma_mentions(s.take(8), "required scope"@, s.skip(22));
    reveal_strlit("signing key is not pinned");
    reveal_strlit("not pinned");
    let s = "signing key is not pinned"@;
    assert(s =~= s.take(15) + "not pinned"@ + s.skip(25));
    text::lemma_mentions(s.take(15), "not pinned"@, s.skip(25));
    reveal_strlit("token is not active");
    reveal_strlit("not active");
    let s = "token is not active"@;
    assert(s =~= s.take(9) + "not active"@ + s.skip(19));
    text::lemma_mentions(s.take(9), "not active"@, s.skip(19));
}

/// The material of a key is read off the JWK member by member, and the key is
/// made of it in the order that its type has.
pub proof fn keys_are_read_member_by_member(
    jwk: &Json,
    read: Result<KeyMaterial, FailureReason>,
    made: Result<jsonwebtoken::DecodingKey, FailureReason>,
    a: Seq<char>,
    b: Seq<char>,
)
    requires
        call_ensures(key_material, (jwk,), read),
        call_ensures(decoding_key, (jwk,), made),
        json::member(jwk@, "kty"@) == Some(JsonValue::Text("RSA"@)),
        json::member(jwk@, "n"@) == Some(JsonValue::Text(a)),
        json::member(jwk@, "e"@) == Some(JsonValue::Text(b)),
    ensures
        read matches Ok(KeyMaterial::Rsa { n, e }) && n@ == a && e@ == b,
        rsa_key(a, b) matches Some(key) ==> made == Ok::<_, FailureReason>(key),
        rsa_key(a, b) is None ==> made == Err::<jsonwebtoken::DecodingKey, _>(
            FailureReason::InvalidSignature,
        ),
{
    keys_are_made_of_their_members(jwk@, a, b);
}

/// The claims of a token are let through only where they are for this issuer,
/// this resource and a principal of the list, and are current.
pub proof fn claims_are_let_through_by_every_check(
    raw: RawClaims,
    checks: &ClaimChecks,
    now: i64,
    r: Result<ValidatedClaims, FailureReason>,
)
    requires
        call_ensures(check_claims, (raw, checks, now), r),
        checks.clock_skew == 0,
    ensures
        r matches Ok(claims) ==> {
            &&& raw.iss@ == checks.issuer_url@
            &&& raw.aud matches Some(audience) && binds(Some(audience@), checks.resource@)
            &&& raw.exp > now
            &&& raw.nbf matches Some(nbf) ==> nbf <= now
            &&& checks.principal_subjects@.contains(raw.sub@)
            &&& claims@.subject == raw.sub@
        },
        raw.iss@ == checks.issuer_url@ && (raw.aud matches Some(Audience::One(a)) && a@
            == checks.resource@) && raw.exp > now && raw.nbf is None
            && checks.principal_subjects@.contains(raw.sub@) ==> r is Ok,
{
    claims_are_accepted_iff_every_check_passes(raw@, checks@, now as int);
}

/// A token without two dots has no payload.
pub proof fn tokens_have_two_dots(a: Seq<char>, b: Seq<char>)
    requires
        !a.contains('.'),
        !b.contains('.'),
    ensures
        payload_of(a) is None,
        payload_of(a + seq!['.'] + b) is None,
{
    assert forall|k: int| 0 <= k < a.len() implies a[k] != '.' by {
        assert(a.contains(a[k]));
    }
    text::lemma_seek_last_unique(a, '.', -1);
    let t = a + seq!['.'] + b;
    let n = a.len() as int;
    assert(t[n] == '.');
    assert forall|k: int| n < k < t.len() implies t[k] != '.' by {
        assert(b.contains(b[k - n - 1]));
    }
    text::lemma_seek_last_unique(t, '.', n);
    assert(t.take(n) =~= a);
}

/// Pins are those that were set, where any were.
pub proof fn pins_are_those_that_were_set(pins: NameSet)
    ensures
        pin_set(Some(pins)) == Some(pins@),
        pin_set(None) is None,
{
}

} // verus!

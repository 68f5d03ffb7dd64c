//! Authorisation-server discovery.
//!
//! The metadata document is fetched from the OpenID Connect path, or from
//! the RFC 8414 path where the first one answers 404. A document is trusted
//! after it meets the configured hash pin, names the configured issuer and
//! advertises no unsigned or symmetric algorithm.

use vstd::prelude::*;

use crate::digest;
use crate::text;
use crate::validator;

verus! {

/// The part of an authorisation server's metadata that the gateway uses.
#[derive(Debug)]
pub struct DiscoveryDocument {
    /// The issuer identifier.
    pub issuer: String,
    /// The key set endpoint.
    pub jwks_uri: String,
    /// The introspection endpoint.
    pub introspection_endpoint: Option<String>,
    /// The signing algorithms that the server advertises.
    pub signing_algorithms: Vec<String>,
    /// The scopes that the server advertises.
    pub scopes_supported: Vec<String>,
    /// Whether the server advertises the RFC 8707 `resource` parameter.
    pub resource_indicators_supported: bool,
}

/// Why a discovery document was not obtained.
#[derive(Debug)]
pub enum DiscoveryError {
    /// The request failed.
    Request(String),
    /// The body is not a metadata document.
    Parse(String),
    /// The endpoint answered with a status that is neither success nor the
    /// 404 of the first path.
    UnexpectedStatus { status: u16 },
    /// The document advertises an unsigned or symmetric algorithm.
    UnsupportedAlgorithm(String),
    /// The body does not have the pinned hash.
    DiscoveryHashMismatch { expected: String, actual: String },
    /// The document names another issuer.
    IssuerMismatch { configured: String, advertised: String },
}

/// A discovery error as a mathematical value.
pub enum Refusal {
    Request(Seq<char>),
    Parse(Seq<char>),
    UnexpectedStatus(u16),
    UnsupportedAlgorithm(Seq<char>),
    DiscoveryHashMismatch(Seq<char>, Seq<char>),
    IssuerMismatch(Seq<char>, Seq<char>),
}

impl View for DiscoveryError {
    type V = Refusal;

    open spec fn view(&self) -> Refusal {
        match self {
            DiscoveryError::Request(e) => Refusal::Request(e@),
            DiscoveryError::Parse(e) => Refusal::Parse(e@),
            DiscoveryError::UnexpectedStatus { status } => Refusal::UnexpectedStatus(*status),
            DiscoveryError::UnsupportedAlgorithm(name) => Refusal::UnsupportedAlgorithm(name@),
            DiscoveryError::DiscoveryHashMismatch {
                expected,
                actual,
            } => Refusal::DiscoveryHashMismatch(expected@, actual@),
            DiscoveryError::IssuerMismatch { configured, advertised } => Refusal::IssuerMismatch(
                configured@,
                advertised@,
            ),
        }
    }
}

// ---------------------------------------------------------------------------
// Well-known URLs
// ---------------------------------------------------------------------------

/// The least position at or after `from` at which `s` holds `://`, or the
/// length of `s`.
pub open spec fn scheme_end(s: Seq<char>, from: int) -> int
    decreases s.len() - from,
{
    if from < 0 || from >= s.len() {
        s.len() as int
    } else if text::matches_at(s, "://"@, from) {
        from
    } else {
        scheme_end(s, from + 1)
    }
}

/// `s` without trailing slashes.
pub open spec fn without_slashes(s: Seq<char>) -> Seq<char>
    decreases s.len(),
{
    if s.len() > 0 && s.last() == '/' {
        without_slashes(s.drop_last())
    } else {
        s
    }
}

/// The origin of a URL and the path behind it, without the slashes around
/// the path; `None` for a text without `://`.
pub open spec fn origin_and_path(url: Seq<char>) -> Option<(Seq<char>, Seq<char>)> {
    let scheme = scheme_end(url, 0);
    if scheme >= url.len() {
        None
    } else {
        let slash = text::seek(url, '/', scheme + 3);
        if slash < url.len() {
            Some((url.take(slash), without_slashes(url.skip(slash + 1))))
        } else {
            Some((url, Seq::empty()))
        }
    }
}

/// The well-known URL of a base: the well-known segment stands between the
/// origin and the path.
pub open spec fn well_known(base: Seq<char>, suffix: Seq<char>) -> Seq<char> {
    match origin_and_path(base) {
        Some((origin, path)) => if path.len() > 0 {
            origin + "/.well-known/"@ + suffix + "/"@ + path
        } else {
            origin + "/.well-known/"@ + suffix
        },
        None => base + "/.well-known/"@ + suffix,
    }
}

proof fn lemma_scheme_end(s: Seq<char>, from: int)
    requires
        0 <= from <= s.len(),
    ensures
        from <= scheme_end(s, from) <= s.len(),
        scheme_end(s, from) < s.len() ==> text::matches_at(s, "://"@, scheme_end(s, from)),
    decreases s.len() - from,
{
    if from < s.len() && !text::matches_at(s, "://"@, from) {
        lemma_scheme_end(s, from + 1);
    }
}

/// Split a URL into its origin and the path behind it.
pub fn split_origin_and_path(url: &str) -> (r: Option<(String, String)>)
    ensures
        match origin_and_path(url@) {
            Some((origin, path)) => r matches Some(p) && p.0@ == origin && p.1@ == path,
            None => r is None,
        },
{
    let v = text::chars_of(url);
    let mut at: usize = 0;
    while at < v.len() && !text::holds_at(&v, "://", at)
        invariant
            at <= v.len(),
            v@ == url@,
            scheme_end(url@, at as int) == scheme_end(url@, 0),
        decreases v.len() - at,
    {
        at = at + 1;
    }
    if at == v.len() {
        return None;
    }
    proof {
        lemma_scheme_end(url@, 0);
        reveal_strlit("://");
    }
    let slash = text::find_char(&v, '/', at + 3);
    let origin = text::text_of_range(&v, 0, slash);
    assert(origin@ =~= url@.take(slash as int));
    if slash == v.len() {
        assert(origin@ =~= url@);
        return Some((origin, String::new()));
    }
    let mut end: usize = v.len();
    while end > slash + 1 && v[end - 1] == '/'
        invariant
            slash + 1 <= end <= v.len(),
            v@ == url@,
            without_slashes(v@.subrange(slash + 1, end as int)) == without_slashes(
                v@.subrange(slash + 1, v@.len() as int),
            ),
        decreases end,
    {
        proof {
            let cur = v@.subrange(slash + 1, end as int);
            assert(cur.last() == v@[end - 1]);
            assert(cur.drop_last() =~= v@.subrange(slash + 1, end - 1));
        }
        end = end - 1;
    }
    proof {
        let cur = v@.subrange(slash + 1, end as int);
        if end > slash + 1 {
            assert(cur.last() == v@[end - 1]);
        }
        assert(v@.subrange(slash + 1, v@.len() as int) =~= url@.skip(slash + 1));
    }
    Some((origin, text::text_of_range(&v, slash + 1, end)))
}

/// Build the well-known URL of a base.
pub fn well_known_url(base_url: &str, well_known_suffix: &str) -> (url: String)
    ensures
        url@ == well_known(base_url@, well_known_suffix@),
{
    match split_origin_and_path(base_url) {
        Some((origin, path)) => {
            let mut url = origin;
            url.append("/.well-known/");
            url.append(well_known_suffix);
            if !path.as_str().is_empty() {
                url.append("/");
                url.append(path.as_str());
            }
            url
        },
        None => {
            let mut url = base_url.to_owned();
            url.append("/.well-known/");
            url.append(well_known_suffix);
            url
        },
    }
}

// ---------------------------------------------------------------------------
// Algorithms
// ---------------------------------------------------------------------------

/// Whether an algorithm name stands for no signature or for a symmetric one,
/// in any case of its letters.
pub open spec fn symmetric_or_none(name: Seq<char>) -> bool {
    let u = text::upper_all(name);
    u == "NONE"@ || text::begins_with(u, "HS"@)
}

/// Whether an algorithm name stands for no signature or for a symmetric one.
pub fn is_symmetric_or_none(algorithm: &str) -> (b: bool)
    ensures
        b == symmetric_or_none(algorithm@),
{
    let u = text::to_upper_all(algorithm);
    text::same(u.as_str(), "NONE") || text::starts_with(u.as_str(), "HS")
}

/// The first name that stands for no signature or for a symmetric one.
pub open spec fn first_rejected(names: Seq<Seq<char>>) -> Option<Seq<char>>
    decreases names.len(),
{
    if names.len() == 0 {
        None
    } else if symmetric_or_none(names[0]) {
        Some(names[0])
    } else {
        first_rejected(names.skip(1))
    }
}

fn find_rejected(names: &Vec<String>) -> (r: Option<String>)
    ensures
        text::opt(r) == first_rejected(text::views(names@)),
{
    let mut i: usize = 0;
    assert(text::views(names@).skip(0) =~= text::views(names@));
    while i < names.len()
        invariant
            i <= names@.len(),
            first_rejected(text::views(names@).skip(i as int)) == first_rejected(
                text::views(names@),
            ),
        decreases names.len() - i,
    {
        proof {
            let rest = text::views(names@).skip(i as int);
            assert(rest[0] == names@[i as int]@);
            assert(rest.skip(1) =~= text::views(names@).skip(i + 1));
        }
        if is_symmetric_or_none(names[i].as_str()) {
            return Some(names[i].clone());
        }
        i = i + 1;
    }
    assert(text::views(names@).skip(i as int) =~= Seq::empty());
    None
}

// ---------------------------------------------------------------------------
// The client
// ---------------------------------------------------------------------------

/// Fetches and checks an authorisation server's metadata document.
#[derive(Debug)]
pub struct DiscoveryClient {
    issuer_url: String,
    discovery_document_sha256: Option<String>,
    spki_pins: Option<Vec<String>>,
}

/// A discovery client as a mathematical value.
pub struct Client {
    pub issuer_url: Seq<char>,
    pub discovery_document_sha256: Option<Seq<char>>,
    pub spki_pins: Option<Seq<Seq<char>>>,
}

impl View for DiscoveryClient {
    type V = Client;

    closed spec fn view(&self) -> Client {
        Client {
            issuer_url: self.issuer_url@,
            discovery_document_sha256: text::opt(self.discovery_document_sha256),
            spki_pins: text::opt_views(self.spki_pins),
        }
    }
}

/// Which of the two paths a response came from.
#[derive(Debug, Clone, Copy, PartialEq, Eq, Structural)]
pub enum Path {
    /// The OpenID Connect path.
    Primary,
    /// The RFC 8414 path.
    Fallback,
}

/// What to do with a response, by its status.
#[derive(Debug)]
pub enum Next {
    /// Read the body.
    ReadBody,
    /// Ask this URL instead.
    TryFallback(String),
    /// Give up.
    Fail(DiscoveryError),
}

/// How far a fetch has come.
#[derive(Debug, Clone, Copy, PartialEq, Eq, Structural)]
pub enum FetchStage {
    /// A path is asked.
    Asking(Path),
    /// The body of a successful response is read.
    Reading,
    /// The fetch has ended.
    Ended,
}

/// What happened in the course of a fetch.
#[derive(Debug)]
pub enum FetchEvent {
    /// The request failed, or its body could not be read.
    Failed(String),
    /// A response of this status came.
    Answered(u16),
    /// The body was read, and this was parsed from it.
    Read { body: String, parsed: Result<DiscoveryDocument, String> },
}

/// What a fetch does next.
#[derive(Debug)]
pub enum FetchAction {
    /// Ask this URL.
    Ask(String),
    /// Read the body of the response.
    ReadBody,
    /// Nothing: the fetch has ended.
    Finish(Result<DiscoveryDocument, DiscoveryError>),
}

/// Whether an event can happen at a stage of a fetch.
pub open spec fn fetch_expects(stage: FetchStage, event: FetchEvent) -> bool {
    match stage {
        FetchStage::Asking(_) => event is Failed || event is Answered,
        FetchStage::Reading => event is Failed || event is Read,
        FetchStage::Ended => false,
    }
}

/// Whether a fetch has ended with an error.
pub open spec fn fetch_fails(next: (FetchStage, FetchAction), why: Refusal) -> bool {
    next.0 == FetchStage::Ended && (next.1 matches FetchAction::Finish(Err(e)) && e@ == why)
}

/// Where an event takes a fetch.
pub open spec fn fetch_leads_to(
    c: Client,
    stage: FetchStage,
    event: FetchEvent,
    next: (FetchStage, FetchAction),
) -> bool {
    match event {
        FetchEvent::Failed(reason) => fetch_fails(next, Refusal::Request(reason@)),
        FetchEvent::Answered(status) => if stage == FetchStage::Asking(Path::Primary) && status
            == 404 {
            next.0 == FetchStage::Asking(Path::Fallback) && (next.1 matches FetchAction::Ask(url)
                && url@ == well_known(c.issuer_url, "oauth-authorization-server"@))
        } else if 200 <= status <= 299 {
            next == (FetchStage::Reading, FetchAction::ReadBody)
        } else {
            fetch_fails(next, Refusal::UnexpectedStatus(status))
        },
        FetchEvent::Read { body, parsed } => match refusal(
            c,
            digest::hex_of(digest::text_digest(body@)),
            match parsed {
                Ok(d) => Ok(d),
                Err(e) => Err(e@),
            },
        ) {
            Some(why) => fetch_fails(next, why),
            None => next.0 == FetchStage::Ended && next.1 == FetchAction::Finish(
                Ok::<DiscoveryDocument, DiscoveryError>(parsed->Ok_0),
            ),
        },
    }
}

/// The SHA-256 pin check of a body.
pub open spec fn pin_refusal(pin: Option<Seq<char>>, actual: Seq<char>) -> Option<Refusal> {
    match pin {
        Some(expected) => if text::fold(actual) != text::fold(expected) {
            Some(Refusal::DiscoveryHashMismatch(expected, actual))
        } else {
            None
        },
        None => None,
    }
}

/// The checks of a parsed document.
pub open spec fn document_refusal(issuer: Seq<char>, d: DiscoveryDocument) -> Option<Refusal> {
    if d.issuer@ != issuer {
        Some(Refusal::IssuerMismatch(issuer, d.issuer@))
    } else {
        match first_rejected(text::views(d.signing_algorithms@)) {
            Some(name) => Some(Refusal::UnsupportedAlgorithm(name)),
            None => None,
        }
    }
}

/// Why a body with the given hash is refused, once it was parsed: the pin is
/// checked first, on the bytes received, then the document.
pub open spec fn refusal(
    c: Client,
    actual: Seq<char>,
    parsed: Result<DiscoveryDocument, Seq<char>>,
) -> Option<Refusal> {
    match pin_refusal(c.discovery_document_sha256, actual) {
        Some(r) => Some(r),
        None => match parsed {
            Err(e) => Some(Refusal::Parse(e)),
            Ok(d) => document_refusal(c.issuer_url, d),
        },
    }
}

impl DiscoveryClient {
    /// A client without pins.
    pub fn new(issuer_url: String) -> (client: Self)
        ensures
            client@ == (Client {
                issuer_url: issuer_url@,
                discovery_document_sha256: None,
                spki_pins: None,
            }),
    {
        DiscoveryClient { issuer_url, discovery_document_sha256: None, spki_pins: None }
    }

    /// Pin the hash of the document body.
    pub fn with_discovery_document_sha256(self, expected_hex: String) -> (client: Self)
        ensures
            client@ == (Client { discovery_document_sha256: Some(expected_hex@), ..self@ }),
    {
        DiscoveryClient { discovery_document_sha256: Some(expected_hex), ..self }
    }

    /// Pin the server certificate by its public key. A client that is pinned
    /// to an empty list accepts no certificate.
    pub fn with_spki_pins(self, pins: &Vec<String>) -> (client: Self)
        ensures
            client@ == (Client { spki_pins: Some(text::views(pins@)), ..self@ }),
    {
        DiscoveryClient { spki_pins: Some(text::copy_all(pins)), ..self }
    }

    /// The certificate pins that the connection has to meet; `None` where the
    /// system's certificates are trusted.
    pub fn spki_pins(&self) -> (pins: &Option<Vec<String>>)
        ensures
            text::opt_views(*pins) == self@.spki_pins,
    {
        &self.spki_pins
    }

    /// The URL that is asked first.
    pub fn primary_url(&self) -> (url: String)
        ensures
            url@ == self@.issuer_url + "/.well-known/openid-configuration"@,
    {
        let mut url = self.issuer_url.clone();
        url.append("/.well-known/openid-configuration");
        url
    }

    /// What to do with a response of the given status.
    ///
    /// A success is read. A 404 of the first path leads to the RFC 8414
    /// path. Any other status is not a metadata document.
    pub fn on_status(&self, path: Path, status: u16) -> (next: Next)
        ensures
            path == Path::Primary && status == 404 ==> (next matches Next::TryFallback(url) && url@
                == well_known(self@.issuer_url, "oauth-authorization-server"@)),
            200 <= status <= 299 ==> next is ReadBody,
            !(200 <= status <= 299) && !(path == Path::Primary && status == 404) ==> (
            next matches Next::Fail(e) && e@ == Refusal::UnexpectedStatus(status)),
    {
        if path == Path::Primary && status == 404 {
            Next::TryFallback(
                well_known_url(self.issuer_url.as_str(), "oauth-authorization-server"),
            )
        } else if 200 <= status && status <= 299 {
            Next::ReadBody
        } else {
            Next::Fail(DiscoveryError::UnexpectedStatus { status })
        }
    }

    /// Check a body whose hash is `actual`, with the document that was
    /// parsed from it.
    pub fn accept_hashed(
        &self,
        actual: String,
        parsed: Result<DiscoveryDocument, String>,
    ) -> (r: Result<DiscoveryDocument, DiscoveryError>)
        ensures
            match refusal(
                self@,
                actual@,
                match parsed {
                    Ok(d) => Ok(d),
                    Err(e) => Err(e@),
                },
            ) {
                Some(why) => r matches Err(e) && e@ == why,
                None => r is Ok && r->Ok_0 == parsed->Ok_0,
            },
    {
        if let Some(expected) = &self.discovery_document_sha256 {
            if !text::same_ignoring_case(actual.as_str(), expected.as_str()) {
                return Err(
                    DiscoveryError::DiscoveryHashMismatch { expected: expected.clone(), actual },
                );
            }
        }
        let document = match parsed {
            Ok(d) => d,
            Err(e) => {
                return Err(DiscoveryError::Parse(e));
            },
        };
        if !text::same(document.issuer.as_str(), self.issuer_url.as_str()) {
            return Err(
                DiscoveryError::IssuerMismatch {
                    configured: self.issuer_url.clone(),
                    advertised: document.issuer,
                },
            );
        }
        if let Some(rejected) = find_rejected(&document.signing_algorithms) {
            return Err(DiscoveryError::UnsupportedAlgorithm(rejected));
        }
        Ok(document)
    }

    /// Check the body of a successful response, with the document that was
    /// parsed from it.
    pub fn accept(
        &self,
        body: &str,
        parsed: Result<DiscoveryDocument, String>,
    ) -> (r: Result<DiscoveryDocument, DiscoveryError>)
        ensures
            match refusal(
                self@,
                digest::hex_of(digest::text_digest(body@)),
                match parsed {
                    Ok(d) => Ok(d),
                    Err(e) => Err(e@),
                },
            ) {
                Some(why) => r matches Err(e) && e@ == why,
                None => r is Ok && r->Ok_0 == parsed->Ok_0,
            },
    {
        self.accept_hashed(digest::sha256_hex(body), parsed)
    }

    /// Begin a fetch of the document.
    pub fn begin_fetch(&self) -> (r: (FetchStage, FetchAction))
        ensures
            r.0 == FetchStage::Asking(Path::Primary),
            r.1 matches FetchAction::Ask(url) && url@ == self@.issuer_url
                + "/.well-known/openid-configuration"@,
    {
        (FetchStage::Asking(Path::Primary), FetchAction::Ask(self.primary_url()))
    }

    /// Take an event in the course of a fetch.
    pub fn fetch(&self, stage: FetchStage, event: FetchEvent) -> (r: (FetchStage, FetchAction))
        requires
            fetch_expects(stage, event),
        ensures
            fetch_leads_to(self@, stage, event, r),
    {
        match (stage, event) {
            (FetchStage::Asking(path), FetchEvent::Answered(status)) => match self.on_status(
                path,
                status,
            ) {
                Next::ReadBody => (FetchStage::Reading, FetchAction::ReadBody),
                Next::TryFallback(url) => (
                    FetchStage::Asking(Path::Fallback),
                    FetchAction::Ask(url),
                ),
                Next::Fail(e) => (FetchStage::Ended, FetchAction::Finish(Err(e))),
            },
            (FetchStage::Reading, FetchEvent::Read { body, parsed }) => (
                FetchStage::Ended,
                FetchAction::Finish(self.accept(body.as_str(), parsed)),
            ),
            (_, FetchEvent::Failed(reason)) => (
                FetchStage::Ended,
                FetchAction::Finish(Err(DiscoveryError::Request(reason))),
            ),
            _ => {
                assert(false);
                (FetchStage::Ended, FetchAction::ReadBody)
            },
        }
    }
}

/// The advisory about resource indicators.
pub open spec fn resource_indicator_advisory() -> Seq<char> {
    "the authorisation server's discovery document does not advertise RFC 8707 resource-indicator support (resource_indicators_supported); the gateway's per-instance audience binding relies on it, and a server that ignores the resource parameter can issue tokens with no aud, which the gateway rejects"@
}

/// The advisories about a fetched document. They do not refuse it.
pub fn emit_discovery_warnings(document: &DiscoveryDocument) -> (warnings: Vec<String>)
    ensures
        text::views(warnings@) == (if document.resource_indicators_supported {
            Seq::<Seq<char>>::empty()
        } else {
            seq![resource_indicator_advisory()]
        }),
{
    let mut warnings: Vec<String> = Vec::new();
    if !document.resource_indicators_supported {
        warnings.push(
            "the authorisation server's discovery document does not advertise RFC 8707 resource-indicator support (resource_indicators_supported); the gateway's per-instance audience binding relies on it, and a server that ignores the resource parameter can issue tokens with no aud, which the gateway rejects".to_owned(),
        );
        assert(text::views(warnings@) =~= seq![resource_indicator_advisory()]);
    } else {
        assert(text::views(warnings@) =~= Seq::<Seq<char>>::empty());
    }
    warnings
}

impl DiscoveryError {
    /// The message shown to operators.
    pub fn message(&self) -> (m: String)
        ensures
            m@ == refusal_message(self@),
    {
        let mut m = String::new();
        match self {
            DiscoveryError::Request(e) => {
                m.append("discovery request failed: ");
                m.append(e.as_str());
            },
            DiscoveryError::Parse(e) => {
                m.append("discovery document is not valid JSON: ");
                m.append(e.as_str());
            },
            DiscoveryError::UnexpectedStatus { status } => {
                m.append("discovery endpoint returned unexpected status ");
                let shown = text::decimal_text(*status as u64);
                m.append(shown.as_str());
            },
            DiscoveryError::UnsupportedAlgorithm(name) => {
                m.append("discovery advertises an unsupported signing algorithm: ");
                m.append(name.as_str());
            },
            DiscoveryError::DiscoveryHashMismatch { expected, actual } => {
                m.append("discovery document SHA-256 ");
                m.append(actual.as_str());
                m.append(" does not match pinned ");
                m.append(expected.as_str());
            },
            DiscoveryError::IssuerMismatch { configured, advertised } => {
                m.append("discovery issuer ");
                let shown = text::debug_text(advertised.as_str());
                m.append(shown.as_str());
                m.append(" does not match configured issuer ");
                let shown = text::debug_text(configured.as_str());
                m.append(shown.as_str());
            },
        }
        assert(m@ =~= refusal_message(self@));
        m
    }
}

/// The message of a discovery error.
pub open spec fn refusal_message(r: Refusal) -> Seq<char> {
    match r {
        Refusal::Request(e) => "discovery request failed: "@ + e,
        Refusal::Parse(e) => "discovery document is not valid JSON: "@ + e,
        Refusal::UnexpectedStatus(status) => "discovery endpoint returned unexpected status "@
            + text::decimal(status as nat),
        Refusal::UnsupportedAlgorithm(name) =>
            "discovery advertises an unsupported signing algorithm: "@ + name,
        Refusal::DiscoveryHashMismatch(expected, actual) => "discovery document SHA-256 "@ + actual
            + " does not match pinned "@ + expected,
        Refusal::IssuerMismatch(configured, advertised) => "discovery issuer "@
            + text::debug_form(advertised) + " does not match configured issuer "@
            + text::debug_form(configured),
    }
}

// ---------------------------------------------------------------------------
// Laws
// ---------------------------------------------------------------------------

/// Whether `s` is an origin: a scheme and an authority, and no path.
pub open spec fn is_origin(s: Seq<char>) -> bool {
    scheme_end(s, 0) < s.len() && text::seek(s, '/', scheme_end(s, 0) + 3) == s.len()
}

proof fn lemma_scheme_end_is(s: Seq<char>, from: int, at: int)
    requires
        0 <= from <= at < s.len(),
        text::matches_at(s, "://"@, at),
        forall|k: int| from <= k < at ==> !text::matches_at(s, "://"@, k),
    ensures
        scheme_end(s, from) == at,
    decreases at - from,
{
    if from < at {
        assert(!text::matches_at(s, "://"@, from));
        lemma_scheme_end_is(s, from + 1, at);
    }
}

proof fn lemma_no_earlier_scheme(s: Seq<char>, from: int, k: int)
    requires
        0 <= from <= k < scheme_end(s, from),
        k < s.len(),
    ensures
        !text::matches_at(s, "://"@, k),
    decreases s.len() - from,
{
    if from < k {
        lemma_no_earlier_scheme(s, from + 1, k);
    }
}

proof fn lemma_split_origin(origin: Seq<char>, path: Seq<char>)
    requires
        is_origin(origin),
    ensures
        origin_and_path(origin + seq!['/'] + path) == Some((origin, without_slashes(path))),
        origin_and_path(origin) == Some((origin, Seq::<char>::empty())),
{
    let url = origin + seq!['/'] + path;
    let at = scheme_end(origin, 0);
    reveal_strlit("://");
    lemma_scheme_end(origin, 0);
    assert(url.subrange(at, at + 3) =~= origin.subrange(at, at + 3));
    assert forall|k: int| 0 <= k < at implies !text::matches_at(url, "://"@, k) by {
        lemma_no_earlier_scheme(origin, 0, k);
        assert(url.subrange(k, k + 3) =~= origin.subrange(k, k + 3));
    }
    lemma_scheme_end_is(url, 0, at);
    text::lemma_seek(origin, '/', at + 3);
    assert forall|k: int| at + 3 <= k < origin.len() implies url[k] != '/' by {
        assert(url[k] == origin[k]);
    }
    assert(url[origin.len() as int] == '/');
    text::lemma_seek_unique(url, '/', at + 3, origin.len() as int);
    assert(url.take(origin.len() as int) =~= origin);
    assert(url.skip(origin.len() as int + 1) =~= path);
}

/// For a base without a path the well-known segment is appended, whether or
/// not the base ends in a slash.
pub proof fn path_less_bases_are_appended_to(origin: Seq<char>, suffix: Seq<char>)
    requires
        is_origin(origin),
    ensures
        well_known(origin, suffix) == origin + "/.well-known/"@ + suffix,
        well_known(origin + seq!['/'], suffix) == origin + "/.well-known/"@ + suffix,
{
    lemma_split_origin(origin, Seq::empty());
    assert(origin + seq!['/'] + Seq::<char>::empty() =~= origin + seq!['/']);
}

/// For a base with a path the well-known segment stands before the path, and
/// the whole path follows it.
pub proof fn well_known_segments_precede_the_path(
    origin: Seq<char>,
    path: Seq<char>,
    suffix: Seq<char>,
)
    requires
        is_origin(origin),
        path.len() > 0,
        path.last() != '/',
    ensures
        well_known(origin + seq!['/'] + path, suffix) == origin + "/.well-known/"@ + suffix + "/"@
            + path,
{
    lemma_split_origin(origin, path);
}

/// The first rejected name is one of the names; none is found only where
/// every name is acceptable.
pub proof fn rejection_is_exhaustive(names: Seq<Seq<char>>)
    ensures
        match first_rejected(names) {
            Some(n) => symmetric_or_none(n) && names.contains(n),
            None => forall|i: int| 0 <= i < names.len() ==> !symmetric_or_none(#[trigger] names[i]),
        },
    decreases names.len(),
{
    if names.len() > 0 {
        if symmetric_or_none(names[0]) {
            assert(names.contains(names[0]));
        } else {
            let rest = names.skip(1);
            rejection_is_exhaustive(rest);
            match first_rejected(rest) {
                Some(n) => {
                    let i = choose|i: int| 0 <= i < rest.len() && rest[i] == n;
                    assert(names[i + 1] == n);
                },
                None => {
                    assert forall|i: int| 0 <= i < names.len() implies !symmetric_or_none(
                        #[trigger] names[i],
                    ) by {
                        if i > 0 {
                            assert(rest[i - 1] == names[i]);
                        }
                    }
                },
            }
        }
    }
}

/// A document that is accepted names the configured issuer, advertises no
/// unsigned or symmetric algorithm, and came in a body with the pinned hash.
pub proof fn accepted_documents_are_trustworthy(
    c: Client,
    actual: Seq<char>,
    d: DiscoveryDocument,
)
    requires
        refusal(c, actual, Ok(d)) is None,
    ensures
        d.issuer@ == c.issuer_url,
        forall|i: int|
            0 <= i < d.signing_algorithms@.len() ==> !symmetric_or_none(
                (#[trigger] d.signing_algorithms@[i])@,
            ),
        c.discovery_document_sha256 matches Some(pin) ==> text::fold(pin) == text::fold(actual),
{
    rejection_is_exhaustive(text::views(d.signing_algorithms@));
    assert forall|i: int| 0 <= i < d.signing_algorithms@.len() implies !symmetric_or_none(
        (#[trigger] d.signing_algorithms@[i])@,
    ) by {
        assert(text::views(d.signing_algorithms@)[i] == d.signing_algorithms@[i]@);
    }
}

/// An algorithm name is rejected exactly where it reads `none`, or begins with
/// `hs`, in any case of its letters; so no algorithm that tokens are verified
/// with is ever rejected.
pub proof fn only_unsigned_and_symmetric_names_are_rejected(name: Seq<char>)
    ensures
        symmetric_or_none(name) <==> {
            ||| name.len() >= 2 && (name[0] == 'H' || name[0] == 'h') && (name[1] == 'S' || name[1]
                == 's')
            ||| name.len() == 4 && (name[0] == 'N' || name[0] == 'n') && (name[1] == 'O' || name[1]
                == 'o') && (name[2] == 'N' || name[2] == 'n') && (name[3] == 'E' || name[3] == 'e')
        },
        validator::accepted(name) ==> !symmetric_or_none(name),
{
    reveal_strlit("NONE");
    reveal_strlit("HS");
    let u = text::upper_all(name);
    assert(forall|c: char| #[trigger] text::upper(c) == 'H' <==> c == 'H' || c == 'h');
    assert(forall|c: char| #[trigger] text::upper(c) == 'S' <==> c == 'S' || c == 's');
    assert(forall|c: char| #[trigger] text::upper(c) == 'N' <==> c == 'N' || c == 'n');
    assert(forall|c: char| #[trigger] text::upper(c) == 'O' <==> c == 'O' || c == 'o');
    assert(forall|c: char| #[trigger] text::upper(c) == 'E' <==> c == 'E' || c == 'e');
    assert(forall|i: int| 0 <= i < name.len() ==> #[trigger] u[i] == text::upper(name[i]));
    if text::begins_with(u, "HS"@) {
        assert(u.take(2)[0] == 'H' && u.take(2)[1] == 'S');
        assert(u[0] == 'H' && u[1] == 'S');
    } else if name.len() >= 2 {
        assert(!(u.take(2) =~= "HS"@));
        assert(u[0] != 'H' || u[1] != 'S');
    }
    if u == "NONE"@ {
        assert(u[0] == 'N' && u[1] == 'O' && u[2] == 'N' && u[3] == 'E');
    } else if name.len() == 4 {
        assert(!(u =~= "NONE"@));
        assert(u[0] != 'N' || u[1] != 'O' || u[2] != 'N' || u[3] != 'E');
    }
    if symmetric_or_none(name) {
        validator::symmetric_algorithms_are_not_accepted(name);
    }
}

/// The first name that is rejected is found behind the names that are not.
pub proof fn the_first_rejected_name_is_reported(
    front: Seq<Seq<char>>,
    name: Seq<char>,
    back: Seq<Seq<char>>,
)
    requires
        forall|i: int| 0 <= i < front.len() ==> !symmetric_or_none(#[trigger] front[i]),
    ensures
        first_rejected(front) is None,
        symmetric_or_none(name) ==> first_rejected(front + seq![name] + back) == Some(name),
    decreases front.len(),
{
    let all = front + seq![name] + back;
    if front.len() == 0 {
        assert(all[0] == name);
    } else {
        assert(all[0] == front[0]);
        assert(all.skip(1) =~= front.skip(1) + seq![name] + back);
        the_first_rejected_name_is_reported(front.skip(1), name, back);
    }
}

/// A document is accepted exactly where its body has the pinned hash, if one
/// is pinned, it names the configured issuer, and every algorithm that it
/// advertises is a signed and asymmetric one; one whose algorithms are all
/// among those that tokens are verified with is such a document.
pub proof fn trustworthy_documents_are_accepted(
    c: Client,
    actual: Seq<char>,
    d: DiscoveryDocument,
)
    ensures
        refusal(c, actual, Ok(d)) is None <==> {
            &&& c.discovery_document_sha256 matches Some(pin) ==> text::fold(pin) == text::fold(
                actual,
            )
            &&& d.issuer@ == c.issuer_url
            &&& forall|i: int|
                0 <= i < d.signing_algorithms@.len() ==> !symmetric_or_none(
                    (#[trigger] d.signing_algorithms@[i])@,
                )
        },
        (c.discovery_document_sha256 matches Some(pin) ==> text::fold(pin) == text::fold(actual))
            && d.issuer@ == c.issuer_url && (forall|i: int|
            0 <= i < d.signing_algorithms@.len() ==> validator::accepted(
                (#[trigger] d.signing_algorithms@[i])@,
            )) ==> refusal(c, actual, Ok(d)) is None,
{
    let names = text::views(d.signing_algorithms@);
    rejection_is_exhaustive(names);
    assert forall|i: int|
        0 <= i < names.len() && validator::accepted(#[trigger] names[i]) implies !symmetric_or_none(
        names[i],
    ) by {
        only_unsigned_and_symmetric_names_are_rejected(names[i]);
    }
    assert forall|i: int| 0 <= i < names.len() implies #[trigger] names[i]
        == d.signing_algorithms@[i]@ by {}
    if forall|i: int|
        0 <= i < d.signing_algorithms@.len() ==> validator::accepted(
            (#[trigger] d.signing_algorithms@[i])@,
        ) {
        assert forall|i: int| 0 <= i < d.signing_algorithms@.len() implies !symmetric_or_none(
            (#[trigger] d.signing_algorithms@[i])@,
        ) by {
            assert(names[i] == d.signing_algorithms@[i]@);
        }
    }
    if forall|i: int|
        0 <= i < d.signing_algorithms@.len() ==> !symmetric_or_none(
            (#[trigger] d.signing_algorithms@[i])@,
        ) {
        if let Some(n) = first_rejected(names) {
            let i = choose|i: int| 0 <= i < names.len() && names[i] == n;
            assert(d.signing_algorithms@[i]@ == n);
        }
    }
    if first_rejected(names) is None {
        assert forall|i: int| 0 <= i < d.signing_algorithms@.len() implies !symmetric_or_none(
            (#[trigger] d.signing_algorithms@[i])@,
        ) by {
            assert(names[i] == d.signing_algorithms@[i]@);
        }
    }
}

/// A body with another hash than the pinned one is refused before anything is
/// read from it; then a body that is no document, then one of another issuer.
pub proof fn bodies_are_refused_in_order(
    c: Client,
    actual: Seq<char>,
    parsed: Result<DiscoveryDocument, Seq<char>>,
)
    ensures
        c.discovery_document_sha256 matches Some(pin) ==> (text::fold(pin) != text::fold(actual)
            ==> refusal(c, actual, parsed) == Some(Refusal::DiscoveryHashMismatch(pin, actual))),
        (c.discovery_document_sha256 matches Some(pin) ==> text::fold(pin) == text::fold(actual))
            ==> {
            &&& parsed matches Err(e) ==> refusal(c, actual, parsed) == Some(Refusal::Parse(e))
            &&& parsed matches Ok(d) ==> (d.issuer@ != c.issuer_url ==> refusal(c, actual, parsed)
                == Some(Refusal::IssuerMismatch(c.issuer_url, d.issuer@)))
            &&& parsed matches Ok(d) ==> (d.issuer@ == c.issuer_url ==> match refusal(
                c,
                actual,
                parsed,
            ) {
                None => true,
                Some(Refusal::UnsupportedAlgorithm(name)) => symmetric_or_none(name) && text::views(
                    d.signing_algorithms@,
                ).contains(name),
                Some(_) => false,
            })
        },
{
    if let Ok(d) = parsed {
        rejection_is_exhaustive(text::views(d.signing_algorithms@));
    }
}

/// A fetch ends with a document only where a body was read and what was
/// parsed from it is accepted, and then with that document.
pub proof fn fetches_end_with_accepted_documents_only(
    c: Client,
    stage: FetchStage,
    event: FetchEvent,
    next: (FetchStage, FetchAction),
)
    requires
        fetch_expects(stage, event),
        fetch_leads_to(c, stage, event, next),
    ensures
        next.1 matches FetchAction::Finish(Ok(document)) ==> {
            &&& next.0 == FetchStage::Ended
            &&& stage == FetchStage::Reading
            &&& event matches FetchEvent::Read { body, parsed } && parsed == Ok::<_, String>(
                document,
            ) && refusal(c, digest::hex_of(digest::text_digest(body@)), Ok(document)) is None
        },
        event matches FetchEvent::Read { body, parsed } ==> next.0 == FetchStage::Ended && match parsed {
            Ok(d) => match refusal(c, digest::hex_of(digest::text_digest(body@)), Ok(d)) {
                None => next.1 matches FetchAction::Finish(Ok(document)) && document == d,
                Some(why) => next.1 matches FetchAction::Finish(Err(e)) && e@ == why,
            },
            Err(_) => next.1 matches FetchAction::Finish(Err(_)),
        },
        event matches FetchEvent::Failed(reason) ==> next.0 == FetchStage::Ended && (
        next.1 matches FetchAction::Finish(Err(e)) && e@ == Refusal::Request(reason@)),
{
}

/// A response of success is read. A missing document is looked for once more,
/// at the other well-known path, and any other status ends the fetch.
pub proof fn statuses_lead_a_fetch_on(
    c: Client,
    path: Path,
    status: u16,
    next: (FetchStage, FetchAction),
)
    requires
        fetch_leads_to(c, FetchStage::Asking(path), FetchEvent::Answered(status), next),
    ensures
        200 <= status < 300 <==> next.0 == FetchStage::Reading,
        200 <= status < 300 <==> next.1 is ReadBody,
        next.1 is Ask <==> path == Path::Primary && status == 404,
        next.1 matches FetchAction::Ask(url) ==> next.0 == FetchStage::Asking(Path::Fallback)
            && url@ == well_known(c.issuer_url, "oauth-authorization-server"@),
        !(200 <= status < 300) && !(path == Path::Primary && status == 404) ==> next.0
            == FetchStage::Ended && (next.1 matches FetchAction::Finish(Err(e)) && e@
            == Refusal::UnexpectedStatus(status)),
{
}

/// While a fetch asks, it can be answered or fail; while it reads, it can have
/// read or fail; once it has ended, nothing happens any more.
pub proof fn fetches_expect_what_they_ask_for(
    path: Path,
    status: u16,
    reason: String,
    body: String,
    parsed: Result<DiscoveryDocument, String>,
)
    ensures
        fetch_expects(FetchStage::Asking(path), FetchEvent::Answered(status)),
        fetch_expects(FetchStage::Asking(path), FetchEvent::Failed(reason)),
        fetch_expects(FetchStage::Reading, FetchEvent::Read { body, parsed }),
        fetch_expects(FetchStage::Reading, FetchEvent::Failed(reason)),
        !fetch_expects(FetchStage::Asking(path), FetchEvent::Read { body, parsed }),
        !fetch_expects(FetchStage::Reading, FetchEvent::Answered(status)),
        forall|event: FetchEvent| !fetch_expects(FetchStage::Ended, event),
{
}

/// The well-known URL of a scheme, an authority and a path has the segment
/// between the authority and the path, and loses only the slashes at the end
/// of the path.
pub proof fn well_known_urls_keep_every_part(
    scheme: Seq<char>,
    authority: Seq<char>,
    path: Seq<char>,
    slashes: Seq<char>,
    suffix: Seq<char>,
)
    requires
        !scheme.contains(':'),
        !authority.contains('/'),
        forall|i: int| 0 <= i < slashes.len() ==> #[trigger] slashes[i] == '/',
        path.len() > 0 ==> path.last() != '/',
    ensures
        ({
            let origin = scheme + "://"@ + authority;
            let lead = origin + "/.well-known/"@ + suffix;
            &&& well_known(origin, suffix) == lead
            &&& well_known(origin + "/"@ + path + slashes, suffix) == if path.len() > 0 {
                lead + "/"@ + path
            } else {
                lead
            }
        }),
{
    reveal_strlit("://");
    reveal_strlit("/");
    let origin = scheme + "://"@ + authority;
    let n = scheme.len() as int;
    assert(origin.subrange(n, n + 3) =~= "://"@);
    assert forall|k: int| 0 <= k < n implies !text::matches_at(origin, "://"@, k) by {
        if text::matches_at(origin, "://"@, k) {
            assert(origin.subrange(k, k + 3)[0] == ':');
            assert(scheme[k] == ':');
        }
    }
    lemma_scheme_end_is(origin, 0, n);
    assert forall|k: int| n + 3 <= k < origin.len() implies origin[k] != '/' by {
        assert(authority.contains(authority[k - n - 3]));
    }
    text::lemma_seek_unique(origin, '/', n + 3, origin.len() as int);
    assert(is_origin(origin));
    lemma_split_origin(origin, path + slashes);
    assert("/"@ =~= seq!['/']);
    assert(origin + "/"@ + path + slashes =~= origin + seq!['/'] + (path + slashes));
    lemma_without_slashes(path, slashes);
}

proof fn lemma_without_slashes(path: Seq<char>, slashes: Seq<char>)
    requires
        forall|i: int| 0 <= i < slashes.len() ==> #[trigger] slashes[i] == '/',
        path.len() > 0 ==> path.last() != '/',
    ensures
        without_slashes(path + slashes) == path,
    decreases slashes.len(),
{
    if slashes.len() == 0 {
        assert(path + slashes =~= path);
    } else {
        assert((path + slashes).last() == slashes[slashes.len() - 1]);
        assert((path + slashes).drop_last() =~= path + slashes.drop_last());
        lemma_without_slashes(path, slashes.drop_last());
    }
}

/// A base that has no scheme gets the well-known segment at its end.
pub proof fn bases_without_a_scheme_are_appended_to(base: Seq<char>, suffix: Seq<char>)
    requires
        !base.contains(':'),
    ensures
        well_known(base, suffix) == base + "/.well-known/"@ + suffix,
{
    reveal_strlit("://");
    lemma_scheme_end(base, 0);
    let at = scheme_end(base, 0);
    if at < base.len() {
        assert(base.subrange(at, at + 3)[0] == ':');
        assert(base[at] == ':');
    }
}

/// A discovery error says what it was about.
pub proof fn discovery_errors_say_what_was_wrong(
    what: Seq<char>,
    other: Seq<char>,
    status: u16,
)
    ensures
        text::mentions(refusal_message(Refusal::Request(what)), what),
        text::mentions(refusal_message(Refusal::Parse(what)), what),
        text::mentions(
            refusal_message(Refusal::UnexpectedStatus(status)),
            text::decimal(status as nat),
        ),
        text::mentions(refusal_message(Refusal::UnsupportedAlgorithm(what)), what),
        text::mentions(refusal_message(Refusal::DiscoveryHashMismatch(what, other)), what),
        text::mentions(refusal_message(Refusal::DiscoveryHashMismatch(what, other)), other),
        text::mentions(
            refusal_message(Refusal::IssuerMismatch(what, other)),
            text::debug_form(what),
        ),
        text::mentions(
            refusal_message(Refusal::IssuerMismatch(what, other)),
            text::debug_form(other),
        ),
{
    let none = Seq::<char>::empty();
    text::lemma_mentions("discovery request failed: "@, what, none);
    text::lemma_mentions("discovery document is not valid JSON: "@, what, none);
    text::lemma_mentions(
        "discovery endpoint returned unexpected status "@,
        text::decimal(status as nat),
        none,
    );
    text::lemma_mentions("discovery advertises an unsupported signing algorithm: "@, what, none);
    let (lead, then) = ("discovery document SHA-256 "@, " does not match pinned "@);
    assert(lead + other + then + what =~= lead + other + (then + what));
    text::lemma_mentions(lead, other, then + what);
    text::lemma_mentions(lead + other + then, what, none);
    let (lead, then) = ("discovery issuer "@, " does not match configured issuer "@);
    let (x, y) = (text::debug_form(other), text::debug_form(what));
    assert(lead + x + then + y =~= lead + x + (then + y));
    text::lemma_mentions(lead, x, then + y);
    text::lemma_mentions(lead + x + then, y, none);
}

/// Algorithm names are judged in any case of their letters, and those that
/// tokens are verified with are never rejected.
pub proof fn algorithm_names_are_judged_in_any_case(
    name: &str,
    other: &str,
    a: bool,
    b: bool,
)
    requires
        call_ensures(is_symmetric_or_none, (name,), a),
        call_ensures(is_symmetric_or_none, (other,), b),
    ensures
        text::fold(name@) == text::fold(other@) ==> a == b,
        validator::accepted(name@) ==> !a,
        name@.len() >= 2 && name@[0] == 'H' && name@[1] == 'S' ==> a,
        name@ == "none"@ ==> a,
        a ==> name@.len() >= 2,
{
    only_unsigned_and_symmetric_names_are_rejected(name@);
    only_unsigned_and_symmetric_names_are_rejected(other@);
    text::case_is_all_that_folding_forgets(name@, other@);
    reveal_strlit("none");
}

/// A fetch begins at the OpenID Connect path of the issuer.
pub proof fn fetches_begin_at_the_first_path(
    client: &DiscoveryClient,
    url: String,
    r: (FetchStage, FetchAction),
)
    requires
        call_ensures(DiscoveryClient::primary_url, (client,), url),
        call_ensures(DiscoveryClient::begin_fetch, (client,), r),
    ensures
        url@ == client@.issuer_url + "/.well-known/openid-configuration"@,
        r.0 == FetchStage::Asking(Path::Primary),
        r.1 matches FetchAction::Ask(asked) && asked@ == url@,
{
}

/// What is accepted is the document that was parsed, and it names the issuer
/// of the client.
pub proof fn accepted_documents_are_the_parsed_ones(
    client: &DiscoveryClient,
    body: &str,
    parsed: Result<DiscoveryDocument, String>,
    r: Result<DiscoveryDocument, DiscoveryError>,
)
    requires
        call_ensures(DiscoveryClient::accept, (client, body, parsed), r),
    ensures
        r matches Ok(d) ==> parsed == Ok::<_, String>(d) && d.issuer@ == client@.issuer_url,
        r matches Ok(d) ==> (client@.discovery_document_sha256 matches Some(pin) ==> text::fold(pin)
            == text::fold(digest::hex_of(digest::sha256(vstd::utf8::encode_utf8(body@))))),
        parsed is Err ==> r is Err,
{
}

/// A client without pins trusts the system's certificates, one that is pinned
/// has to meet its pins, and pins and hash are taken over as they are.
pub proof fn clients_keep_what_they_are_pinned_to(
    issuer: String,
    client: DiscoveryClient,
    pins: &Vec<String>,
    pinned: DiscoveryClient,
    hash: String,
    hashed: DiscoveryClient,
)
    requires
        call_ensures(DiscoveryClient::new, (issuer,), client),
        call_ensures(DiscoveryClient::with_spki_pins, (client, pins), pinned),
        call_ensures(DiscoveryClient::with_discovery_document_sha256, (client, hash), hashed),
    ensures
        client@.issuer_url == issuer@,
        client@.spki_pins is None,
        client@.discovery_document_sha256 is None,
        pinned@.spki_pins matches Some(kept) && kept == text::views(pins@),
        pinned@.issuer_url == issuer@,
        hashed@.discovery_document_sha256 == Some(hash@),
        hashed@.issuer_url == issuer@,
{
}

/// A URL is parted into its origin and its path behind the authority; without
/// `://` there is nothing to part.
pub proof fn urls_are_parted_behind_the_authority(
    scheme: Seq<char>,
    authority: Seq<char>,
    path: Seq<char>,
    slashes: Seq<char>,
)
    requires
        !scheme.contains(':'),
        !authority.contains('/'),
        forall|i: int| 0 <= i < slashes.len() ==> #[trigger] slashes[i] == '/',
        path.len() > 0 ==> path.last() != '/',
    ensures
        ({
            let origin = scheme + "://"@ + authority;
            &&& origin_and_path(origin) == Some((origin, Seq::<char>::empty()))
            &&& origin_and_path(origin + "/"@ + path + slashes) == Some((origin, path))
            &&& origin_and_path(scheme) is None
        }),
{
    reveal_strlit("://");
    reveal_strlit("/");
    let origin = scheme + "://"@ + authority;
    let n = scheme.len() as int;
    assert(origin.subrange(n, n + 3) =~= "://"@);
    assert forall|k: int| 0 <= k < n implies !text::matches_at(origin, "://"@, k) by {
        if text::matches_at(origin, "://"@, k) {
            assert(origin.subrange(k, k + 3)[0] == ':');
            assert(scheme[k] == ':');
        }
    }
    lemma_scheme_end_is(origin, 0, n);
    assert forall|k: int| n + 3 <= k < origin.len() implies origin[k] != '/' by {
        assert(authority.contains(authority[k - n - 3]));
    }
    text::lemma_seek_unique(origin, '/', n + 3, origin.len() as int);
    assert(is_origin(origin));
    lemma_split_origin(origin, path + slashes);
    assert("/"@ =~= seq!['/']);
    assert(origin + "/"@ + path + slashes =~= origin + seq!['/'] + (path + slashes));
    lemma_without_slashes(path, slashes);
    lemma_scheme_end(scheme, 0);
    let at = scheme_end(scheme, 0);
    if at < scheme.len() {
        assert(scheme.subrange(at, at + 3)[0] == ':');
        assert(scheme[at] == ':');
    }
}

} // verus!

//! Certificate pinning.
//!
//! A server certificate is accepted when its public key is pinned, the
//! certificate is within its validity, and it was issued for the host.

use vstd::prelude::*;

use crate::digest;
use crate::text;

verus! {

/// The parts of a certificate that are checked.
#[derive(Debug)]
pub struct Certificate {
    /// The raw SubjectPublicKeyInfo.
    pub spki: Vec<u8>,
    /// Start of validity, in seconds since the Unix epoch.
    pub not_before: i64,
    /// End of validity, in seconds since the Unix epoch.
    pub not_after: i64,
}

/// A name that a certificate was issued for.
#[derive(Debug)]
pub enum AltName {
    /// A DNS name.
    Dns(String),
    /// The bytes of an IP address.
    Ip(Vec<u8>),
    /// Any other kind of name.
    Other,
}

/// The host that a connection is made to.
#[derive(Debug)]
pub struct Host {
    /// The host's name or address.
    pub name: AltName,
    /// The host as error messages show it.
    pub shown: String,
}

/// `Certificate` as a mathematical value.
pub struct Cert {
    pub spki: Seq<u8>,
    pub not_before: i64,
    pub not_after: i64,
}

/// `AltName` as a mathematical value.
pub enum Name {
    Dns(Seq<char>),
    Ip(Seq<u8>),
    Other,
}

impl View for Certificate {
    type V = Cert;

    open spec fn view(&self) -> Cert {
        Cert { spki: self.spki@, not_before: self.not_before, not_after: self.not_after }
    }
}

impl View for AltName {
    type V = Name;

    open spec fn view(&self) -> Name {
        match self {
            AltName::Dns(s) => Name::Dns(s@),
            AltName::Ip(b) => Name::Ip(b@),
            AltName::Other => Name::Other,
        }
    }
}

/// The names of a list.
pub open spec fn name_values(v: Seq<AltName>) -> Seq<Name> {
    v.map_values(|n: AltName| n@)
}

/// The outcome of reading a certificate's alternative names.
pub open spec fn names_value(r: Result<Option<Vec<AltName>>, String>) -> Result<
    Option<Seq<Name>>,
    Seq<char>,
> {
    match r {
        Ok(Some(v)) => Ok(Some(name_values(v@))),
        Ok(None) => Ok(None),
        Err(e) => Err(e@),
    }
}

// ---------------------------------------------------------------------------
// Reading certificates
// ---------------------------------------------------------------------------

/// What `x509_parser::parse_x509_certificate` reads from a DER certificate:
/// the parts that are checked, or the text of its error.
pub uninterp spec fn certificate_of(der: Seq<u8>) -> Result<Cert, Seq<char>>;

/// The subjectAltName of a DER certificate, as
/// `X509Certificate::subject_alternative_name` reads it; `None` for a
/// certificate without one.
pub uninterp spec fn alternative_names_of(der: Seq<u8>) -> Result<Option<Seq<Name>>, Seq<char>>;

/// The standard base64 text of a byte string, as `base64` encodes it.
pub uninterp spec fn base64_of(bytes: Seq<u8>) -> Seq<char>;

/// Read a certificate with `x509_parser::parse_x509_certificate`. The claim
/// is that the outcome depends on the bytes alone.
#[verifier::external_body]
fn parse_certificate(der: &[u8]) -> (r: Result<Certificate, String>)
    ensures
        match certificate_of(der@) {
            Ok(c) => r matches Ok(x) && x@ == c,
            Err(text) => r matches Err(e) && e@ == text,
        },
{
    match x509_parser::parse_x509_certificate(der) {
        Ok((_, c)) => Ok(Certificate {
            spki: c.public_key().raw.to_vec(),
            not_before: c.validity().not_before.timestamp(),
            not_after: c.validity().not_after.timestamp(),
        }),
        Err(error) => Err(error.to_string()),
    }
}

/// Read the alternative names of a certificate with
/// `X509Certificate::subject_alternative_name`. The claim is that the outcome
/// depends on the bytes alone.
#[verifier::external_body]
fn parse_alternative_names(der: &[u8]) -> (r: Result<Option<Vec<AltName>>, String>)
    ensures
        names_value(r) == alternative_names_of(der@),
{
    let (_, c) = x509_parser::parse_x509_certificate(der).map_err(|e| e.to_string())?;
    let san = c.subject_alternative_name().map_err(|e| e.to_string())?;
    Ok(san.map(|san| {
        san.value.general_names.iter().map(|name| match name {
            x509_parser::extensions::GeneralName::DNSName(s) => AltName::Dns((*s).to_owned()),
            x509_parser::extensions::GeneralName::IPAddress(b) => AltName::Ip(b.to_vec()),
            _ => AltName::Other,
        }).collect()
    }))
}

/// Encode bytes with the standard engine of `base64`. The claim is that the
/// text depends on the bytes alone.
#[verifier::external_body]
fn base64_text(bytes: &[u8]) -> (s: String)
    ensures
        s@ == base64_of(bytes@),
{
    base64::Engine::encode(&base64::engine::general_purpose::STANDARD, bytes)
}

/// The pin of a public key: the base64 text of its SHA-256 digest.
pub open spec fn pin_of(spki: Seq<u8>) -> Seq<char> {
    base64_of(digest::sha256(spki))
}

/// The pin of a certificate's public key.
pub fn spki_sha256_base64(certificate: &Certificate) -> (pin: String)
    ensures
        pin@ == pin_of(certificate@.spki),
{
    let digest = digest::sha256_digest(certificate.spki.as_slice());
    base64_text(digest.as_slice())
}

// ---------------------------------------------------------------------------
// Checks
// ---------------------------------------------------------------------------

/// Why a certificate is refused at a time, given its validity.
pub open spec fn validity_refusal(c: Cert, now: u64) -> Option<Seq<char>> {
    let t = if now > i64::MAX {
        i64::MAX as int
    } else {
        now as int
    };
    if t < c.not_before {
        Some("pinned authorisation server certificate is not yet valid"@)
    } else if t > c.not_after {
        Some("pinned authorisation server certificate has expired"@)
    } else {
        None
    }
}

/// Refuse a certificate that is expired or not yet valid at `now`, in
/// seconds since the Unix epoch.
pub fn check_validity(certificate: &Certificate, now: u64) -> (r: Result<(), String>)
    ensures
        match validity_refusal(certificate@, now) {
            Some(text) => r matches Err(e) && e@ == text,
            None => r is Ok,
        },
{
    let t: i64 = if now > i64::MAX as u64 {
        i64::MAX
    } else {
        now as i64
    };
    if t < certificate.not_before {
        return Err("pinned authorisation server certificate is not yet valid".to_owned());
    }
    if t > certificate.not_after {
        return Err("pinned authorisation server certificate has expired".to_owned());
    }
    Ok(())
}

/// Whether a certificate's DNS name covers a host: it is the host's name, in
/// any case, or a wildcard for its first label.
pub open spec fn covers(certificate_name: Seq<char>, requested: Seq<char>) -> bool {
    if text::begins_with(certificate_name, "*."@) {
        let dot = text::seek(requested, '.', 0);
        dot < requested.len() && text::fold(requested.skip(dot + 1)) == text::fold(
            certificate_name.skip(2),
        )
    } else {
        text::fold(certificate_name) == text::fold(requested)
    }
}

/// Whether a certificate's DNS name covers a host.
pub fn dns_name_matches(certificate_name: &str, requested: &str) -> (b: bool)
    ensures
        b == covers(certificate_name@, requested@),
{
    proof {
        reveal_strlit("*.");
    }
    if text::starts_with(certificate_name, "*.") {
        let v = text::chars_of(certificate_name);
        let r = text::chars_of(requested);
        let dot = text::find_char(&r, '.', 0);
        if dot == r.len() {
            return false;
        }
        let suffix = text::text_of_range(&v, 2, v.len());
        let rest = text::text_of_range(&r, dot + 1, r.len());
        assert(suffix@ =~= certificate_name@.skip(2));
        assert(rest@ =~= requested@.skip(dot + 1));
        text::same_ignoring_case(rest.as_str(), suffix.as_str())
    } else {
        text::same_ignoring_case(certificate_name, requested)
    }
}

/// Whether the bytes of a certificate's address are those of the host.
pub fn ip_address_matches(certificate_bytes: &Vec<u8>, requested: &Vec<u8>) -> (b: bool)
    ensures
        b == (certificate_bytes@ == requested@),
{
    if certificate_bytes.len() != requested.len() {
        return false;
    }
    let mut i: usize = 0;
    while i < requested.len()
        invariant
            i <= requested@.len(),
            certificate_bytes@.len() == requested@.len(),
            forall|k: int| 0 <= k < i ==> certificate_bytes@[k] == requested@[k],
        decreases requested.len() - i,
    {
        if certificate_bytes[i] != requested[i] {
            return false;
        }
        i = i + 1;
    }
    assert(certificate_bytes@ =~= requested@);
    true
}

/// Whether one name of a certificate stands for a host.
pub open spec fn stands_for(name: Name, host: Name) -> bool {
    match (name, host) {
        (Name::Dns(n), Name::Dns(h)) => covers(n, h),
        (Name::Ip(a), Name::Ip(b)) => a == b,
        _ => false,
    }
}

/// Why a certificate is refused for a host, given its alternative names.
pub open spec fn hostname_refusal(
    names: Result<Option<Seq<Name>>, Seq<char>>,
    host: Name,
    shown: Seq<char>,
) -> Option<Seq<char>> {
    match names {
        Err(e) => Some("could not read certificate subjectAltName: "@ + e),
        Ok(None) => Some("pinned certificate has no subjectAltName"@),
        Ok(Some(list)) => if exists|i: int|
            0 <= i < list.len() && stands_for(#[trigger] list[i], host) {
            None
        } else {
            Some("pinned certificate is not valid for the requested host "@ + shown)
        },
    }
}

/// Refuse a certificate that was not issued for the host.
pub fn check_hostname(names: &Result<Option<Vec<AltName>>, String>, host: &Host) -> (r: Result<
    (),
    String,
>)
    ensures
        match hostname_refusal(names_value(*names), host.name@, host.shown@) {
            Some(text) => r matches Err(e) && e@ == text,
            None => r is Ok,
        },
{
    let list = match names {
        Err(e) => {
            let mut m = String::from_str("could not read certificate subjectAltName: ");
            m.append(e.as_str());
            return Err(m);
        },
        Ok(None) => {
            return Err("pinned certificate has no subjectAltName".to_owned());
        },
        Ok(Some(list)) => list,
    };
    let mut i: usize = 0;
    while i < list.len()
        invariant
            i <= list@.len(),
            *names == Ok::<Option<Vec<AltName>>, String>(Some(*list)),
            forall|k: int|
                0 <= k < i ==> !stands_for(#[trigger] name_values(list@)[k], host.name@),
        decreases list.len() - i,
    {
        let found = match (&list[i], &host.name) {
            (AltName::Dns(n), AltName::Dns(h)) => dns_name_matches(n.as_str(), h.as_str()),
            (AltName::Ip(a), AltName::Ip(b)) => ip_address_matches(a, b),
            _ => false,
        };
        assert(name_values(list@)[i as int] == list@[i as int]@);
        if found {
            return Ok(());
        }
        i = i + 1;
    }
    let mut m = String::from_str("pinned certificate is not valid for the requested host ");
    m.append(host.shown.as_str());
    Err(m)
}

/// A pin without its optional `sha256/` prefix.
pub open spec fn bare_pin(pin: Seq<char>) -> Seq<char> {
    if text::begins_with(pin, "sha256/"@) {
        pin.skip(7)
    } else {
        pin
    }
}

/// Why a certificate is refused: its key must be pinned, it must be within
/// its validity, and it must be issued for the host.
pub open spec fn certificate_refusal(
    pins: Seq<Seq<char>>,
    presented: Seq<char>,
    c: Cert,
    names: Result<Option<Seq<Name>>, Seq<char>>,
    host: Name,
    shown: Seq<char>,
    now: u64,
) -> Option<Seq<char>> {
    if !pins.contains(presented) {
        Some(
            "authorisation server certificate SPKI "@ + presented
                + " matches no configured pin"@,
        )
    } else {
        match validity_refusal(c, now) {
            Some(text) => Some(text),
            None => hostname_refusal(names, host, shown),
        }
    }
}

/// Accepts certificates whose public key is pinned.
#[derive(Debug)]
pub struct SpkiPinVerifier {
    pins: Vec<String>,
}

impl View for SpkiPinVerifier {
    type V = Seq<Seq<char>>;

    closed spec fn view(&self) -> Seq<Seq<char>> {
        text::views(self.pins@)
    }
}

impl SpkiPinVerifier {
    /// A verifier for the given pins. The prefix `sha256/` is optional.
    pub fn new(pins: &Vec<String>) -> (v: Self)
        ensures
            v@ == text::views(pins@).map_values(|p: Seq<char>| bare_pin(p)),
    {
        proof {
            reveal_strlit("sha256/");
        }
        let mut bare: Vec<String> = Vec::new();
        let ghost all = text::views(pins@).map_values(|p: Seq<char>| bare_pin(p));
        let mut i: usize = 0;
        while i < pins.len()
            invariant
                i <= pins@.len(),
                "sha256/"@.len() == 7,
                all == text::views(pins@).map_values(|p: Seq<char>| bare_pin(p)),
                text::views(bare@) == all.take(i as int),
            decreases pins.len() - i,
        {
            let pin = &pins[i];
            let ghost before = bare@;
            if text::starts_with(pin.as_str(), "sha256/") {
                let v = text::chars_of(pin.as_str());
                let rest = text::text_of_range(&v, 7, v.len());
                assert(rest@ =~= pin@.skip(7));
                bare.push(rest);
            } else {
                bare.push(pin.clone());
            }
            i = i + 1;
            proof {
                assert(text::views(bare@) =~= text::views(before).push(all[i - 1]));
                assert(all.take(i as int) =~= all.take(i - 1).push(all[i - 1]));
            }
        }
        assert(all.take(all.len() as int) =~= all);
        SpkiPinVerifier { pins: bare }
    }

    /// Check a certificate whose parts were read and whose pin is
    /// `presented`.
    pub fn check_certificate(
        &self,
        presented: &str,
        certificate: &Certificate,
        names: &Result<Option<Vec<AltName>>, String>,
        host: &Host,
        now: u64,
    ) -> (r: Result<(), String>)
        ensures
            match certificate_refusal(
                self@,
                presented@,
                certificate@,
                names_value(*names),
                host.name@,
                host.shown@,
                now,
            ) {
                Some(text) => r matches Err(e) && e@ == text,
                None => r is Ok,
            },
    {
        proof {
            text::lemma_listed(self.pins@, presented@);
        }
        if !text::contains(&self.pins, presented) {
            let mut m = String::from_str("authorisation server certificate SPKI ");
            m.append(presented);
            m.append(" matches no configured pin");
            return Err(m);
        }
        match check_validity(certificate, now) {
            Ok(()) => check_hostname(names, host),
            Err(e) => Err(e),
        }
    }

    /// Verify the DER certificate that a server presents.
    pub fn verify_server_cert(&self, end_entity: &[u8], host: &Host, now: u64) -> (r: Result<
        (),
        String,
    >)
        ensures
            match certificate_of(end_entity@) {
                Err(text) => r matches Err(e) && e@ == "could not parse server certificate: "@
                    + text,
                Ok(c) => match certificate_refusal(
                    self@,
                    pin_of(c.spki),
                    c,
                    alternative_names_of(end_entity@),
                    host.name@,
                    host.shown@,
                    now,
                ) {
                    Some(text) => r matches Err(e) && e@ == text,
                    None => r is Ok,
                },
            },
    {
        let certificate = match parse_certificate(end_entity) {
            Ok(c) => c,
            Err(e) => {
                let mut m = String::from_str("could not parse server certificate: ");
                m.append(e.as_str());
                return Err(m);
            },
        };
        let presented = spki_sha256_base64(&certificate);
        let names = parse_alternative_names(end_entity);
        self.check_certificate(presented.as_str(), &certificate, &names, host, now)
    }
}

// ---------------------------------------------------------------------------
// Laws
// ---------------------------------------------------------------------------

/// A certificate that is accepted has a pinned key, is within its validity
/// and was issued for the host: the pin stands beside the other checks, not
/// in their place.
pub proof fn accepted_certificates_meet_every_check(
    pins: Seq<Seq<char>>,
    presented: Seq<char>,
    c: Cert,
    names: Result<Option<Seq<Name>>, Seq<char>>,
    host: Name,
    shown: Seq<char>,
    now: u64,
)
    ensures
        certificate_refusal(pins, presented, c, names, host, shown, now) is None <==> {
            &&& pins.contains(presented)
            &&& validity_refusal(c, now) is None
            &&& names matches Ok(Some(list)) && exists|i: int|
                0 <= i < list.len() && stands_for(#[trigger] list[i], host)
        },
{
}

/// A wildcard stands for exactly one label: it covers a host only where the
/// host is one label without a dot, a dot, and the wildcard's rest.
pub proof fn wildcards_cover_one_label(rest: Seq<char>, label: Seq<char>, tail: Seq<char>)
    requires
        !label.contains('.'),
    ensures
        covers("*."@ + rest, label + seq!['.'] + tail) <==> text::fold(tail) == text::fold(rest),
        !covers("*."@ + rest, label),
{
    reveal_strlit("*.");
    let name = "*."@ + rest;
    let host = label + seq!['.'] + tail;
    let n = label.len() as int;
    assert(name.take(2) =~= "*."@);
    assert(name.skip(2) =~= rest);
    assert forall|k: int| 0 <= k < n implies host[k] != '.' by {
        assert(host[k] == label[k]);
        assert(label.contains(label[k]));
    }
    assert(host[n] == '.');
    text::lemma_seek_unique(host, '.', 0, n);
    assert(host.skip(n + 1) =~= tail);
    text::lemma_seek(label, '.', 0);
    let p = text::seek(label, '.', 0);
    if p < label.len() {
        assert(label.contains(label[p]));
    }
}

/// A certificate is refused before the first and after the last second of its
/// validity, and at no other time.
pub proof fn certificates_hold_from_their_first_to_their_last_second(c: Cert, now: u64)
    requires
        now <= 9_223_372_036_854_775_807,
    ensures
        validity_refusal(c, now) is None <==> c.not_before <= now <= c.not_after,
{
}

/// A name without a wildcard covers the host of that name, in any case, and no
/// other. A wildcard covers no host without a dot, and stands for no more than
/// the first label.
pub proof fn names_cover_their_own_host(name: Seq<char>, host: Seq<char>, rest: Seq<char>)
    ensures
        !text::begins_with(name, "*."@) ==> (covers(name, host) <==> text::fold(name) == text::fold(
            host,
        )),
        !host.contains('.') ==> !covers("*."@ + rest, host),
{
    reveal_strlit("*.");
    let wild = "*."@ + rest;
    assert(wild.take(2) =~= "*."@);
    if !host.contains('.') {
        text::lemma_seek(host, '.', 0);
        let p = text::seek(host, '.', 0);
        if p < host.len() {
            assert(host.contains(host[p]));
        }
    }
}

/// A DNS name stands for hosts by name and an address for the host of exactly
/// that address; neither stands for the other, and other names for none.
pub proof fn names_stand_for_hosts_of_their_kind(
    n: Seq<char>,
    h: Seq<char>,
    a: Seq<u8>,
    b: Seq<u8>,
    host: Name,
)
    ensures
        stands_for(Name::Dns(n), Name::Dns(h)) <==> covers(n, h),
        stands_for(Name::Ip(a), Name::Ip(b)) <==> a == b,
        !stands_for(Name::Dns(n), Name::Ip(b)),
        !stands_for(Name::Ip(a), Name::Dns(h)),
        !stands_for(Name::Other, host),
{
}

/// A certificate serves a host where one of its names stands for it; one whose
/// names cannot be read, or that has none, serves no host.
pub proof fn certificates_serve_the_hosts_they_name(
    list: Seq<Name>,
    i: int,
    host: Name,
    shown: Seq<char>,
    why: Seq<char>,
)
    ensures
        0 <= i < list.len() && stands_for(list[i], host) ==> hostname_refusal(
            Ok(Some(list)),
            host,
            shown,
        ) is None,
        (forall|k: int| 0 <= k < list.len() ==> !stands_for(#[trigger] list[k], host)) ==> (
        hostname_refusal(Ok(Some(list)), host, shown) matches Some(m) && text::mentions(m, shown)),
        hostname_refusal(Ok(None), host, shown) is Some,
        hostname_refusal(Err(why), host, shown) matches Some(m) && text::mentions(m, why),
{
    text::lemma_mentions(
        "pinned certificate is not valid for the requested host "@,
        shown,
        Seq::empty(),
    );
    text::lemma_mentions("could not read certificate subjectAltName: "@, why, Seq::empty());
    let names = Ok::<Option<Seq<Name>>, Seq<char>>(Some(list));
    if 0 <= i < list.len() && stands_for(list[i], host) {
        assert(names->Ok_0->Some_0[i] == list[i]);
        assert(hostname_refusal(names, host, shown) is None);
    }
}

/// A pin may be written with the prefix `sha256/`, which is not part of it.
pub proof fn pins_are_taken_without_their_prefix(pin: Seq<char>)
    ensures
        bare_pin("sha256/"@ + pin) == pin,
        (forall|rest: Seq<char>| pin != "sha256/"@ + rest) ==> bare_pin(pin) == pin,
{
    reveal_strlit("sha256/");
    let long = "sha256/"@ + pin;
    assert(long.take(7) =~= "sha256/"@);
    assert(long.skip(7) =~= pin);
    if text::begins_with(pin, "sha256/"@) {
        assert(pin =~= "sha256/"@ + pin.skip(7));
    }
}

/// The pin of a key is the base64 form of its digest, and the first check that
/// a certificate fails is the one that is reported: the pin, the validity, the
/// host.
pub proof fn the_first_failing_certificate_check_is_reported(
    pins: Seq<Seq<char>>,
    presented: Seq<char>,
    c: Cert,
    names: Result<Option<Seq<Name>>, Seq<char>>,
    host: Name,
    shown: Seq<char>,
    now: u64,
    spki: Seq<u8>,
)
    ensures
        pin_of(spki) == base64_of(digest::sha256(spki)),
        ({
            let refusal = certificate_refusal(pins, presented, c, names, host, shown, now);
            let pinned = exists|i: int| 0 <= i < pins.len() && #[trigger] pins[i] == presented;
            &&& !pinned ==> (refusal matches Some(m) && text::mentions(m, presented))
            &&& pinned && validity_refusal(c, now) is Some ==> refusal == validity_refusal(c, now)
            &&& pinned && validity_refusal(c, now) is None ==> refusal == hostname_refusal(
                names,
                host,
                shown,
            )
        }),
{
    text::lemma_mentions(
        "authorisation server certificate SPKI "@,
        presented,
        " matches no configured pin"@,
    );
    if exists|i: int| 0 <= i < pins.len() && #[trigger] pins[i] == presented {
        let i = choose|i: int| 0 <= i < pins.len() && #[trigger] pins[i] == presented;
        assert(pins.contains(pins[i]));
    }
}

/// Alternative names are read one by one, each as what it is.
pub proof fn alternative_names_are_read_one_by_one(n: AltName, list: Seq<AltName>, i: int)
    ensures
        n matches AltName::Dns(s) ==> n@ == Name::Dns(s@),
        n matches AltName::Ip(b) ==> n@ == Name::Ip(b@),
        n is Other ==> n@ == Name::Other,
        name_values(list).len() == list.len(),
        0 <= i < list.len() ==> name_values(list)[i] == list[i]@,
{
}

/// Addresses match byte for byte, and the pins of a verifier are those that it
/// was given, without their prefix.
pub proof fn verifiers_keep_their_pins(
    pins: &Vec<String>,
    v: SpkiPinVerifier,
    a: &Vec<u8>,
    b: &Vec<u8>,
    same: bool,
    i: int,
)
    requires
        call_ensures(SpkiPinVerifier::new, (pins,), v),
        call_ensures(ip_address_matches, (a, b), same),
    ensures
        same <==> a@ == b@,
        v@.len() == pins@.len(),
        0 <= i < pins@.len() ==> v@[i] == bare_pin(pins@[i]@),
{
}

/// A certificate is accepted by a verifier only where its key is pinned, and a
/// verifier without pins accepts none.
pub proof fn verifiers_accept_pinned_keys_only(
    v: &SpkiPinVerifier,
    presented: &str,
    certificate: &Certificate,
    names: &Result<Option<Vec<AltName>>, String>,
    host: &Host,
    now: u64,
    r: Result<(), String>,
)
    requires
        call_ensures(
            SpkiPinVerifier::check_certificate,
            (v, presented, certificate, names, host, now),
            r,
        ),
    ensures
        r is Ok ==> v@.contains(presented@) && validity_refusal(certificate@, now) is None,
        v@.len() == 0 ==> r is Err,
{
}

/// A certificate is accepted exactly where it can be read, its key is pinned,
/// it holds at the time and one of its names stands for the host.
pub proof fn accepted_certificates_are_pinned_current_and_for_the_host(
    v: &SpkiPinVerifier,
    der: &[u8],
    host: &Host,
    now: u64,
    r: Result<(), String>,
)
    requires
        call_ensures(SpkiPinVerifier::verify_server_cert, (v, der, host, now), r),
    ensures
        r is Ok <==> (certificate_of(der@) matches Ok(c) && {
            &&& v@.contains(base64_of(digest::sha256(c.spki)))
            &&& validity_refusal(c, now) is None
            &&& alternative_names_of(der@) matches Ok(Some(list)) && exists|i: int|
                0 <= i < list.len() && stands_for(#[trigger] list[i], host.name@)
        }),
{
    if let Ok(c) = certificate_of(der@) {
        accepted_certificates_meet_every_check(
            v@,
            pin_of(c.spki),
            c,
            alternative_names_of(der@),
            host.name@,
            host.shown@,
            now,
        );
    }
}

/// What was read of the alternative names is handed on as it is.
pub proof fn read_names_are_handed_on(list: Vec<AltName>, why: String)
    ensures
        names_value(Ok(Some(list))) == Ok::<_, Seq<char>>(Some(name_values(list@))),
        names_value(Ok(None)) == Ok::<Option<Seq<Name>>, Seq<char>>(None),
        names_value(Err(why)) == Err::<Option<Seq<Name>>, _>(why@),
{
}

} // verus!

//! Validated token claims, and the form in which a subject is logged.

use vstd::prelude::*;
use vstd::utf8;

use crate::names::NameSet;
use crate::text;

verus! {

/// The byte cap of a sanitised subject.
pub const SUBJECT_BYTE_CAP: usize = 256;

/// The claims that the gateway takes from a validated token.
pub struct ValidatedClaims {
    subject: String,
    scopes: NameSet,
}

/// Validated claims as a mathematical value.
pub struct Claims {
    pub subject: Seq<char>,
    pub scopes: Set<Seq<char>>,
}

impl View for ValidatedClaims {
    type V = Claims;

    closed spec fn view(&self) -> Claims {
        Claims { subject: self.subject@, scopes: self.scopes@ }
    }
}

impl ValidatedClaims {
    /// A claims set of a raw subject and parsed scopes.
    pub fn new(subject: String, scopes: NameSet) -> (claims: Self)
        ensures
            claims@ == (Claims { subject: subject@, scopes: scopes@ }),
    {
        ValidatedClaims { subject, scopes }
    }

    /// The raw `sub` claim. It is not for logs.
    pub fn subject(&self) -> (subject: &str)
        ensures
            subject@ == self@.subject,
    {
        self.subject.as_str()
    }

    /// The token's scopes.
    pub fn scopes(&self) -> (scopes: &NameSet)
        ensures
            scopes@ == self@.scopes,
    {
        &self.scopes
    }

    /// The `sub` claim in a form that is safe to log.
    pub fn sanitised_subject(&self) -> (shown: String)
        ensures
            shown@ == sanitised(self@.subject),
    {
        sanitise_subject(self.subject.as_str())
    }
}

/// The upper-case hexadecimal digit of `n`.
pub open spec fn hex_digit(n: int) -> char {
    if n < 10 {
        ((48 + n) as u32) as char
    } else {
        ((55 + n) as u32) as char
    }
}

/// `%XX` for each byte.
pub open spec fn percent_encoded(bytes: Seq<u8>) -> Seq<char>
    decreases bytes.len(),
{
    if bytes.len() == 0 {
        Seq::empty()
    } else {
        percent_encoded(bytes.drop_last()) + seq![
            '%',
            hex_digit(bytes.last() as int / 16),
            hex_digit(bytes.last() as int % 16),
        ]
    }
}

/// One character of a subject in a log: a control character as its
/// percent-encoded UTF-8 bytes, any other as it is.
pub open spec fn inert_char(c: char) -> Seq<char> {
    if text::control(c) {
        percent_encoded(utf8::encode_scalar(c as u32))
    } else {
        seq![c]
    }
}

/// A subject with every control character percent-encoded.
pub open spec fn inert(s: Seq<char>) -> Seq<char>
    decreases s.len(),
{
    if s.len() == 0 {
        Seq::empty()
    } else {
        inert(s.drop_last()) + inert_char(s.last())
    }
}

/// A subject in the form in which it is logged.
pub open spec fn sanitised(s: Seq<char>) -> Seq<char> {
    text::fitting(inert(s), SUBJECT_BYTE_CAP as nat)
}

/// Append `%XX` for `byte`.
fn push_percent(out: &mut String, byte: u8)
    ensures
        final(out)@ == old(out)@ + seq![
            '%',
            hex_digit(byte as int / 16),
            hex_digit(byte as int % 16),
        ],
{
    out.push('%');
    out.push(hex(byte / 16));
    out.push(hex(byte % 16));
    assert(out@ =~= old(out)@ + seq![
        '%',
        hex_digit(byte as int / 16),
        hex_digit(byte as int % 16),
    ]);
}

/// The upper-case hexadecimal digit of `n`.
fn hex(n: u8) -> (c: char)
    requires
        n < 16,
    ensures
        c == hex_digit(n as int),
{
    if n < 10 {
        (48 + n) as char
    } else {
        (55 + n) as char
    }
}

/// The UTF-8 bytes of a control character.
proof fn lemma_control_bytes(v: u32)
    requires
        v <= 0x1F || 0x7F <= v <= 0x9F,
    ensures
        utf8::encode_scalar(v) == (if v <= 0x7F {
            seq![v as u8]
        } else {
            seq![0xC2u8, v as u8]
        }),
{
    if v <= 0x7F {
        assert((v & 0x7F) as u8 == v as u8) by (bit_vector)
            requires
                v <= 0x7F,
        ;
    } else {
        assert(0xC0u8 | ((v >> 6) & 0x1F) as u8 == 0xC2u8) by (bit_vector)
            requires
                0x80 <= v <= 0x9F,
        ;
        assert(0x80u8 | (v & 0x3F) as u8 == v as u8) by (bit_vector)
            requires
                0x80 <= v <= 0x9F,
        ;
    }
}

/// Render a `sub` claim safe to write to a log field.
pub fn sanitise_subject(raw: &str) -> (shown: String)
    ensures
        shown@ == sanitised(raw@),
{
    let v = text::chars_of(raw);
    let mut out = String::new();
    let mut i: usize = 0;
    assert(v@.take(0) =~= Seq::empty());
    while i < v.len()
        invariant
            i <= v.len(),
            out@ == inert(v@.take(i as int)),
        decreases v.len() - i,
    {
        let ghost before = out@;
        let c = v[i];
        if is_log_unsafe_control(c) {
            let code: u32 = c as u32;
            proof {
                lemma_control_bytes(code);
                reveal_with_fuel(percent_encoded, 3);
            }
            if code > 0x7F {
                push_percent(&mut out, 0xC2);
                push_percent(&mut out, code as u8);
                proof {
                    let bytes = seq![0xC2u8, code as u8];
                    assert(bytes.drop_last() =~= seq![0xC2u8]);
                    assert(seq![0xC2u8].drop_last() =~= Seq::<u8>::empty());
                    assert(out@ =~= before + percent_encoded(bytes));
                }
            } else {
                push_percent(&mut out, code as u8);
                proof {
                    let bytes = seq![code as u8];
                    assert(bytes.drop_last() =~= Seq::<u8>::empty());
                    assert(out@ =~= before + percent_encoded(bytes));
                }
            }
        } else {
            out.push(c);
            assert(out@ =~= before + seq![c]);
        }
        i = i + 1;
        proof {
            assert(v@.take(i as int).drop_last() =~= v@.take(i - 1));
            assert(v@.take(i as int).last() == c);
        }
    }
    assert(v@.take(v@.len() as int) =~= v@);
    truncate_to_byte_cap(out, SUBJECT_BYTE_CAP)
}

/// Whether a character is percent-encoded before logging.
pub fn is_log_unsafe_control(character: char) -> (b: bool)
    ensures
        b == text::control(character),
{
    text::is_control(character)
}

/// Truncate a string to at most `cap` bytes, without splitting a character.
pub fn truncate_to_byte_cap(value: String, cap: usize) -> (r: String)
    ensures
        r@ == text::fitting(value@, cap as nat),
{
    text::prefix_within(value.as_str(), cap)
}

// ---------------------------------------------------------------------------
// Laws
// ---------------------------------------------------------------------------

/// A logged subject holds no control character and takes at most 256 bytes,
/// whatever the token carried.
pub proof fn logged_subjects_are_inert(s: Seq<char>)
    ensures
        forall|i: int| 0 <= i < sanitised(s).len() ==> !text::control(#[trigger] sanitised(s)[i]),
        text::byte_len(sanitised(s)) <= 256,
{
    lemma_inert(s);
    text::lemma_fitting_fits(inert(s), SUBJECT_BYTE_CAP as nat);
    let n = choose|n: int| 0 <= n <= inert(s).len() && sanitised(s) == #[trigger] inert(s).take(n);
    assert forall|i: int| 0 <= i < sanitised(s).len() implies !text::control(
        #[trigger] sanitised(s)[i],
    ) by {
        assert(sanitised(s)[i] == inert(s)[i]);
    }
}

/// A subject without control characters that takes at most 256 bytes is
/// logged as it is.
pub proof fn printable_subjects_pass_through(s: Seq<char>)
    requires
        forall|i: int| 0 <= i < s.len() ==> !text::control(#[trigger] s[i]),
        text::byte_len(s) <= 256,
    ensures
        sanitised(s) == s,
{
    lemma_inert_of_printable(s);
}

proof fn lemma_inert_of_printable(s: Seq<char>)
    requires
        forall|i: int| 0 <= i < s.len() ==> !text::control(#[trigger] s[i]),
    ensures
        inert(s) == s,
    decreases s.len(),
{
    if s.len() > 0 {
        lemma_inert_of_printable(s.drop_last());
        assert(!text::control(s[s.len() - 1]));
        assert(inert(s) =~= s);
    } else {
        assert(inert(s) =~= s);
    }
}

proof fn lemma_percent_encoded(bytes: Seq<u8>)
    ensures
        forall|i: int|
            0 <= i < percent_encoded(bytes).len() ==> !text::control(
                #[trigger] percent_encoded(bytes)[i],
            ),
    decreases bytes.len(),
{
    if bytes.len() > 0 {
        lemma_percent_encoded(bytes.drop_last());
        let before = percent_encoded(bytes.drop_last());
        let b = bytes.last() as int;
        let added = seq!['%', hex_digit(b / 16), hex_digit(b % 16)];
        assert forall|i: int| 0 <= i < percent_encoded(bytes).len() implies !text::control(
            #[trigger] percent_encoded(bytes)[i],
        ) by {
            if i < before.len() {
                assert(percent_encoded(bytes)[i] == before[i]);
            } else {
                assert(percent_encoded(bytes)[i] == added[i - before.len()]);
                assert(0 <= b / 16 < 16 && 0 <= b % 16 < 16);
            }
        }
    }
}

proof fn lemma_inert(s: Seq<char>)
    ensures
        forall|i: int| 0 <= i < inert(s).len() ==> !text::control(#[trigger] inert(s)[i]),
    decreases s.len(),
{
    if s.len() > 0 {
        lemma_inert(s.drop_last());
        lemma_percent_encoded(utf8::encode_scalar(s.last() as u32));
        let before = inert(s.drop_last());
        let added = inert_char(s.last());
        assert forall|i: int| 0 <= i < inert(s).len() implies !text::control(
            #[trigger] inert(s)[i],
        ) by {
            if i < before.len() {
                assert(inert(s)[i] == before[i]);
            } else {
                assert(inert(s)[i] == added[i - before.len()]);
            }
        }
    }
}

/// What an upper-case hexadecimal digit stands for; -1 for another character.
pub open spec fn digit_value(c: char) -> int {
    if 48 <= c as u32 <= 57 {
        c as u32 - 48
    } else if 65 <= c as u32 <= 70 {
        c as u32 - 55
    } else {
        -1
    }
}

/// Whether a text has, at a position, a percent sign and the two digits of a
/// byte.
pub open spec fn shows_byte(s: Seq<char>, at: int, byte: u8) -> bool {
    &&& s[at] == '%'
    &&& 0 <= digit_value(s[at + 1])
    &&& 0 <= digit_value(s[at + 2])
    &&& 16 * digit_value(s[at + 1]) + digit_value(s[at + 2]) == byte
}

/// A subject is made fit for a log character by character: one that is no
/// control character stays, and a control character becomes its bytes, each
/// as a percent sign and two upper-case digits that the byte can be read
/// from.
pub proof fn subjects_are_encoded_character_by_character(
    a: Seq<char>,
    b: Seq<char>,
    c: char,
    i: int,
)
    ensures
        inert(a + b) == inert(a) + inert(b),
        inert(Seq::empty()).len() == 0,
        0x20 <= (c as u32) < 0x7f || c as u32 >= 0xa0 ==> inert(seq![c]) == seq![c],
        (c as u32) < 0x20 || 0x7f <= c as u32 <= 0x9f ==> {
            let bytes = utf8::encode_scalar(c as u32);
            &&& inert(seq![c]).len() == 3 * bytes.len()
            &&& 0 <= i < bytes.len() ==> shows_byte(inert(seq![c]), 3 * i, bytes[i])
        },
{
    lemma_inert_concat(a, b);
    lemma_inert_single(c);
    if text::control(c) {
        lemma_percent_digits(utf8::encode_scalar(c as u32), i);
    }
}

proof fn lemma_inert_single(c: char)
    ensures
        inert(seq![c]) == inert_char(c),
{
    reveal_with_fuel(inert, 2);
    assert(seq![c].drop_last() =~= Seq::empty());
    assert(inert(seq![c]) =~= inert_char(c));
}

proof fn lemma_inert_concat(a: Seq<char>, b: Seq<char>)
    ensures
        inert(a + b) == inert(a) + inert(b),
    decreases b.len(),
{
    if b.len() == 0 {
        assert(a + b =~= a);
        assert(inert(a) + inert(b) =~= inert(a));
    } else {
        assert((a + b).drop_last() =~= a + b.drop_last());
        assert((a + b).last() == b.last());
        lemma_inert_concat(a, b.drop_last());
        assert(inert(a + b) =~= inert(a) + inert(b));
    }
}

proof fn lemma_percent_digits(bytes: Seq<u8>, i: int)
    ensures
        percent_encoded(bytes).len() == 3 * bytes.len(),
        0 <= i < bytes.len() ==> shows_byte(percent_encoded(bytes), 3 * i, bytes[i]),
    decreases bytes.len(),
{
    if bytes.len() > 0 {
        let first = bytes.drop_last();
        let before = percent_encoded(first);
        let shown = percent_encoded(bytes);
        let b = bytes.last() as int;
        lemma_percent_digits(first, i);
        assert(0 <= b / 16 < 16 && 0 <= b % 16 < 16);
        if 0 <= i < first.len() {
            assert(shown[3 * i] == before[3 * i]);
            assert(shown[3 * i + 1] == before[3 * i + 1]);
            assert(shown[3 * i + 2] == before[3 * i + 2]);
        } else if i == first.len() {
            assert(shown[3 * i + 1] == hex_digit(b / 16));
            assert(shown[3 * i + 2] == hex_digit(b % 16));
            assert(digit_value(hex_digit(b / 16)) == b / 16);
            assert(digit_value(hex_digit(b % 16)) == b % 16);
        }
    }
}

/// A logged subject is the beginning of the encoded one, and as much of it as
/// fits into 256 bytes.
pub proof fn logged_subjects_are_as_long_as_they_may_be(s: Seq<char>, n: int)
    requires
        0 <= n <= inert(s).len(),
    ensures
        sanitised(s) == inert(s).take(sanitised(s).len() as int),
        text::byte_len(inert(s).take(n)) <= 256 <==> n <= sanitised(s).len(),
{
    let all = inert(s);
    text::lemma_fitting_fits(all, 256);
    let k = choose|k: int| 0 <= k <= all.len() && text::fitting(all, 256) == #[trigger] all.take(k);
    assert(sanitised(s).len() == k);
    if n <= k {
        text::lemma_byte_len_grows(all, n, k);
    } else {
        text::lemma_longest(all, 256, n);
    }
}

} // verus!

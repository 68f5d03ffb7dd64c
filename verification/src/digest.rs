//! SHA-256 digests and their text forms.

use vstd::prelude::*;
use vstd::utf8;

verus! {

/// The SHA-256 digest of a byte string, as `sha2` computes it.
pub uninterp spec fn sha256(bytes: Seq<u8>) -> Seq<u8>;

/// Compute a SHA-256 digest with `sha2::Sha256::digest`. The claim is that
/// the digest depends on the bytes alone.
#[verifier::external_body]
pub(crate) fn sha256_digest(bytes: &[u8]) -> (digest: [u8; 32])
    ensures
        digest@ == sha256(bytes@),
{
    <sha2::Sha256 as sha2::Digest>::digest(bytes).into()
}

/// The SHA-256 digest of a text, over its UTF-8 bytes.
pub open spec fn text_digest(s: Seq<char>) -> Seq<u8> {
    sha256(utf8::encode_utf8(s))
}

/// The lower-case hexadecimal digit of `n`.
pub open spec fn hex_digit(n: int) -> char {
    if n < 10 {
        ((48 + n) as u32) as char
    } else {
        ((87 + n) as u32) as char
    }
}

/// Two lower-case hexadecimal digits for each byte.
pub open spec fn hex_of(bytes: Seq<u8>) -> Seq<char>
    decreases bytes.len(),
{
    if bytes.len() == 0 {
        Seq::empty()
    } else {
        hex_of(bytes.drop_last()).push(hex_digit(bytes.last() as int / 16)).push(
            hex_digit(bytes.last() as int % 16),
        )
    }
}

/// The lower-case hexadecimal digit of `n`.
fn hex(n: u8) -> (c: char)
    requires
        n < 16,
    ensures
        c == hex_digit(n as int),
{
    if n < 10 {
        (48 + n) as char
    } else {
        (87 + n) as char
    }
}

/// Two lower-case hexadecimal digits for each byte.
pub fn hex_text(bytes: &[u8]) -> (s: String)
    ensures
        s@ == hex_of(bytes@),
{
    let mut s = String::new();
    let mut i: usize = 0;
    assert(bytes@.take(0) =~= Seq::empty());
    while i < bytes.len()
        invariant
            i <= bytes@.len(),
            s@ == hex_of(bytes@.take(i as int)),
        decreases bytes.len() - i,
    {
        s.push(hex(bytes[i] / 16));
        s.push(hex(bytes[i] % 16));
        i = i + 1;
        proof {
            assert(bytes@.take(i as int).drop_last() =~= bytes@.take(i - 1));
            assert(bytes@.take(i as int).last() == bytes@[i - 1]);
        }
    }
    assert(bytes@.take(bytes@.len() as int) =~= bytes@);
    s
}

/// The lower-case hexadecimal SHA-256 of a text.
pub fn sha256_hex(body: &str) -> (s: String)
    ensures
        s@ == hex_of(text_digest(body@)),
{
    let digest = sha256_digest(body.as_bytes());
    hex_text(digest.as_slice())
}

// ---------------------------------------------------------------------------
// Laws
// ---------------------------------------------------------------------------

/// What a lower-case hexadecimal digit stands for; -1 for another character.
pub open spec fn digit_value(c: char) -> int {
    if 48 <= c as u32 <= 57 {
        c as u32 - 48
    } else if 97 <= c as u32 <= 102 {
        c as u32 - 87
    } else {
        -1
    }
}

/// The hexadecimal form of a byte string has two lower-case digits for each
/// byte, the higher one first, from which the byte can be read back.
pub proof fn hexadecimal_forms_read_back(bytes: Seq<u8>, i: int)
    requires
        0 <= i < bytes.len(),
    ensures
        hex_of(bytes).len() == 2 * bytes.len(),
        0 <= digit_value(hex_of(bytes)[2 * i]) < 16,
        0 <= digit_value(hex_of(bytes)[2 * i + 1]) < 16,
        16 * digit_value(hex_of(bytes)[2 * i]) + digit_value(hex_of(bytes)[2 * i + 1])
            == bytes[i] as int,
    decreases bytes.len(),
{
    let first = bytes.drop_last();
    lemma_hex_len(bytes);
    lemma_hex_len(first);
    if i < first.len() {
        hexadecimal_forms_read_back(first, i);
        assert(hex_of(bytes)[2 * i] == hex_of(first)[2 * i]);
        assert(hex_of(bytes)[2 * i + 1] == hex_of(first)[2 * i + 1]);
    }
}

proof fn lemma_hex_len(bytes: Seq<u8>)
    ensures
        hex_of(bytes).len() == 2 * bytes.len(),
    decreases bytes.len(),
{
    if bytes.len() > 0 {
        lemma_hex_len(bytes.drop_last());
    }
}

/// The digest of a text is that of its UTF-8 bytes, and its hexadecimal form
/// is that of the digest.
pub proof fn texts_are_digested_by_their_bytes(s: Seq<char>, body: &str, hex: String)
    requires
        call_ensures(sha256_hex, (body,), hex),
    ensures
        text_digest(s) == sha256(utf8::encode_utf8(s)),
        hex@ == hex_of(sha256(utf8::encode_utf8(body@))),
{
}

} // verus!

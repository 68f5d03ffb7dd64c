//! Character-level text operations, stated over sequences of `char`.

use vstd::prelude::*;
use vstd::utf8;

verus! {

/// `String::push` appends one character.
pub assume_specification[ String::push ](s: &mut String, c: char)
    ensures
        final(s)@ == old(s)@.push(c),
;

/// A text as its `Debug` output shows it: in double quotes, with escapes.
pub uninterp spec fn debug_form(s: Seq<char>) -> Seq<char>;

/// The `Debug` output of a `str`. The claim is that it depends on the text
/// alone.
#[verifier::external_body]
pub(crate) fn debug_text(s: &str) -> (shown: String)
    ensures
        shown@ == debug_form(s@),
{
    format!("{s:?}")
}

// ---------------------------------------------------------------------------
// Character classes
// ---------------------------------------------------------------------------

/// The Unicode `White_Space` property.
pub open spec fn white_space(c: char) -> bool {
    let v = c as u32;
    ||| 0x09 <= v <= 0x0D
    ||| v == 0x20
    ||| v == 0x85
    ||| v == 0xA0
    ||| v == 0x1680
    ||| 0x2000 <= v <= 0x200A
    ||| v == 0x2028
    ||| v == 0x2029
    ||| v == 0x202F
    ||| v == 0x205F
    ||| v == 0x3000
}

/// The Unicode control category: C0, DEL and C1.
pub open spec fn control(c: char) -> bool {
    let v = c as u32;
    v <= 0x1F || 0x7F <= v <= 0x9F
}

/// ASCII letters and digits.
pub open spec fn ascii_alphanumeric(c: char) -> bool {
    ||| '0' <= c <= '9'
    ||| 'a' <= c <= 'z'
    ||| 'A' <= c <= 'Z'
}

/// `c` with an ASCII upper-case letter replaced by its lower-case form.
pub open spec fn lower(c: char) -> char {
    if 'A' <= c <= 'Z' {
        ((c as u32 + 32) as u32) as char
    } else {
        c
    }
}

/// `c` with an ASCII lower-case letter replaced by its upper-case form.
pub open spec fn upper(c: char) -> char {
    if 'a' <= c <= 'z' {
        ((c as u32 - 32) as u32) as char
    } else {
        c
    }
}

pub fn is_white_space(c: char) -> (b: bool)
    ensures
        b == white_space(c),
{
    let v: u32 = c as u32;
    (0x09 <= v && v <= 0x0D) || v == 0x20 || v == 0x85 || v == 0xA0 || v == 0x1680 || (0x2000 <= v
        && v <= 0x200A) || v == 0x2028 || v == 0x2029 || v == 0x202F || v == 0x205F || v == 0x3000
}

pub fn is_control(c: char) -> (b: bool)
    ensures
        b == control(c),
{
    let v: u32 = c as u32;
    v <= 0x1F || (0x7F <= v && v <= 0x9F)
}

pub fn is_ascii_alphanumeric(c: char) -> (b: bool)
    ensures
        b == ascii_alphanumeric(c),
{
    ('0' <= c && c <= '9') || ('a' <= c && c <= 'z') || ('A' <= c && c <= 'Z')
}

pub fn to_lower(c: char) -> (r: char)
    ensures
        r == lower(c),
{
    if 'A' <= c && c <= 'Z' {
        (c as u8 + 32) as char
    } else {
        c
    }
}

pub fn to_upper(c: char) -> (r: char)
    ensures
        r == upper(c),
{
    if 'a' <= c && c <= 'z' {
        (c as u8 - 32) as char
    } else {
        c
    }
}

// ---------------------------------------------------------------------------
// Strings as character vectors
// ---------------------------------------------------------------------------

/// Whether two strings hold the same characters.
pub fn same(a: &str, b: &str) -> (r: bool)
    ensures
        r == (a@ == b@),
{
    broadcast use vstd::utf8::encode_utf8_decode_utf8;

    let x = a.as_bytes();
    let y = b.as_bytes();
    proof {
        assert(utf8::decode_utf8(utf8::encode_utf8(a@)) == a@);
        assert(utf8::decode_utf8(utf8::encode_utf8(b@)) == b@);
    }
    if x.len() != y.len() {
        return false;
    }
    let mut i: usize = 0;
    while i < x.len()
        invariant
            i <= x.len(),
            x@.len() == y@.len(),
            x@ == utf8::encode_utf8(a@),
            y@ == utf8::encode_utf8(b@),
            forall|k: int| 0 <= k < i ==> x@[k] == y@[k],
        decreases x.len() - i,
    {
        if x[i] != y[i] {
            return false;
        }
        i = i + 1;
    }
    assert(x@ =~= y@);
    true
}

/// The characters of `s`.
pub fn chars_of(s: &str) -> (v: Vec<char>)
    ensures
        v@ == s@,
{
    let mut v: Vec<char> = Vec::new();
    for c in it: s.chars()
        invariant
            v@ == s@.take(it.index() as int),
            it.seq() == s@,
    {
        v.push(c);
        assert(v@ =~= s@.take(it.index() + 1));
    }
    assert(s@.take(s@.len() as int) =~= s@);
    v
}

/// The string of the characters `v[from..to]`.
pub fn text_of_range(v: &Vec<char>, from: usize, to: usize) -> (s: String)
    requires
        from <= to <= v.len(),
    ensures
        s@ == v@.subrange(from as int, to as int),
{
    let mut s = String::new();
    let mut i: usize = from;
    while i < to
        invariant
            from <= i <= to <= v.len(),
            s@ == v@.subrange(from as int, i as int),
        decreases to - i,
    {
        s.push(v[i]);
        assert(s@ =~= v@.subrange(from as int, i + 1));
        i = i + 1;
    }
    s
}

// ---------------------------------------------------------------------------
// ASCII case
// ---------------------------------------------------------------------------

/// `s` with every ASCII letter in lower case.
pub open spec fn fold(s: Seq<char>) -> Seq<char> {
    s.map_values(|c: char| lower(c))
}

/// `s` with every ASCII letter in upper case.
pub open spec fn upper_all(s: Seq<char>) -> Seq<char> {
    s.map_values(|c: char| upper(c))
}

/// Whether two strings are equal up to the case of ASCII letters.
pub fn same_ignoring_case(a: &str, b: &str) -> (r: bool)
    ensures
        r == (fold(a@) == fold(b@)),
{
    let x = chars_of(a);
    let y = chars_of(b);
    same_chars_ignoring_case(&x, &y)
}

/// Whether two character vectors are equal up to the case of ASCII letters.
pub fn same_chars_ignoring_case(x: &Vec<char>, y: &Vec<char>) -> (r: bool)
    ensures
        r == (fold(x@) == fold(y@)),
{
    if x.len() != y.len() {
        assert(fold(x@).len() != fold(y@).len());
        return false;
    }
    let mut i: usize = 0;
    while i < x.len()
        invariant
            i <= x.len(),
            x@.len() == y@.len(),
            forall|k: int| 0 <= k < i ==> lower(x@[k]) == lower(y@[k]),
        decreases x.len() - i,
    {
        if to_lower(x[i]) != to_lower(y[i]) {
            assert(fold(x@)[i as int] != fold(y@)[i as int]);
            return false;
        }
        i = i + 1;
    }
    assert(fold(x@) =~= fold(y@));
    true
}

/// `s` with every ASCII letter in upper case.
pub fn to_upper_all(s: &str) -> (r: String)
    ensures
        r@ == upper_all(s@),
{
    let v = chars_of(s);
    let mut r = String::new();
    let mut i: usize = 0;
    while i < v.len()
        invariant
            i <= v.len(),
            r@ == upper_all(v@.take(i as int)),
        decreases v.len() - i,
    {
        r.push(to_upper(v[i]));
        i = i + 1;
        assert(r@ =~= upper_all(v@.take(i as int)));
    }
    assert(v@.take(v@.len() as int) =~= v@);
    r
}

// ---------------------------------------------------------------------------
// Searching
// ---------------------------------------------------------------------------

/// The least position at or after `from` that holds `c`, or the length of
/// `s` where there is none.
pub open spec fn seek(s: Seq<char>, c: char, from: int) -> int
    decreases s.len() - from,
{
    if from >= s.len() || from < 0 {
        s.len() as int
    } else if s[from] == c {
        from
    } else {
        seek(s, c, from + 1)
    }
}

/// What `seek` finds: the first position that holds `c`.
pub proof fn lemma_seek(s: Seq<char>, c: char, from: int)
    requires
        0 <= from <= s.len(),
    ensures
        from <= seek(s, c, from) <= s.len(),
        seek(s, c, from) < s.len() ==> s[seek(s, c, from)] == c,
        forall|k: int| from <= k < seek(s, c, from) ==> s[k] != c,
    decreases s.len() - from,
{
    if from < s.len() && s[from] != c {
        lemma_seek(s, c, from + 1);
    }
}

/// The first position at or after `from` that holds `c` is the only one
/// that satisfies the description.
pub proof fn lemma_seek_unique(s: Seq<char>, c: char, from: int, at: int)
    requires
        0 <= from <= at <= s.len(),
        forall|k: int| from <= k < at ==> s[k] != c,
        at < s.len() ==> s[at] == c,
    ensures
        seek(s, c, from) == at,
{
    lemma_seek(s, c, from);
    let p = seek(s, c, from);
    if p < at {
        assert(s[p] != c);
    }
    if at < p {
        assert(s[at] != c);
    }
}

/// Find `c` in `v` at or after `from`; the length of `v` where it is absent.
pub fn find_char(v: &Vec<char>, c: char, from: usize) -> (at: usize)
    requires
        from <= v.len(),
    ensures
        at == seek(v@, c, from as int),
        from <= at <= v.len(),
{
    let mut i: usize = from;
    while i < v.len()
        invariant
            from <= i <= v.len(),
            seek(v@, c, from as int) == seek(v@, c, i as int),
        decreases v.len() - i,
    {
        if v[i] == c {
            return i;
        }
        i = i + 1;
    }
    i
}

/// The greatest position that holds `c`, or -1 where there is none.
pub open spec fn seek_last(s: Seq<char>, c: char) -> int
    decreases s.len(),
{
    if s.len() == 0 {
        -1
    } else if s.last() == c {
        s.len() - 1
    } else {
        seek_last(s.drop_last(), c)
    }
}

/// What `seek_last` finds is the only position that satisfies the
/// description.
pub proof fn lemma_seek_last_unique(s: Seq<char>, c: char, at: int)
    requires
        -1 <= at < s.len(),
        forall|k: int| at < k < s.len() ==> s[k] != c,
        at >= 0 ==> s[at] == c,
    ensures
        seek_last(s, c) == at,
    decreases s.len(),
{
    if s.len() > 0 && at < s.len() - 1 {
        assert(s[s.len() - 1] != c);
        lemma_seek_last_unique(s.drop_last(), c, at);
    }
}

/// Find the last `c` among the first `to` characters of `v`.
pub fn find_last_char(v: &Vec<char>, c: char, to: usize) -> (at: Option<usize>)
    requires
        to <= v.len(),
    ensures
        match at {
            Some(i) => i < to && i == seek_last(v@.take(to as int), c),
            None => seek_last(v@.take(to as int), c) == -1,
        },
{
    let mut i: usize = to;
    while i > 0
        invariant
            i <= to <= v@.len(),
            seek_last(v@.take(to as int), c) == seek_last(v@.take(i as int), c),
        decreases i,
    {
        i = i - 1;
        if v[i] == c {
            return Some(i);
        }
        assert(v@.take(i + 1).drop_last() =~= v@.take(i as int));
    }
    None
}

/// Whether `s` holds `c`.
pub fn has_char(s: &str, c: char) -> (r: bool)
    ensures
        r == s@.contains(c),
{
    let v = chars_of(s);
    let at = find_char(&v, c, 0);
    proof {
        lemma_seek(v@, c, 0);
        if at < v@.len() {
            assert(v@[at as int] == c);
        } else {
            assert(forall|k: int| 0 <= k < v@.len() ==> v@[k] != c);
        }
    }
    at < v.len()
}

/// Whether `v` holds `pattern` at position `at`.
pub open spec fn matches_at(s: Seq<char>, pattern: Seq<char>, at: int) -> bool {
    0 <= at && at + pattern.len() <= s.len() && s.subrange(at, at + pattern.len()) == pattern
}

/// Whether `v` holds the characters of `pattern` from position `at` on.
pub fn holds_at(v: &Vec<char>, pattern: &str, at: usize) -> (r: bool)
    requires
        at <= v.len(),
    ensures
        r == matches_at(v@, pattern@, at as int),
{
    let p = chars_of(pattern);
    if p.len() > v.len() - at {
        return false;
    }
    let mut i: usize = 0;
    while i < p.len()
        invariant
            i <= p.len(),
            p@ == pattern@,
            at + p.len() <= v.len(),
            forall|k: int| 0 <= k < i ==> v@[at + k] == p@[k],
        decreases p.len() - i,
    {
        if v[at + i] != p[i] {
            assert(v@.subrange(at as int, at + p@.len())[i as int] != p@[i as int]);
            return false;
        }
        i = i + 1;
    }
    assert(v@.subrange(at as int, at + p@.len()) =~= p@);
    true
}

/// Whether `s` begins with `prefix`.
pub open spec fn begins_with(s: Seq<char>, prefix: Seq<char>) -> bool {
    prefix.len() <= s.len() && s.take(prefix.len() as int) == prefix
}

/// Whether `s` begins with `prefix`.
pub fn starts_with(s: &str, prefix: &str) -> (r: bool)
    ensures
        r == begins_with(s@, prefix@),
{
    let v = chars_of(s);
    let r = holds_at(&v, prefix, 0);
    proof {
        if prefix@.len() <= s@.len() {
            assert(v@.subrange(0, prefix@.len() as int) =~= s@.take(prefix@.len() as int));
        }
    }
    r
}

// ---------------------------------------------------------------------------
// White space
// ---------------------------------------------------------------------------

/// `s` without its leading white space.
pub open spec fn trimmed_start(s: Seq<char>) -> Seq<char>
    decreases s.len(),
{
    if s.len() > 0 && white_space(s[0]) {
        trimmed_start(s.drop_first())
    } else {
        s
    }
}

/// `s` without its trailing white space.
pub open spec fn trimmed_end(s: Seq<char>) -> Seq<char>
    decreases s.len(),
{
    if s.len() > 0 && white_space(s.last()) {
        trimmed_end(s.drop_last())
    } else {
        s
    }
}

/// `s` without leading and trailing white space.
pub open spec fn trimmed(s: Seq<char>) -> Seq<char> {
    trimmed_end(trimmed_start(s))
}

/// Drop trailing white space from `v[from..]`: the end of what is left.
fn end_of_trimmed(v: &Vec<char>, from: usize) -> (to: usize)
    requires
        from <= v.len(),
    ensures
        from <= to <= v.len(),
        v@.subrange(from as int, to as int) == trimmed_end(
            v@.subrange(from as int, v@.len() as int),
        ),
{
    let mut to: usize = v.len();
    while to > from && is_white_space(v[to - 1])
        invariant
            from <= to <= v.len(),
            trimmed_end(v@.subrange(from as int, to as int)) == trimmed_end(
                v@.subrange(from as int, v@.len() as int),
            ),
        decreases to,
    {
        proof {
            let cur = v@.subrange(from as int, to as int);
            assert(cur.last() == v@[to - 1]);
            assert(cur.drop_last() =~= v@.subrange(from as int, to - 1));
        }
        to = to - 1;
    }
    proof {
        let cur = v@.subrange(from as int, to as int);
        if to > from {
            assert(cur.last() == v@[to - 1]);
        }
    }
    to
}

/// The range of `v[from..]` without leading and trailing white space.
pub fn trimmed_range(v: &Vec<char>, from: usize) -> (r: (usize, usize))
    requires
        from <= v.len(),
    ensures
        from <= r.0 <= r.1 <= v.len(),
        v@.subrange(r.0 as int, r.1 as int) == trimmed(v@.skip(from as int)),
{
    let mut start: usize = from;
    while start < v.len() && is_white_space(v[start])
        invariant
            from <= start <= v.len(),
            trimmed_start(v@.skip(start as int)) == trimmed_start(v@.skip(from as int)),
        decreases v.len() - start,
    {
        assert(v@.skip(start as int)[0] == v@[start as int]);
        assert(v@.skip(start as int).drop_first() =~= v@.skip(start + 1));
        start = start + 1;
    }
    proof {
        if start < v@.len() {
            assert(v@.skip(start as int)[0] == v@[start as int]);
        }
        assert(v@.subrange(start as int, v@.len() as int) =~= v@.skip(start as int));
    }
    let end = end_of_trimmed(v, start);
    (start, end)
}

/// `s` without trailing white space.
pub fn trim_end(s: &str) -> (r: String)
    ensures
        r@ == trimmed_end(s@),
{
    let v = chars_of(s);
    let to = end_of_trimmed(&v, 0);
    assert(v@.subrange(0, v@.len() as int) =~= v@);
    text_of_range(&v, 0, to)
}

/// The length of the longest prefix of `s` that holds no white space.
pub open spec fn word_len(s: Seq<char>) -> int
    decreases s.len(),
{
    if s.len() == 0 || white_space(s[0]) {
        0
    } else {
        1 + word_len(s.drop_first())
    }
}

proof fn lemma_word_len(s: Seq<char>)
    ensures
        0 <= word_len(s) <= s.len(),
    decreases s.len(),
{
    if s.len() > 0 && !white_space(s[0]) {
        lemma_word_len(s.drop_first());
    }
}

/// The maximal runs of `s` without white space, from left to right.
pub open spec fn words(s: Seq<char>) -> Seq<Seq<char>>
    decreases s.len(),
{
    if s.len() == 0 {
        Seq::empty()
    } else if white_space(s[0]) {
        words(s.drop_first())
    } else {
        let n = word_len(s);
        if 0 < n <= s.len() {
            seq![s.take(n)] + words(s.skip(n))
        } else {
            Seq::empty()
        }
    }
}

/// The strings of `v`, each as its characters.
pub open spec fn views(v: Seq<String>) -> Seq<Seq<char>> {
    v.map_values(|s: String| s@)
}

/// The words of `s`, from left to right.
pub fn split_words(s: &str) -> (r: Vec<String>)
    ensures
        views(r@) == words(s@),
{
    let v = chars_of(s);
    let mut r: Vec<String> = Vec::new();
    let mut i: usize = 0;
    assert(v@.skip(0) =~= v@);
    assert(views(r@) =~= Seq::<Seq<char>>::empty());
    while i < v.len()
        invariant
            i <= v.len(),
            v@ == s@,
            views(r@) + words(v@.skip(i as int)) == words(s@),
        decreases v.len() - i,
    {
        let ghost rest = v@.skip(i as int);
        assert(rest[0] == v@[i as int]);
        if is_white_space(v[i]) {
            assert(rest.drop_first() =~= v@.skip(i + 1));
            i = i + 1;
        } else {
            let mut j: usize = i;
            while j < v.len() && !is_white_space(v[j])
                invariant
                    i <= j <= v.len(),
                    rest == v@.skip(i as int),
                    word_len(rest) == j - i + word_len(v@.skip(j as int)),
                decreases v.len() - j,
            {
                assert(v@.skip(j as int)[0] == v@[j as int]);
                assert(v@.skip(j as int).drop_first() =~= v@.skip(j + 1));
                j = j + 1;
            }
            proof {
                if j < v@.len() {
                    assert(v@.skip(j as int)[0] == v@[j as int]);
                }
                assert(word_len(rest) == j - i);
                assert(j > i) by {
                    lemma_word_len(rest.drop_first());
                }
            }
            let word = text_of_range(&v, i, j);
            let ghost before = r@;
            r.push(word);
            proof {
                assert(word@ =~= rest.take(j - i));
                assert(rest.skip(j - i) =~= v@.skip(j as int));
                assert(views(r@) =~= views(before).push(word@));
                assert(views(before) + (seq![rest.take(j - i)] + words(v@.skip(j as int)))
                    =~= views(r@) + words(v@.skip(j as int)));
            }
            i = j;
        }
    }
    proof {
        assert(v@.skip(i as int) =~= Seq::<char>::empty());
        assert(views(r@) + Seq::<Seq<char>>::empty() =~= views(r@));
    }
    r
}

// ---------------------------------------------------------------------------
// Numbers
// ---------------------------------------------------------------------------

/// The decimal digits of `n`, without leading zeros.
pub open spec fn decimal(n: nat) -> Seq<char>
    decreases n,
{
    let digit = ((48 + n % 10) as u32) as char;
    if n < 10 {
        seq![digit]
    } else {
        decimal(n / 10).push(digit)
    }
}

/// The decimal digits of `n`, without leading zeros.
pub fn decimal_text(n: u64) -> (s: String)
    ensures
        s@ == decimal(n as nat),
    decreases n,
{
    let digit: u8 = 48 + (n % 10) as u8;
    let c: char = digit as char;
    let mut s = if n < 10 {
        String::new()
    } else {
        decimal_text(n / 10)
    };
    s.push(c);
    assert(n < 10 ==> s@ =~= seq![c]);
    s
}

/// The strings of `v`, copied.
pub fn copy_all(v: &Vec<String>) -> (r: Vec<String>)
    ensures
        r@ == v@,
{
    let mut r: Vec<String> = Vec::new();
    let mut i: usize = 0;
    while i < v.len()
        invariant
            i <= v.len(),
            r@ == v@.take(i as int),
        decreases v.len() - i,
    {
        r.push(v[i].clone());
        i = i + 1;
        assert(r@ =~= v@.take(i as int));
    }
    assert(v@.take(v@.len() as int) =~= v@);
    r
}

/// An optional string as its characters.
pub open spec fn opt(o: Option<String>) -> Option<Seq<char>> {
    match o {
        Some(s) => Some(s@),
        None => None,
    }
}

/// An optional string, copied.
pub fn copy_opt(o: &Option<String>) -> (r: Option<String>)
    ensures
        r == *o,
{
    match o {
        Some(s) => Some(s.clone()),
        None => None,
    }
}

/// The views of a list of strings that may be absent.
pub open spec fn opt_views(o: Option<Vec<String>>) -> Option<Seq<Seq<char>>> {
    match o {
        Some(v) => Some(views(v@)),
        None => None,
    }
}

/// Whether one of the strings of `v` reads `s`.
pub open spec fn listed(v: Seq<String>, s: Seq<char>) -> bool {
    exists|i: int| 0 <= i < v.len() && #[trigger] v[i]@ == s
}

/// A string is listed exactly where the views contain it.
pub proof fn lemma_listed(v: Seq<String>, s: Seq<char>)
    ensures
        views(v).contains(s) == listed(v, s),
{
    if listed(v, s) {
        let i = choose|i: int| 0 <= i < v.len() && #[trigger] v[i]@ == s;
        assert(views(v)[i] == s);
    }
    if views(v).contains(s) {
        let i = choose|i: int| 0 <= i < views(v).len() && views(v)[i] == s;
        assert(v[i]@ == s);
    }
}

/// Whether one of the strings of `v` reads `s`.
pub fn contains(v: &Vec<String>, s: &str) -> (r: bool)
    ensures
        r == listed(v@, s@),
{
    let mut i: usize = 0;
    while i < v.len()
        invariant
            i <= v.len(),
            forall|k: int| 0 <= k < i ==> #[trigger] v@[k]@ != s@,
        decreases v.len() - i,
    {
        if same(v[i].as_str(), s) {
            return true;
        }
        i = i + 1;
    }
    false
}

// ---------------------------------------------------------------------------
// Byte lengths
// ---------------------------------------------------------------------------

/// The number of bytes of `s` in UTF-8.
pub open spec fn byte_len(s: Seq<char>) -> nat {
    utf8::encode_utf8(s).len()
}

/// The longest prefix of `s` that takes at most `cap` bytes in UTF-8.
pub open spec fn fitting(s: Seq<char>, cap: nat) -> Seq<char>
    decreases s.len(),
{
    if s.len() == 0 || byte_len(s) <= cap {
        s
    } else {
        fitting(s.drop_last(), cap)
    }
}

/// One more character adds the bytes of its own encoding.
pub proof fn lemma_byte_len_push(s: Seq<char>, c: char)
    ensures
        byte_len(s.push(c)) == byte_len(s) + utf8::encode_scalar(c as u32).len(),
    decreases s.len(),
{
    if s.len() == 0 {
        assert(s.push(c).drop_first() =~= s);
    } else {
        assert(s.push(c).drop_first() =~= s.drop_first().push(c));
        assert(s.push(c)[0] == s[0]);
        lemma_byte_len_push(s.drop_first(), c);
    }
}

/// A longer prefix takes at least as many bytes.
pub proof fn lemma_byte_len_grows(s: Seq<char>, i: int, j: int)
    requires
        0 <= i <= j <= s.len(),
    ensures
        byte_len(s.take(i)) <= byte_len(s.take(j)),
    decreases j - i,
{
    if i < j {
        lemma_byte_len_grows(s, i, j - 1);
        assert(s.take(j) =~= s.take(j - 1).push(s[j - 1]));
        lemma_byte_len_push(s.take(j - 1), s[j - 1]);
    }
}

/// The longest fitting prefix is the one that fits and cannot be extended.
pub proof fn lemma_fitting(s: Seq<char>, cap: nat, n: int)
    requires
        0 <= n <= s.len(),
        byte_len(s.take(n)) <= cap,
        n < s.len() ==> byte_len(s.take(n + 1)) > cap,
    ensures
        fitting(s, cap) == s.take(n),
    decreases s.len(),
{
    assert(s.take(s.len() as int) =~= s);
    if n < s.len() {
        lemma_byte_len_grows(s, n + 1, s.len() as int);
        let t = s.drop_last();
        assert(t.take(n) =~= s.take(n));
        if n < t.len() {
            assert(t.take(n + 1) =~= s.take(n + 1));
        }
        lemma_fitting(t, cap, n);
    }
}

/// The number of bytes of `c` in UTF-8.
pub fn width(c: char) -> (n: usize)
    ensures
        n == utf8::encode_scalar(c as u32).len(),
        1 <= n <= 4,
{
    let v: u32 = c as u32;
    if v <= 0x7F {
        1
    } else if v <= 0x7FF {
        2
    } else if v <= 0xFFFF {
        3
    } else {
        4
    }
}

/// The longest prefix of `s` that takes at most `cap` bytes in UTF-8.
pub fn prefix_within(s: &str, cap: usize) -> (r: String)
    ensures
        r@ == fitting(s@, cap as nat),
{
    let v = chars_of(s);
    let mut n: usize = 0;
    let mut used: usize = 0;
    assert(v@.take(0) =~= Seq::empty());
    while n < v.len() && width(v[n]) <= cap - used
        invariant
            n <= v.len(),
            used <= cap,
            used == byte_len(v@.take(n as int)),
        decreases v.len() - n,
    {
        proof {
            assert(v@.take(n + 1) =~= v@.take(n as int).push(v@[n as int]));
            lemma_byte_len_push(v@.take(n as int), v@[n as int]);
        }
        used = used + width(v[n]);
        n = n + 1;
    }
    proof {
        if n < v@.len() {
            assert(v@.take(n + 1) =~= v@.take(n as int).push(v@[n as int]));
            lemma_byte_len_push(v@.take(n as int), v@[n as int]);
        }
        lemma_fitting(v@, cap as nat, n as int);
    }
    let r = text_of_range(&v, 0, n);
    assert(r@ =~= v@.take(n as int));
    r
}

/// A fitting prefix is a prefix that fits.
pub proof fn lemma_fitting_fits(s: Seq<char>, cap: nat)
    ensures
        byte_len(fitting(s, cap)) <= cap,
        exists|n: int| 0 <= n <= s.len() && fitting(s, cap) == #[trigger] s.take(n),
    decreases s.len(),
{
    if s.len() == 0 || byte_len(s) <= cap {
        assert(s.take(s.len() as int) =~= s);
    } else {
        lemma_fitting_fits(s.drop_last(), cap);
        let n = choose|n: int|
            0 <= n <= s.drop_last().len() && fitting(s.drop_last(), cap)
                == #[trigger] s.drop_last().take(n);
        assert(s.drop_last().take(n) =~= s.take(n));
    }
}

// ---------------------------------------------------------------------------
// Laws
// ---------------------------------------------------------------------------

/// Changing the case moves ASCII letters by 32 code points and leaves every
/// other character alone, so that a change of case can be changed again.
pub proof fn only_letters_change_case(c: char)
    ensures
        65 <= c as u32 <= 90 ==> lower(c) as u32 == c as u32 + 32,
        97 <= c as u32 <= 122 ==> upper(c) as u32 == c as u32 - 32,
        !(65 <= c as u32 <= 90) ==> lower(c) == c,
        !(97 <= c as u32 <= 122) ==> upper(c) == c,
        lower(upper(c)) == lower(c),
        upper(lower(c)) == upper(c),
{
}

/// Two texts are the same up to case exactly where they are as long and any
/// two characters at the same place are the same letter or the same
/// character.
pub proof fn case_is_all_that_folding_forgets(a: Seq<char>, b: Seq<char>)
    ensures
        fold(a) == fold(b) <==> upper_all(a) == upper_all(b),
        fold(a) == fold(b) <==> {
            &&& a.len() == b.len()
            &&& forall|i: int|
                #![trigger a[i], b[i]]
                0 <= i < a.len() ==> a[i] == b[i] || (65 <= a[i] as u32 <= 90 && b[i] as u32
                    == a[i] as u32 + 32) || (65 <= b[i] as u32 <= 90 && a[i] as u32 == b[i] as u32
                    + 32)
        },
        fold(a).len() == a.len(),
        upper_all(a).len() == a.len(),
{
    if fold(a) == fold(b) {
        assert(a.len() == fold(a).len() == fold(b).len() == b.len());
        assert forall|i: int| #![trigger a[i], b[i]] 0 <= i < a.len() implies a[i] == b[i] || (65
            <= a[i] as u32 <= 90 && b[i] as u32 == a[i] as u32 + 32) || (65 <= b[i] as u32 <= 90
            && a[i] as u32 == b[i] as u32 + 32) by {
            assert(fold(a)[i] == fold(b)[i]);
        }
        assert forall|i: int| 0 <= i < a.len() implies upper_all(a)[i] == upper_all(b)[i] by {
            assert(fold(a)[i] == fold(b)[i]);
        }
        assert(upper_all(a) =~= upper_all(b));
    }
    if upper_all(a) == upper_all(b) {
        assert(a.len() == upper_all(a).len() == upper_all(b).len() == b.len());
        assert forall|i: int| 0 <= i < a.len() implies fold(a)[i] == fold(b)[i] by {
            assert(upper_all(a)[i] == upper_all(b)[i]);
        }
        assert(fold(a) =~= fold(b));
    }
    if a.len() == b.len() && forall|i: int|
        #![trigger a[i], b[i]]
        0 <= i < a.len() ==> a[i] == b[i] || (65 <= a[i] as u32 <= 90 && b[i] as u32 == a[i] as u32
            + 32) || (65 <= b[i] as u32 <= 90 && a[i] as u32 == b[i] as u32 + 32) {
        assert forall|i: int| 0 <= i < a.len() implies fold(a)[i] == fold(b)[i] by {
            let (x, y) = (a[i], b[i]);
        }
        assert(fold(a) =~= fold(b));
    }
}

/// Among the ASCII characters white space is the blank and the five
/// characters from the tab to the carriage return; nothing that prints ink
/// below the general punctuation is white space, and nothing above the
/// ideographic blank is.
pub proof fn white_space_has_no_ink(c: char)
    ensures
        (c as u32) < 0x80 ==> (white_space(c) <==> c as u32 == 0x20 || 0x09 <= c as u32 <= 0x0d),
        0x80 <= (c as u32) < 0x1680 ==> (white_space(c) <==> c as u32 == 0x85 || c as u32 == 0xa0),
        c as u32 > 0x3000 ==> !white_space(c),
        ascii_alphanumeric(c) ==> !white_space(c) && !control(c),
        (c as u32) < 0x80 ==> (control(c) <==> (c as u32) < 0x20 || c as u32 == 0x7f),
        (c as u32) >= 0xa0 ==> !control(c),
{
}

/// A text between white space comes out of trimming as it is, and only white
/// space is lost.
pub proof fn trimming_loses_white_space_only(front: Seq<char>, body: Seq<char>, back: Seq<char>)
    requires
        forall|i: int| 0 <= i < front.len() ==> white_space(#[trigger] front[i]),
        forall|i: int| 0 <= i < back.len() ==> white_space(#[trigger] back[i]),
        body.len() > 0 ==> !white_space(body[0]) && !white_space(body.last()),
    ensures
        trimmed_end(body + back) == body,
        trimmed_end(front + body + back) == if body.len() > 0 {
            front + body
        } else {
            body
        },
        trimmed(front + body + back) == body,
{
    lemma_trimmed_end(body, back);
    if body.len() > 0 {
        assert((front + body).last() == body.last());
        lemma_trimmed_end(front + body, back);
        assert(front + body + back =~= front + (body + back));
        assert((body + back)[0] == body[0]);
        lemma_trimmed_start(front, body + back);
    } else {
        let all = front + body + back;
        assert(body =~= Seq::empty());
        assert(all =~= Seq::<char>::empty() + all);
        assert forall|i: int| 0 <= i < all.len() implies white_space(#[trigger] all[i]) by {
            if i < front.len() {
                assert(all[i] == front[i]);
            } else {
                assert(all[i] == back[i - front.len()]);
            }
        }
        lemma_trimmed_end(body, all);
        lemma_trimmed_start(all, body);
        assert(all + body =~= all);
    }
}

pub proof fn lemma_trimmed_end(body: Seq<char>, back: Seq<char>)
    requires
        forall|i: int| 0 <= i < back.len() ==> white_space(#[trigger] back[i]),
        body.len() > 0 ==> !white_space(body.last()),
    ensures
        trimmed_end(body + back) == body,
    decreases back.len(),
{
    if back.len() == 0 {
        assert(body + back =~= body);
    } else {
        assert((body + back).last() == back[back.len() - 1]);
        assert((body + back).drop_last() =~= body + back.drop_last());
        lemma_trimmed_end(body, back.drop_last());
    }
}

pub proof fn lemma_trimmed_start(front: Seq<char>, body: Seq<char>)
    requires
        forall|i: int| 0 <= i < front.len() ==> white_space(#[trigger] front[i]),
        body.len() > 0 ==> !white_space(body[0]),
    ensures
        trimmed_start(front + body) == body,
    decreases front.len(),
{
    if front.len() == 0 {
        assert(front + body =~= body);
    } else {
        assert((front + body)[0] == front[0]);
        assert((front + body).drop_first() =~= front.drop_first() + body);
        lemma_trimmed_start(front.drop_first(), body);
    }
}

/// A run of characters without white space that white space ends is the first
/// word, and leading white space does not count.
pub proof fn words_are_what_stands_between_white_space(
    word: Seq<char>,
    space: char,
    rest: Seq<char>,
)
    requires
        word.len() > 0,
        forall|i: int| 0 <= i < word.len() ==> !white_space(#[trigger] word[i]),
        white_space(space),
    ensures
        words(word) == seq![word],
        words(word + seq![space] + rest) == seq![word] + words(rest),
        words(seq![space] + rest) == words(rest),
        words(Seq::empty()) == Seq::<Seq<char>>::empty(),
{
    let lead = seq![space] + rest;
    assert(lead[0] == space);
    assert(lead.drop_first() =~= rest);
    lemma_first_word(word, Seq::empty());
    assert(word + Seq::<char>::empty() =~= word);
    assert(words(word) =~= seq![word]);
    lemma_first_word(word, lead);
    assert(word + seq![space] + rest =~= word + lead);
}

proof fn lemma_first_word(word: Seq<char>, rest: Seq<char>)
    requires
        word.len() > 0,
        forall|i: int| 0 <= i < word.len() ==> !white_space(#[trigger] word[i]),
        rest.len() > 0 ==> white_space(rest[0]),
    ensures
        words(word + rest) == seq![word] + words(rest),
{
    let all = word + rest;
    lemma_word_len_is(word, rest);
    assert(all[0] == word[0]);
    assert(all.take(word.len() as int) =~= word);
    assert(all.skip(word.len() as int) =~= rest);
}

proof fn lemma_word_len_is(word: Seq<char>, rest: Seq<char>)
    requires
        forall|i: int| 0 <= i < word.len() ==> !white_space(#[trigger] word[i]),
        rest.len() > 0 ==> white_space(rest[0]),
    ensures
        word_len(word + rest) == word.len(),
    decreases word.len(),
{
    if word.len() == 0 {
        assert(word + rest =~= rest);
    } else {
        assert((word + rest)[0] == word[0]);
        assert((word + rest).drop_first() =~= word.drop_first() + rest);
        lemma_word_len_is(word.drop_first(), rest);
    }
}

/// The number that a text of decimal digits stands for.
pub open spec fn number_of(s: Seq<char>) -> int
    decreases s.len(),
{
    if s.len() == 0 {
        0
    } else {
        10 * number_of(s.drop_last()) + (s.last() as u32 - 48)
    }
}

/// The decimal form of a number is made of digits, reads as the number, and
/// has no leading zero.
pub proof fn decimal_forms_read_back(n: nat)
    ensures
        number_of(decimal(n)) == n,
        decimal(n).len() > 0,
        forall|i: int| 0 <= i < decimal(n).len() ==> 48 <= (#[trigger] decimal(n)[i]) as u32 <= 57,
        n > 0 ==> decimal(n)[0] as u32 != 48,
        n == 0 ==> decimal(n).len() == 1,
    decreases n,
{
    reveal_with_fuel(number_of, 2);
    let s = decimal(n);
    assert(s.last() as u32 == 48 + n % 10);
    if n >= 10 {
        decimal_forms_read_back(n / 10);
        assert(s.drop_last() =~= decimal(n / 10));
        assert(s[0] == decimal(n / 10)[0]);
        assert forall|i: int| 0 <= i < s.len() implies 48 <= (#[trigger] s[i]) as u32 <= 57 by {
            if i < s.len() - 1 {
                assert(s[i] == decimal(n / 10)[i]);
            }
        }
    } else {
        assert(s.drop_last() =~= Seq::empty());
    }
}

/// A text begins with another exactly where it is that text and more, and
/// holds it at a position exactly where that many characters stand before it.
pub proof fn patterns_are_found_where_they_stand(front: Seq<char>, p: Seq<char>, back: Seq<char>)
    ensures
        begins_with(p + back, p),
        forall|s: Seq<char>| #[trigger] begins_with(s, p) ==> s == p + s.skip(p.len() as int),
        matches_at(front + p + back, p, front.len() as int),
        forall|s: Seq<char>, at: int| #[trigger]
            matches_at(s, p, at) ==> 0 <= at && s == s.take(at) + p + s.skip(at + p.len()),
{
    assert((p + back).take(p.len() as int) =~= p);
    assert forall|s: Seq<char>| #[trigger] begins_with(s, p) implies s == p + s.skip(
        p.len() as int,
    ) by {
        assert(s =~= s.take(p.len() as int) + s.skip(p.len() as int));
    }
    let all = front + p + back;
    assert(all.subrange(front.len() as int, (front.len() + p.len()) as int) =~= p);
    assert forall|s: Seq<char>, at: int| #[trigger] matches_at(s, p, at) implies 0 <= at && s
        == s.take(at) + p + s.skip(at + p.len()) by {
        assert(s =~= s.take(at) + s.subrange(at, at + p.len()) + s.skip(at + p.len()));
    }
}

/// Whether a text holds another one somewhere.
pub open spec fn mentions(s: Seq<char>, part: Seq<char>) -> bool {
    exists|front: Seq<char>, back: Seq<char>| s == #[trigger] (front + part + back)
}

/// A text mentions what it is put together from.
pub proof fn lemma_mentions(front: Seq<char>, part: Seq<char>, back: Seq<char>)
    ensures
        mentions(front + part + back, part),
        mentions(front + part, part),
        mentions(part + back, part),
        mentions(part, part),
{
    let none = Seq::<char>::empty();
    assert(front + part =~= front + part + none);
    assert(part + back =~= none + part + back);
    assert(part =~= none + part + none);
}

/// A prefix that is longer than the longest fitting one does not fit.
pub proof fn lemma_longest(s: Seq<char>, cap: nat, n: int)
    requires
        fitting(s, cap).len() < n <= s.len(),
    ensures
        byte_len(s.take(n)) > cap,
    decreases s.len(),
{
    if n == s.len() {
        assert(s.take(n) =~= s);
    } else {
        let t = s.drop_last();
        assert(t.take(n) =~= s.take(n));
        lemma_longest(t, cap, n);
    }
}

/// Letters and digits are those of ASCII, and changing the case of one gives
/// another.
pub proof fn letters_and_digits_are_those_of_ascii(c: char)
    ensures
        ascii_alphanumeric(c) <==> {
            let v = c as u32;
            48 <= v < 58 || 65 <= v < 91 || 97 <= v < 123
        },
        ascii_alphanumeric(c) ==> ascii_alphanumeric(lower(c)) && ascii_alphanumeric(upper(c)),
{
}

/// Strings are read one by one, each as its characters, and one that is absent
/// stays absent.
pub proof fn strings_are_read_as_their_characters(
    v: Seq<String>,
    i: int,
    s: String,
    list: Vec<String>,
    wanted: Seq<char>,
)
    ensures
        views(v).len() == v.len(),
        0 <= i < v.len() ==> views(v)[i] == v[i]@,
        opt(Some(s)) == Some(s@),
        opt(None) is None,
        opt_views(Some(list)) == Some(views(list@)),
        opt_views(None) is None,
        listed(v, wanted) <==> views(v).contains(wanted),
        byte_len(wanted) == utf8::encode_utf8(wanted).len(),
{
    lemma_listed(v, wanted);
}

} // verus!

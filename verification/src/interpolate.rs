//! POSIX-shell-style variable interpolation for configuration values.
//!
//! - `${VAR}` expands to the value of the named variable.
//! - `${VAR:-fallback}` expands to the value, or to `fallback` when the
//!   variable is absent or empty.
//! - `$$` is the escape for a literal `$`.
//!
//! Interpolation is single-pass: what an expansion produced is not scanned
//! again.

use std::borrow::Cow;

use vstd::prelude::*;

use crate::names;
use crate::names::NameMap;
use crate::text;

verus! {

/// Errors from interpolation.
#[derive(Debug)]
pub enum InterpolationError {
    /// A referenced variable has no value and no default was given.
    Missing(String),
    /// The template syntax is invalid.
    Malformed(String),
}

/// An interpolation error as a mathematical value.
pub enum Fault {
    Missing(Seq<char>),
    Malformed(Seq<char>),
}

impl View for InterpolationError {
    type V = Fault;

    open spec fn view(&self) -> Fault {
        match self {
            InterpolationError::Missing(name) => Fault::Missing(name@),
            InterpolationError::Malformed(reason) => Fault::Malformed(reason@),
        }
    }
}

/// The message of an interpolation error.
pub open spec fn fault_message(f: Fault) -> Seq<char> {
    match f {
        Fault::Missing(name) => "variable `"@ + name + "` is not set and no default was provided"@,
        Fault::Malformed(reason) => "malformed interpolation: "@ + reason,
    }
}

impl InterpolationError {
    /// The message shown to operators.
    pub fn message(&self) -> (m: String)
        ensures
            m@ == fault_message(self@),
    {
        match self {
            InterpolationError::Missing(name) => {
                let mut m = String::from_str("variable `");
                m.append(name.as_str());
                m.append("` is not set and no default was provided");
                m
            },
            InterpolationError::Malformed(reason) => {
                let mut m = String::from_str("malformed interpolation: ");
                m.append(reason.as_str());
                m
            },
        }
    }
}

/// A parsed `${...}` expression: the variable, its default, and the number
/// of characters between the opening brace and the end of the expression.
pub struct Brace {
    pub variable: Seq<char>,
    pub default: Option<Seq<char>>,
    pub width: int,
}

/// The least position at or after `from` that holds `:-`, or the length of
/// `s` where there is none.
pub open spec fn seek_default(s: Seq<char>, from: int) -> int
    decreases s.len() - from,
{
    if from < 0 || from + 1 >= s.len() {
        s.len() as int
    } else if s[from] == ':' && s[from + 1] == '-' {
        from
    } else {
        seek_default(s, from + 1)
    }
}

/// The expression that `s`, the text after `${`, begins with.
///
/// The variable runs up to the first `}` or the first `:-`, whichever comes
/// first; a default runs from behind `:-` up to the next `}`.
pub open spec fn brace(s: Seq<char>) -> Result<Brace, Fault> {
    let close = text::seek(s, '}', 0);
    let colon = seek_default(s, 0);
    let parsed = if colon < close {
        let end = text::seek(s, '}', colon + 2);
        if end < s.len() {
            Ok(
                Brace {
                    variable: s.take(colon),
                    default: Some(s.subrange(colon + 2, end)),
                    width: end + 1,
                },
            )
        } else {
            Err(
                Fault::Malformed(
                    "unterminated default value in `${VAR:-default}` expression"@,
                ),
            )
        }
    } else if close < s.len() {
        Ok(Brace { variable: s.take(close), default: None, width: close + 1 })
    } else {
        Err(Fault::Malformed("unterminated `${...}` expression"@))
    };
    match parsed {
        Ok(b) => if b.variable.len() == 0 {
            Err(Fault::Malformed("empty variable name in `${...}` expression"@))
        } else {
            Ok(b)
        },
        Err(e) => Err(e),
    }
}

/// The value of a variable; an empty value counts as absent.
pub open spec fn lookup(variables: Seq<(Seq<char>, String)>, name: Seq<char>) -> Option<Seq<char>> {
    match names::find(variables, name) {
        Some(value) => if value@.len() > 0 {
            Some(value@)
        } else {
            None
        },
        None => None,
    }
}

/// What a parsed expression expands to.
pub open spec fn brace_value(b: Brace, variables: Seq<(Seq<char>, String)>) -> Result<
    Seq<char>,
    Fault,
> {
    match (lookup(variables, b.variable), b.default) {
        (Some(value), _) => Ok(value),
        (None, Some(fallback)) => Ok(fallback),
        (None, None) => Err(Fault::Missing(b.variable)),
    }
}

/// `head` in front of an expansion that succeeded.
pub open spec fn prepend(head: Seq<char>, tail: Result<Seq<char>, Fault>) -> Result<
    Seq<char>,
    Fault,
> {
    match tail {
        Ok(t) => Ok(head + t),
        Err(e) => Err(e),
    }
}

/// What the template `t` expands to.
pub open spec fn expanded(t: Seq<char>, variables: Seq<(Seq<char>, String)>) -> Result<
    Seq<char>,
    Fault,
>
    decreases t.len(),
{
    if t.len() == 0 {
        Ok(Seq::empty())
    } else if t[0] != '$' {
        prepend(seq![t[0]], expanded(t.skip(1), variables))
    } else if t.len() >= 2 && t[1] == '$' {
        prepend(seq!['$'], expanded(t.skip(2), variables))
    } else if t.len() >= 2 && t[1] == '{' {
        match brace(t.skip(2)) {
            Ok(b) => match brace_value(b, variables) {
                Ok(value) => if 0 <= b.width <= t.len() - 2 {
                    prepend(value, expanded(t.skip(2 + b.width), variables))
                } else {
                    Ok(Seq::empty())
                },
                Err(e) => Err(e),
            },
            Err(e) => Err(e),
        }
    } else {
        Err(Fault::Malformed("`$` must be followed by `$` or `{`; a bare `$` is reserved"@))
    }
}

proof fn lemma_seek_default(s: Seq<char>, from: int)
    requires
        0 <= from <= s.len(),
    ensures
        from <= seek_default(s, from) <= s.len(),
        seek_default(s, from) < s.len() ==> seek_default(s, from) + 1 < s.len() && s[seek_default(
            s,
            from,
        )] == ':' && s[seek_default(s, from) + 1] == '-',
        forall|k: int|
            from <= k < seek_default(s, from) && k + 1 < s.len() ==> !(#[trigger] s[k] == ':' && s[k
                + 1] == '-'),
    decreases s.len() - from,
{
    if from + 1 < s.len() && !(s[from] == ':' && s[from + 1] == '-') {
        lemma_seek_default(s, from + 1);
    }
}

/// A parsed expression ends within the text that it was read from.
pub proof fn lemma_brace_width(s: Seq<char>)
    ensures
        brace(s) matches Ok(b) ==> 0 < b.width <= s.len(),
{
    text::lemma_seek(s, '}', 0);
    lemma_seek_default(s, 0);
    let colon = seek_default(s, 0);
    if colon < s.len() {
        text::lemma_seek(s, '}', colon + 2);
    }
}

/// Read characters from position `from` up to the closing `}` and return
/// them with the position of the brace.
fn read_default(v: &Vec<char>, from: usize) -> (r: Result<(String, usize), InterpolationError>)
    requires
        from <= v.len(),
    ensures
        text::seek(v@, '}', from as int) == v@.len() ==> (r matches Err(e) && e@
            == Fault::Malformed("unterminated default value in `${VAR:-default}` expression"@)),
        text::seek(v@, '}', from as int) < v@.len() ==> (r matches Ok(p) && p.1 == text::seek(
            v@,
            '}',
            from as int,
        ) && from <= p.1 && p.0@ == v@.subrange(from as int, p.1 as int)),
{
    let end = text::find_char(v, '}', from);
    if end < v.len() {
        Ok((text::text_of_range(v, from, end), end))
    } else {
        Err(
            InterpolationError::Malformed(
                String::from_str("unterminated default value in `${VAR:-default}` expression"),
            ),
        )
    }
}

/// Expand the expression whose text begins at position `at`, behind `${`,
/// append the expansion to `output`, and return the position behind it.
fn expand_brace(
    v: &Vec<char>,
    at: usize,
    output: &mut String,
    variables: &NameMap<String>,
) -> (r: Result<usize, InterpolationError>)
    requires
        at <= v.len(),
    ensures
        match brace(v@.skip(at as int)) {
            Ok(b) => match brace_value(b, variables@) {
                Ok(value) => r matches Ok(next) && next == at + b.width && next <= v.len()
                    && final(output)@ == old(output)@ + value,
                Err(e) => (r matches Err(error) && error@ == e) && final(output)@ == old(
                    output,
                )@,
            },
            Err(e) => (r matches Err(error) && error@ == e) && final(output)@ == old(output)@,
        },
{
    let ghost s = v@.skip(at as int);
    let mut i: usize = at;
    let mut end: Option<usize> = None;
    let mut default: Option<String> = None;
    proof {
        text::lemma_seek(s, '}', 0);
        lemma_seek_default(s, 0);
    }
    while i < v.len() && end.is_none()
        invariant
            at <= i <= v.len(),
            s == v@.skip(at as int),
            end is None ==> default is None,
            end is None ==> forall|k: int| 0 <= k < i - at ==> s[k] != '}',
            end is None ==> forall|k: int|
                0 <= k < i - at && k + 1 < s.len() ==> !(#[trigger] s[k] == ':' && s[k + 1] == '-'),
            end matches Some(e) ==> {
                &&& i - at < s.len()
                &&& i - at <= e - at < s.len()
                &&& match default {
                    None => e == i && text::seek(s, '}', 0) == i - at && seek_default(s, 0) > i
                        - at,
                    Some(d) => seek_default(s, 0) == i - at && text::seek(s, '}', 0) > i - at
                        && e - at == text::seek(s, '}', i - at + 2) && d@ == s.subrange(
                        i - at + 2,
                        e - at,
                    ) && i - at + 2 <= e - at,
                }
            },
        decreases v.len() - i, (if end is None { 1int } else { 0int }),
    {
        proof {
            text::lemma_seek(s, '}', 0);
            lemma_seek_default(s, 0);
            assert(s[i - at] == v@[i as int]);
        }
        if v[i] == '}' {
            proof {
                text::lemma_seek_unique(s, '}', 0, i - at);
            }
            end = Some(i);
        } else if v[i] == ':' && i + 1 < v.len() && v[i + 1] == '-' {
            proof {
                assert(s[i - at + 1] == v@[i + 1]);
                assert(text::seek(s, '}', 0) > i - at);
                assert(seek_default(s, 0) == i - at);
                text::lemma_seek(v@, '}', i + 2);
                let e = text::seek(v@, '}', i + 2);
                assert forall|k: int| i - at + 2 <= k < e - at implies s[k] != '}' by {
                    assert(s[k] == v@[k + at]);
                }
                if e < v@.len() {
                    assert(s[e - at] == v@[e]);
                }
                text::lemma_seek_unique(s, '}', i - at + 2, e - at);
            }
            match read_default(v, i + 2) {
                Ok((d, e)) => {
                    assert(d@ =~= s.subrange(i - at + 2, e - at));
                    default = Some(d);
                    end = Some(e);
                },
                Err(e) => {
                    return Err(e);
                },
            }
        } else {
            i = i + 1;
        }
    }
    let end = match end {
        Some(e) => e,
        None => {
            proof {
                text::lemma_seek_unique(s, '}', 0, s.len() as int);
            }
            return Err(
                InterpolationError::Malformed(
                    String::from_str("unterminated `${...}` expression"),
                ),
            );
        },
    };
    let variable = text::text_of_range(v, at, i);
    assert(variable@ =~= s.take(i - at));
    if variable.as_str().is_empty() {
        return Err(
            InterpolationError::Malformed(
                String::from_str("empty variable name in `${...}` expression"),
            ),
        );
    }
    match variables.get(variable.as_str()) {
        Some(value) if !value.as_str().is_empty() => {
            output.append(value.as_str());
        },
        _ => match default {
            Some(fallback) => {
                output.append(fallback.as_str());
            },
            None => {
                return Err(InterpolationError::Missing(variable));
            },
        },
    }
    Ok(end + 1)
}

/// Interpolate the references in `template` with the values of `variables`.
///
/// A template without `$` is returned as it was borrowed.
pub fn interpolate<'input>(template: &'input str, variables: &NameMap<String>) -> (r: Result<
    Cow<'input, str>,
    InterpolationError,
>)
    ensures
        match expanded(template@, variables@) {
            Ok(value) => r matches Ok(text) && text@ == value,
            Err(e) => r matches Err(error) && error@ == e,
        },
        !template@.contains('$') ==> r == Ok::<Cow<str>, InterpolationError>(
            Cow::Borrowed(template),
        ),
        template@.contains('$') ==> (r matches Ok(text) ==> text is Owned),
{
    if !text::has_char(template, '$') {
        proof {
            lemma_plain_text_expands_to_itself(template@, variables@);
        }
        return Ok(Cow::Borrowed(template));
    }
    let v = text::chars_of(template);
    let mut output = String::new();
    let mut i: usize = 0;
    assert(v@.skip(0) =~= v@);
    proof {
        lemma_prepend_empty(expanded(v@, variables@));
    }
    while i < v.len()
        invariant
            i <= v.len(),
            v@ == template@,
            template@.contains('$'),
            prepend(output@, expanded(v@.skip(i as int), variables@)) == expanded(
                template@,
                variables@,
            ),
        decreases v.len() - i,
    {
        let ghost rest = v@.skip(i as int);
        let ghost so_far = output@;
        assert(rest[0] == v@[i as int]);
        if v[i] != '$' {
            output.push(v[i]);
            proof {
                assert(rest.skip(1) =~= v@.skip(i + 1));
                lemma_prepend_assoc(so_far, seq![rest[0]], expanded(rest.skip(1), variables@));
                assert(output@ =~= so_far + seq![rest[0]]);
            }
            i = i + 1;
        } else if i + 1 < v.len() && v[i + 1] == '$' {
            output.push('$');
            proof {
                assert(rest[1] == v@[i + 1]);
                assert(rest.skip(2) =~= v@.skip(i + 2));
                lemma_prepend_assoc(so_far, seq!['$'], expanded(rest.skip(2), variables@));
                assert(output@ =~= so_far + seq!['$']);
            }
            i = i + 2;
        } else if i + 1 < v.len() && v[i + 1] == '{' {
            proof {
                assert(rest[1] == v@[i + 1]);
                assert(rest.skip(2) =~= v@.skip(i + 2));
                lemma_brace_width(rest.skip(2));
            }
            match expand_brace(&v, i + 2, &mut output, variables) {
                Ok(next) => {
                    proof {
                        let b = brace(rest.skip(2))->Ok_0;
                        let value = brace_value(b, variables@)->Ok_0;
                        assert(rest.skip(2 + b.width) =~= v@.skip(next as int));
                        lemma_prepend_assoc(
                            so_far,
                            value,
                            expanded(rest.skip(2 + b.width), variables@),
                        );
                    }
                    i = next;
                },
                Err(e) => {
                    return Err(e);
                },
            }
        } else {
            proof {
                if rest.len() >= 2 {
                    assert(rest[1] == v@[i + 1]);
                }
            }
            return Err(
                InterpolationError::Malformed(
                    String::from_str("`$` must be followed by `$` or `{`; a bare `$` is reserved"),
                ),
            );
        }
    }
    assert(v@.skip(i as int) =~= Seq::<char>::empty());
    assert(output@ + Seq::<char>::empty() =~= output@);
    Ok(Cow::Owned(output))
}

proof fn lemma_prepend_empty(r: Result<Seq<char>, Fault>)
    ensures
        prepend(Seq::empty(), r) == r,
{
    if let Ok(t) = r {
        assert(Seq::<char>::empty() + t =~= t);
    }
}

proof fn lemma_prepend_assoc(a: Seq<char>, b: Seq<char>, r: Result<Seq<char>, Fault>)
    ensures
        prepend(a, prepend(b, r)) == prepend(a + b, r),
{
    if let Ok(t) = r {
        assert(a + (b + t) =~= (a + b) + t);
    }
}

/// A template without `$` expands to itself, whatever the variables are.
pub proof fn lemma_plain_text_expands_to_itself(t: Seq<char>, variables: Seq<(Seq<char>, String)>)
    requires
        !t.contains('$'),
    ensures
        expanded(t, variables) == Ok::<Seq<char>, Fault>(t),
    decreases t.len(),
{
    if t.len() > 0 {
        assert(t.contains(t[0]));
        assert forall|c: char| t.skip(1).contains(c) implies t.contains(c) by {
            let k = choose|k: int| 0 <= k < t.skip(1).len() && t.skip(1)[k] == c;
            assert(t[k + 1] == c);
        }
        lemma_plain_text_expands_to_itself(t.skip(1), variables);
        assert(seq![t[0]] + t.skip(1) =~= t);
    } else {
        assert(t =~= Seq::empty());
    }
}

// ---------------------------------------------------------------------------
// Laws
// ---------------------------------------------------------------------------

/// `t` with every `$` doubled.
pub open spec fn escaped(t: Seq<char>) -> Seq<char>
    decreases t.len(),
{
    if t.len() == 0 {
        Seq::empty()
    } else if t[0] == '$' {
        seq!['$', '$'] + escaped(t.skip(1))
    } else {
        seq![t[0]] + escaped(t.skip(1))
    }
}

/// Doubling every `$` of a text gives a template that expands to the text,
/// whatever the variables are.
pub proof fn escaping_protects_any_text(t: Seq<char>, variables: Seq<(Seq<char>, String)>)
    ensures
        expanded(escaped(t), variables) == Ok::<Seq<char>, Fault>(t),
    decreases t.len(),
{
    let e = escaped(t);
    if t.len() == 0 {
        assert(t =~= Seq::empty());
    } else {
        escaping_protects_any_text(t.skip(1), variables);
        assert(seq![t[0]] + t.skip(1) =~= t);
        if t[0] == '$' {
            assert(e[0] == '$' && e[1] == '$');
            assert(e.skip(2) =~= escaped(t.skip(1)));
        } else {
            assert(e[0] == t[0]);
            assert(e.skip(1) =~= escaped(t.skip(1)));
        }
    }
}

/// Whether `name` can stand between `${` and the end of an expression.
pub open spec fn plain_name(name: Seq<char>) -> bool {
    &&& name.len() > 0
    &&& !name.contains('}')
    &&& !name.contains(':')
}

/// `${name}`
pub open spec fn reference(name: Seq<char>) -> Seq<char> {
    seq!['$', '{'] + name + seq!['}']
}

/// `${name:-fallback}`
pub open spec fn reference_or(name: Seq<char>, fallback: Seq<char>) -> Seq<char> {
    seq!['$', '{'] + name + seq![':', '-'] + fallback + seq!['}']
}

/// Interpolation is single-pass: a reference in front of a template expands
/// to the variable's value as it stands, whatever the value holds, and then
/// to the expansion of the rest. A variable that is absent or empty fails
/// with its name.
pub proof fn reference_expands_once(
    name: Seq<char>,
    rest: Seq<char>,
    variables: Seq<(Seq<char>, String)>,
)
    requires
        plain_name(name),
    ensures
        expanded(reference(name) + rest, variables) == (match lookup(variables, name) {
            Some(value) => prepend(value, expanded(rest, variables)),
            None => Err(Fault::Missing(name)),
        }),
{
    let t = reference(name) + rest;
    let s = name + seq!['}'] + rest;
    let n = name.len() as int;
    assert(t.skip(2) =~= s);
    lemma_name_is_plain(name, seq!['}'] + rest);
    assert(s =~= name + (seq!['}'] + rest));
    assert(s[n] == '}');
    text::lemma_seek_unique(s, '}', 0, n);
    lemma_seek_default(s, 0);
    assert(seek_default(s, 0) >= n);
    assert(brace(s) == Ok::<Brace, Fault>(
        Brace { variable: name, default: None, width: n + 1 },
    )) by {
        assert(s.take(n) =~= name);
    }
    assert(t.skip(2 + (n + 1)) =~= rest);
}

/// A reference with a default expands to the variable's value where it has
/// one, and to the default otherwise.
pub proof fn reference_with_default_expands_once(
    name: Seq<char>,
    fallback: Seq<char>,
    rest: Seq<char>,
    variables: Seq<(Seq<char>, String)>,
)
    requires
        plain_name(name),
        !fallback.contains('}'),
    ensures
        expanded(reference_or(name, fallback) + rest, variables) == prepend(
            match lookup(variables, name) {
                Some(value) => value,
                None => fallback,
            },
            expanded(rest, variables),
        ),
{
    let t = reference_or(name, fallback) + rest;
    let tail = seq![':', '-'] + fallback + seq!['}'] + rest;
    let s = name + tail;
    let n = name.len() as int;
    let end = n + 2 + fallback.len();
    assert(t.skip(2) =~= s);
    lemma_name_is_plain(name, tail);
    assert(s[n] == ':' && s[n + 1] == '-');
    assert(s[end] == '}');
    assert forall|k: int| n <= k < end implies s[k] != '}' by {
        if k >= n + 2 {
            assert(s[k] == fallback[k - n - 2]);
            assert(fallback.contains(fallback[k - n - 2]));
        }
    }
    text::lemma_seek_unique(s, '}', 0, end);
    text::lemma_seek_unique(s, '}', n + 2, end);
    lemma_seek_default(s, 0);
    assert(seek_default(s, 0) == n);
    assert(brace(s) == Ok::<Brace, Fault>(
        Brace { variable: name, default: Some(fallback), width: end + 1 },
    )) by {
        assert(s.take(n) =~= name);
        assert(s.subrange(n + 2, end) =~= fallback);
    }
    assert(t.skip(2 + (end + 1)) =~= rest);
}

proof fn lemma_name_is_plain(name: Seq<char>, tail: Seq<char>)
    requires
        plain_name(name),
    ensures
        forall|k: int| 0 <= k < name.len() ==> #[trigger] (name + tail)[k] != '}' && (name
            + tail)[k] != ':',
{
    assert forall|k: int| 0 <= k < name.len() implies #[trigger] (name + tail)[k] != '}' && (name
        + tail)[k] != ':' by {
        assert((name + tail)[k] == name[k]);
        assert(name.contains(name[k]));
    }
}

/// A variable counts where it is set and not empty.
pub proof fn empty_variables_count_as_absent(
    variables: Seq<(Seq<char>, String)>,
    name: Seq<char>,
    value: String,
)
    ensures
        names::find(variables, name) is None ==> lookup(variables, name) is None,
        names::find(variables, name) == Some(value) && value@.len() == 0 ==> lookup(variables, name)
            is None,
        names::find(variables, name) == Some(value) && value@.len() > 0 ==> lookup(variables, name)
            == Some(value@),
{
}

/// Text before the first `$` is taken over as it is, and a doubled `$` stands
/// for one; what follows is expanded as if it stood alone.
pub proof fn text_outside_of_references_is_kept(
    plain: Seq<char>,
    rest: Seq<char>,
    variables: Seq<(Seq<char>, String)>,
)
    requires
        forall|i: int| 0 <= i < plain.len() ==> #[trigger] plain[i] != '$',
    ensures
        match expanded(rest, variables) {
            Ok(t) => expanded(plain + rest, variables) == Ok::<_, Fault>(plain + t) && expanded(
                seq!['$', '$'] + rest,
                variables,
            ) == Ok::<_, Fault>(seq!['$'] + t),
            Err(e) => expanded(plain + rest, variables) == Err::<Seq<char>, _>(e) && expanded(
                seq!['$', '$'] + rest,
                variables,
            ) == Err::<Seq<char>, _>(e),
        },
    decreases plain.len(),
{
    let doubled = seq!['$', '$'] + rest;
    assert(doubled[0] == '$' && doubled[1] == '$');
    assert(doubled.skip(2) =~= rest);
    if plain.len() == 0 {
        assert(plain + rest =~= rest);
        if let Ok(t) = expanded(rest, variables) {
            assert(plain + t =~= t);
        }
    } else {
        let all = plain + rest;
        assert(all[0] == plain[0]);
        assert(all.skip(1) =~= plain.skip(1) + rest);
        text_outside_of_references_is_kept(plain.skip(1), rest, variables);
        if let Ok(t) = expanded(rest, variables) {
            assert(seq![plain[0]] + (plain.skip(1) + t) =~= plain + t);
        }
    }
}

/// Whether a text can be the name of a variable in a reference: it is not
/// empty and holds neither `}` nor `:-`.
pub open spec fn can_be_named(name: Seq<char>) -> bool {
    &&& name.len() > 0
    &&& forall|i: int| 0 <= i < name.len() ==> #[trigger] name[i] != '}'
    &&& forall|i: int| 0 <= i < name.len() - 1 ==> !(#[trigger] name[i] == ':' && name[i + 1] == '-')
}

/// A reference stands for the value of its variable as it is, or for its
/// default where the variable is absent or empty; the value and the default
/// are not expanded themselves. Without a value and a default the reference
/// fails with the name, and what follows a reference is expanded on its own.
pub proof fn references_stand_for_the_value_of_their_variable(
    name: Seq<char>,
    fallback: Seq<char>,
    rest: Seq<char>,
    variables: Seq<(Seq<char>, String)>,
)
    requires
        can_be_named(name),
        forall|i: int| 0 <= i < fallback.len() ==> #[trigger] fallback[i] != '}',
    ensures
        ({
            let own = names::find(variables, name);
            let set = own is Some && own->Some_0@.len() > 0;
            let bare = expanded(seq!['$', '{'] + name + seq!['}'] + rest, variables);
            let covered = expanded(
                seq!['$', '{'] + name + seq![':', '-'] + fallback + seq!['}'] + rest,
                variables,
            );
            &&& !set ==> bare == Err::<Seq<char>, _>(Fault::Missing(name))
            &&& match expanded(rest, variables) {
                Ok(t) => {
                    &&& set ==> bare == Ok::<_, Fault>(own->Some_0@ + t)
                    &&& set ==> covered == Ok::<_, Fault>(own->Some_0@ + t)
                    &&& !set ==> covered == Ok::<_, Fault>(fallback + t)
                },
                Err(e) => {
                    &&& set ==> bare == Err::<Seq<char>, _>(e)
                    &&& covered == Err::<Seq<char>, _>(e)
                },
            }
        }),
{
    lemma_bare_reference(name, rest);
    lemma_covered_reference(name, fallback, rest);
    let bare = seq!['$', '{'] + name + seq!['}'] + rest;
    assert(bare.skip(2) =~= name + seq!['}'] + rest);
    assert(bare.skip((2 + (name.len() + 1)) as int) =~= rest);
    let covered = seq!['$', '{'] + name + seq![':', '-'] + fallback + seq!['}'] + rest;
    assert(covered.skip(2) =~= name + seq![':', '-'] + fallback + seq!['}'] + rest);
    assert(covered.skip((2 + (name.len() + fallback.len() + 3)) as int) =~= rest);
}

proof fn lemma_bare_reference(name: Seq<char>, rest: Seq<char>)
    requires
        can_be_named(name),
    ensures
        brace(name + seq!['}'] + rest) == Ok::<Brace, Fault>(
            Brace { variable: name, default: None, width: (name.len() + 1) as int },
        ),
{
    let s = name + seq!['}'] + rest;
    let n = name.len() as int;
    assert forall|k: int| 0 <= k < n implies #[trigger] s[k] == name[k] by {}
    assert(s[n] == '}');
    text::lemma_seek_unique(s, '}', 0, n);
    lemma_seek_default(s, 0);
    let d = seek_default(s, 0);
    if d < n {
        assert(s[d] == ':' && s[d + 1] == '-');
        assert(name[d] == ':');
    }
    assert(s.take(n) =~= name);
}

proof fn lemma_covered_reference(name: Seq<char>, fallback: Seq<char>, rest: Seq<char>)
    requires
        can_be_named(name),
        forall|i: int| 0 <= i < fallback.len() ==> #[trigger] fallback[i] != '}',
    ensures
        brace(name + seq![':', '-'] + fallback + seq!['}'] + rest) == Ok::<Brace, Fault>(
            Brace {
                variable: name,
                default: Some(fallback),
                width: (name.len() + fallback.len() + 3) as int,
            },
        ),
{
    let s = name + seq![':', '-'] + fallback + seq!['}'] + rest;
    let n = name.len() as int;
    let end = n + 2 + fallback.len();
    assert forall|k: int| 0 <= k < n implies #[trigger] s[k] == name[k] by {}
    assert(s[n] == ':' && s[n + 1] == '-' && s[end] == '}');
    assert forall|k: int| n <= k < end implies s[k] != '}' by {
        if k >= n + 2 {
            assert(s[k] == fallback[k - n - 2]);
        }
    }
    text::lemma_seek_unique(s, '}', 0, end);
    text::lemma_seek_unique(s, '}', n + 2, end);
    lemma_seek_default(s, 0);
    let d = seek_default(s, 0);
    if d < n {
        assert(s[d] == ':' && s[d + 1] == '-');
        assert(name[d] == ':');
        if d + 1 < n {
            assert(name[d + 1] == '-');
        }
    }
    if d > n {
        assert(!(s[n] == ':' && s[n + 1] == '-'));
    }
    assert(s.take(n) =~= name);
    assert(s.subrange(n + 2, end) =~= fallback);
}

/// A `$` that nothing or another character than `$` and `{` follows is
/// malformed, and so is a reference that does not end or has no name.
pub proof fn broken_references_are_malformed(
    c: char,
    rest: Seq<char>,
    open: Seq<char>,
    fallback: Seq<char>,
    variables: Seq<(Seq<char>, String)>,
)
    requires
        c != '$' && c != '{',
        forall|i: int| 0 <= i < open.len() ==> #[trigger] open[i] != '}',
        forall|i: int| 0 <= i < fallback.len() ==> #[trigger] fallback[i] != '}',
    ensures
        expanded(seq!['$'], variables) matches Err(Fault::Malformed(_)),
        expanded(seq!['$', c] + rest, variables) matches Err(Fault::Malformed(_)),
        expanded(seq!['$', '{'] + open, variables) matches Err(Fault::Malformed(_)),
        expanded(seq!['$', '{', '}'] + rest, variables) matches Err(Fault::Malformed(_)),
        expanded(seq!['$', '{', ':', '-'] + fallback + seq!['}'] + rest, variables) matches Err(
            Fault::Malformed(_),
        ),
{
    let t = seq!['$', c] + rest;
    assert(t[0] == '$' && t[1] == c);
    let t = seq!['$', '{'] + open;
    assert(t[0] == '$' && t[1] == '{');
    assert(t.skip(2) =~= open);
    text::lemma_seek_unique(open, '}', 0, open.len() as int);
    lemma_seek_default(open, 0);
    let d = seek_default(open, 0);
    if d < open.len() {
        text::lemma_seek_unique(open, '}', d + 2, open.len() as int);
    }
    let t = seq!['$', '{', '}'] + rest;
    let s = seq!['}'] + rest;
    assert(t[0] == '$' && t[1] == '{');
    assert(t.skip(2) =~= s);
    assert(s[0] == '}');
    text::lemma_seek_unique(s, '}', 0, 0);
    lemma_seek_default(s, 0);
    assert(s.take(0).len() == 0);
    let t = seq!['$', '{', ':', '-'] + fallback + seq!['}'] + rest;
    let s = seq![':', '-'] + fallback + seq!['}'] + rest;
    let end = 2 + fallback.len() as int;
    assert(t[0] == '$' && t[1] == '{');
    assert(t.skip(2) =~= s);
    assert(s[0] == ':' && s[1] == '-' && s[end] == '}');
    assert forall|k: int| 0 <= k < end implies s[k] != '}' by {
        if k >= 2 {
            assert(s[k] == fallback[k - 2]);
        }
    }
    text::lemma_seek_unique(s, '}', 0, end);
    text::lemma_seek_unique(s, '}', 2, end);
    assert(seek_default(s, 0) == 0);
    assert(s.take(0).len() == 0);
}

/// An interpolation error names the variable or says what is malformed.
pub proof fn interpolation_errors_hold_their_reason(what: Seq<char>)
    ensures
        text::mentions(fault_message(Fault::Missing(what)), what),
        text::mentions(fault_message(Fault::Malformed(what)), what),
{
    text::lemma_mentions("variable `"@, what, "` is not set and no default was provided"@);
    text::lemma_mentions("malformed interpolation: "@, what, Seq::empty());
}

/// A reference that does not end says whether it is the reference or its
/// default that does not.
pub proof fn unterminated_references_say_what_does_not_end(
    name: Seq<char>,
    fallback: Seq<char>,
    variables: Seq<(Seq<char>, String)>,
)
    requires
        can_be_named(name),
        forall|i: int| 0 <= i < fallback.len() ==> #[trigger] fallback[i] != '}',
    ensures
        expanded(seq!['$', '{'] + name, variables) == Err::<Seq<char>, _>(
            Fault::Malformed("unterminated `${...}` expression"@),
        ),
        expanded(seq!['$', '{'] + name + seq![':', '-'] + fallback, variables) == Err::<
            Seq<char>,
            _,
        >(Fault::Malformed("unterminated default value in `${VAR:-default}` expression"@)),
{
    let t = seq!['$', '{'] + name;
    assert(t[0] == '$' && t[1] == '{');
    assert(t.skip(2) =~= name);
    let n = name.len() as int;
    text::lemma_seek_unique(name, '}', 0, n);
    lemma_seek_default(name, 0);
    let d = seek_default(name, 0);
    if d < n {
        assert(name[d] == ':' && name[d + 1] == '-');
    }
    let t = seq!['$', '{'] + name + seq![':', '-'] + fallback;
    let s = name + seq![':', '-'] + fallback;
    assert(t[0] == '$' && t[1] == '{');
    assert(t.skip(2) =~= s);
    assert forall|k: int| 0 <= k < s.len() implies s[k] != '}' by {
        if k < n {
            assert(s[k] == name[k]);
        } else if k >= n + 2 {
            assert(s[k] == fallback[k - n - 2]);
        }
    }
    text::lemma_seek_unique(s, '}', 0, s.len() as int);
    text::lemma_seek_unique(s, '}', n + 2, s.len() as int);
    lemma_seek_default(s, 0);
    let d = seek_default(s, 0);
    assert(s[n] == ':' && s[n + 1] == '-');
    if d < n {
        assert(s[d] == name[d] && s[d + 1] == '-');
        if d + 1 < n {
            assert(s[d + 1] == name[d + 1]);
        }
    }
    if d > n {
        assert(!(s[n] == ':' && s[n + 1] == '-'));
    }
}

} // verus!

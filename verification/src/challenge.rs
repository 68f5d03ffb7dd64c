//! `WWW-Authenticate` challenges of the `Bearer` scheme.

use vstd::prelude::*;

use crate::text;

verus! {

/// A token error carried in a challenge.
#[derive(Debug, Clone, Copy, PartialEq, Eq, Structural)]
pub enum TokenError {
    /// The token failed validation.
    InvalidToken,
    /// The token is genuine but not admitted to the route.
    InsufficientScope,
}

/// The code of a token error.
pub open spec fn error_code(error: TokenError) -> Seq<char> {
    match error {
        TokenError::InvalidToken => "invalid_token"@,
        TokenError::InsufficientScope => "insufficient_scope"@,
    }
}

impl TokenError {
    /// The error code.
    pub fn code(self) -> (code: &'static str)
        ensures
            code@ == error_code(self),
    {
        match self {
            TokenError::InvalidToken => "invalid_token",
            TokenError::InsufficientScope => "insufficient_scope",
        }
    }
}

/// A `Bearer` challenge.
#[derive(Debug)]
pub struct BearerChallenge {
    realm: String,
    resource_metadata: String,
    error: Option<(TokenError, String)>,
}

/// A challenge as a mathematical value.
pub struct Challenge {
    pub realm: Seq<char>,
    pub resource_metadata: Seq<char>,
    pub error: Option<(TokenError, Seq<char>)>,
}

impl View for BearerChallenge {
    type V = Challenge;

    closed spec fn view(&self) -> Challenge {
        Challenge {
            realm: self.realm@,
            resource_metadata: self.resource_metadata@,
            error: match self.error {
                Some(e) => Some((e.0, e.1@)),
                None => None,
            },
        }
    }
}

/// One character inside a quoted string: a backslash or a double quote is
/// escaped by a backslash, a control character is dropped.
pub open spec fn quoted_char(c: char) -> Seq<char> {
    if c == '\\' {
        seq!['\\', '\\']
    } else if c == '"' {
        seq!['\\', '"']
    } else if text::control(c) {
        Seq::empty()
    } else {
        seq![c]
    }
}

/// The inside of a quoted string that stands for `s`.
pub open spec fn quoted(s: Seq<char>) -> Seq<char>
    decreases s.len(),
{
    if s.len() == 0 {
        Seq::empty()
    } else {
        quoted(s.drop_last()) + quoted_char(s.last())
    }
}

/// A challenge as the value of a `WWW-Authenticate` header.
pub open spec fn header_value(c: Challenge) -> Seq<char> {
    let error = match c.error {
        Some(e) => ", error=\""@ + error_code(e.0) + "\", error_description=\""@ + quoted(e.1)
            + "\""@,
        None => Seq::empty(),
    };
    "Bearer realm=\""@ + quoted(c.realm) + "\""@ + error + ", resource_metadata=\""@ + quoted(
        c.resource_metadata,
    ) + "\""@
}

impl BearerChallenge {
    /// Begin a challenge for the given realm, which points clients at the
    /// resource metadata.
    pub fn new(realm: &str, resource_metadata: &str) -> (challenge: Self)
        ensures
            challenge@ == (Challenge {
                realm: realm@,
                resource_metadata: resource_metadata@,
                error: None,
            }),
    {
        BearerChallenge {
            realm: realm.to_owned(),
            resource_metadata: resource_metadata.to_owned(),
            error: None,
        }
    }

    /// Attach a token error and its description.
    pub fn with_error(self, error: TokenError, description: &str) -> (challenge: Self)
        ensures
            challenge@ == (Challenge { error: Some((error, description@)), ..self@ }),
    {
        BearerChallenge {
            realm: self.realm,
            resource_metadata: self.resource_metadata,
            error: Some((error, description.to_owned())),
        }
    }

    /// The challenge as the value of a `WWW-Authenticate` header.
    pub fn into_header_value(self) -> (value: String)
        ensures
            value@ == header_value(self@),
    {
        let mut value = String::from_str("Bearer realm=\"");
        let realm = escape_quoted(self.realm.as_str());
        value.append(realm.as_str());
        value.append("\"");
        if let Some((error, description)) = &self.error {
            value.append(", error=\"");
            value.append(error.code());
            value.append("\", error_description=\"");
            let description = escape_quoted(description.as_str());
            value.append(description.as_str());
            value.append("\"");
        }
        value.append(", resource_metadata=\"");
        let metadata = escape_quoted(self.resource_metadata.as_str());
        value.append(metadata.as_str());
        value.append("\"");
        assert(value@ =~= header_value(self@));
        value
    }
}

/// The inside of a quoted string that stands for `value`.
pub fn escape_quoted(value: &str) -> (escaped: String)
    ensures
        escaped@ == quoted(value@),
{
    let v = text::chars_of(value);
    let mut escaped = String::new();
    let mut i: usize = 0;
    assert(v@.take(0) =~= Seq::empty());
    while i < v.len()
        invariant
            i <= v.len(),
            escaped@ == quoted(v@.take(i as int)),
        decreases v.len() - i,
    {
        let ghost before = escaped@;
        let c = v[i];
        if c == '\\' {
            escaped.push('\\');
            escaped.push('\\');
        } else if c == '"' {
            escaped.push('\\');
            escaped.push('"');
        } else if !text::is_control(c) {
            escaped.push(c);
        }
        i = i + 1;
        proof {
            assert(v@.take(i as int).drop_last() =~= v@.take(i - 1));
            assert(v@.take(i as int).last() == c);
            assert(escaped@ =~= before + quoted_char(c));
        }
    }
    assert(v@.take(v@.len() as int) =~= v@);
    escaped
}

// ---------------------------------------------------------------------------
// Laws
// ---------------------------------------------------------------------------

/// Reading a quoted string: whether `s` leaves the reader inside the string,
/// having met no closing quote. `pending` says that the last character was a
/// backslash that escapes the next one.
pub open spec fn stays_open(s: Seq<char>, pending: bool) -> bool
    decreases s.len(),
{
    if s.len() == 0 {
        !pending
    } else if pending {
        stays_open(s.skip(1), false)
    } else if s[0] == '\\' {
        stays_open(s.skip(1), true)
    } else if s[0] == '"' {
        false
    } else {
        stays_open(s.skip(1), false)
    }
}

/// What a reader of a quoted string takes its inside to mean.
pub open spec fn unquoted(s: Seq<char>) -> Seq<char>
    decreases s.len(),
{
    if s.len() == 0 {
        Seq::empty()
    } else if s[0] == '\\' && s.len() >= 2 {
        seq![s[1]] + unquoted(s.skip(2))
    } else {
        seq![s[0]] + unquoted(s.skip(1))
    }
}

/// `s` without its control characters.
pub open spec fn printable(s: Seq<char>) -> Seq<char> {
    s.filter(|c: char| !text::control(c))
}

proof fn lemma_open_concat(a: Seq<char>, b: Seq<char>, pending: bool)
    requires
        stays_open(a, pending),
        stays_open(b, false),
    ensures
        stays_open(a + b, pending),
    decreases a.len(),
{
    if a.len() == 0 {
        assert(a + b =~= b);
    } else {
        assert((a + b)[0] == a[0]);
        assert((a + b).skip(1) =~= a.skip(1) + b);
        if pending {
            lemma_open_concat(a.skip(1), b, false);
        } else if a[0] == '\\' {
            lemma_open_concat(a.skip(1), b, true);
        } else {
            lemma_open_concat(a.skip(1), b, false);
        }
    }
}

proof fn lemma_unquoted_concat(a: Seq<char>, b: Seq<char>)
    requires
        stays_open(a, false),
    ensures
        unquoted(a + b) == unquoted(a) + unquoted(b),
    decreases a.len(),
{
    if a.len() == 0 {
        assert(a + b =~= b);
        assert(unquoted(a) + unquoted(b) =~= unquoted(b));
    } else if a[0] == '\\' {
        reveal_with_fuel(stays_open, 3);
        assert(a.skip(1).len() > 0);
        assert(stays_open(a.skip(1).skip(1), false));
        assert(a.skip(1).skip(1) =~= a.skip(2));
        lemma_unquoted_concat(a.skip(2), b);
        assert((a + b)[0] == a[0] && (a + b)[1] == a[1]);
        assert((a + b).skip(2) =~= a.skip(2) + b);
        assert(unquoted(a + b) =~= unquoted(a) + unquoted(b));
    } else {
        lemma_unquoted_concat(a.skip(1), b);
        assert((a + b)[0] == a[0]);
        assert((a + b).skip(1) =~= a.skip(1) + b);
        assert(unquoted(a + b) =~= unquoted(a) + unquoted(b));
    }
}

/// A quoted value is well formed: it cannot end the quoted string early, it
/// carries no control character, and a reader takes it to mean the value
/// without its control characters.
pub proof fn quoted_values_are_well_formed(s: Seq<char>)
    ensures
        stays_open(quoted(s), false),
        forall|i: int| 0 <= i < quoted(s).len() ==> !text::control(#[trigger] quoted(s)[i]),
        unquoted(quoted(s)) == printable(s),
    decreases s.len(),
{
    reveal(Seq::filter);
    if s.len() > 0 {
        let c = s.last();
        let before = quoted(s.drop_last());
        quoted_values_are_well_formed(s.drop_last());
        let q = quoted_char(c);
        reveal_with_fuel(stays_open, 4);
        if c == '\\' || c == '"' {
            assert(q.skip(1).skip(1) =~= Seq::empty());
            assert(q.skip(1)[0] == c);
            assert(stays_open(q.skip(1), true));
            assert(q.skip(2) =~= Seq::empty());
            assert(unquoted(q.skip(2)) == Seq::<char>::empty());
            assert(unquoted(q) =~= seq![c]);
        } else if text::control(c) {
            assert(unquoted(q) =~= Seq::empty());
        } else {
            assert(q.skip(1) =~= Seq::empty());
            assert(unquoted(q.skip(1)) == Seq::<char>::empty());
            assert(unquoted(q) =~= seq![c]);
        }
        assert(stays_open(q, false));
        lemma_open_concat(before, q, false);
        lemma_unquoted_concat(before, q);
        assert(printable(s) =~= printable(s.drop_last()) + (if text::control(c) {
            Seq::empty()
        } else {
            seq![c]
        }));
    } else {
        assert(printable(s) =~= Seq::empty());
    }
}

/// Quoting goes character by character: what needs no escape stays as it is,
/// a backslash and a double quote get a backslash before them, and control
/// characters are lost.
pub proof fn quoting_escapes_what_it_must_and_nothing_else(a: Seq<char>, b: Seq<char>, c: char)
    ensures
        quoted(a + b) == quoted(a) + quoted(b),
        quoted(seq!['"']) == seq!['\\', '"'],
        quoted(seq!['\\']) == seq!['\\', '\\'],
        (c as u32) < 0x20 || 0x7f <= c as u32 <= 0x9f ==> quoted(seq![c]).len() == 0,
        0x20 <= (c as u32) < 0x7f && c != '"' && c != '\\' ==> quoted(seq![c]) == seq![c],
        c as u32 >= 0xa0 ==> quoted(seq![c]) == seq![c],
        quoted(Seq::empty()).len() == 0,
{
    lemma_quoted_concat(a, b);
    reveal_with_fuel(quoted, 2);
    assert forall|d: char| #[trigger] quoted(seq![d]) == quoted_char(d) by {
        assert(seq![d].drop_last() =~= Seq::empty());
        assert(quoted(seq![d]) =~= quoted_char(d));
    }
    assert(quoted(seq!['"']) == quoted_char('"'));
    assert(quoted(seq!['\\']) == quoted_char('\\'));
    assert(quoted(seq![c]) == quoted_char(c));
}

proof fn lemma_quoted_concat(a: Seq<char>, b: Seq<char>)
    ensures
        quoted(a + b) == quoted(a) + quoted(b),
    decreases b.len(),
{
    if b.len() == 0 {
        assert(a + b =~= a);
        assert(quoted(a) + quoted(b) =~= quoted(a));
    } else {
        assert((a + b).drop_last() =~= a + b.drop_last());
        assert((a + b).last() == b.last());
        lemma_quoted_concat(a, b.drop_last());
        assert(quoted(a + b) =~= quoted(a) + quoted(b));
    }
}

/// A challenge is of the scheme `Bearer` and gives the realm first and the
/// resource metadata last. An error stands between them, with its code and
/// its description; without an error there is nothing between them.
pub proof fn challenges_give_realm_error_and_metadata(
    realm: Seq<char>,
    metadata: Seq<char>,
    description: Seq<char>,
)
    ensures
        ({
            let lead = "Bearer realm=\""@ + quoted(realm) + "\""@;
            let end = ", resource_metadata=\""@ + quoted(metadata) + "\""@;
            let bare = Challenge { realm, resource_metadata: metadata, error: None };
            let invalid = Challenge {
                error: Some((TokenError::InvalidToken, description)),
                ..bare
            };
            let insufficient = Challenge {
                error: Some((TokenError::InsufficientScope, description)),
                ..bare
            };
            let described = ", error_description=\""@ + quoted(description) + "\""@;
            &&& header_value(bare) == lead + end
            &&& header_value(invalid) == lead + ", error=\"invalid_token\""@ + described + end
            &&& header_value(insufficient) == lead + ", error=\"insufficient_scope\""@ + described
                + end
        }),
{
    let lead = "Bearer realm=\""@ + quoted(realm) + "\""@;
    let end = ", resource_metadata=\""@ + quoted(metadata) + "\""@;
    let bare = Challenge { realm, resource_metadata: metadata, error: None };
    assert(header_value(bare) =~= lead + end);
    reveal_strlit(", error=\"");
    reveal_strlit(", error=\"invalid_token\"");
    reveal_strlit(", error=\"insufficient_scope\"");
    reveal_strlit("invalid_token");
    reveal_strlit("insufficient_scope");
    reveal_strlit("\", error_description=\"");
    reveal_strlit(", error_description=\"");
    let described = ", error_description=\""@ + quoted(description) + "\""@;
    assert(", error=\""@ + "invalid_token"@ + "\", error_description=\""@
        =~= ", error=\"invalid_token\""@ + ", error_description=\""@);
    assert(", error=\""@ + "insufficient_scope"@ + "\", error_description=\""@
        =~= ", error=\"insufficient_scope\""@ + ", error_description=\""@);
    let invalid = Challenge { error: Some((TokenError::InvalidToken, description)), ..bare };
    let e1 = ", error=\""@ + "invalid_token"@ + "\", error_description=\""@ + quoted(description)
        + "\""@;
    assert(e1 =~= ", error=\"invalid_token\""@ + described);
    assert(header_value(invalid) =~= lead + e1 + end);
    assert(header_value(invalid) =~= lead + ", error=\"invalid_token\""@ + described + end);
    let insufficient = Challenge {
        error: Some((TokenError::InsufficientScope, description)),
        ..bare
    };
    let e2 = ", error=\""@ + "insufficient_scope"@ + "\", error_description=\""@ + quoted(
        description,
    ) + "\""@;
    assert(e2 =~= ", error=\"insufficient_scope\""@ + described);
    assert(header_value(insufficient) =~= lead + e2 + end);
    assert(header_value(insufficient) =~= lead + ", error=\"insufficient_scope\""@ + described
        + end);
}

} // verus!

//! Which cross-origin requests browsers may make.

use vstd::prelude::*;

use crate::authentication::CorsConfig;
use crate::text;

verus! {

/// The methods that MCP uses.
pub const METHODS: [&'static str; 3] = ["GET", "POST", "OPTIONS"];

/// The response headers that browser clients have to read.
pub const EXPOSED_HEADERS: [&'static str; 3] = ["mcp-session-id", "traceparent", "tracestate"];

/// The request headers that every browser client needs: the bearer token,
/// the content type and the session. A configuration can add to them and
/// cannot take them away.
pub const REQUIRED_HEADERS: [&'static str; 3] = ["authorization", "content-type", "mcp-session-id"];

/// The texts of a fixed list.
pub open spec fn texts(list: Seq<&'static str>) -> Seq<Seq<char>> {
    list.map_values(|s: &'static str| s@)
}

/// Whether a character may stand in a header value.
pub open spec fn value_char(c: char) -> bool {
    c == '\t' || (c >= ' ' && c != '\u{7f}')
}

/// Whether a text is a header value.
pub open spec fn is_value(s: Seq<char>) -> bool {
    forall|i: int| 0 <= i < s.len() ==> value_char(#[trigger] s[i])
}

/// Whether a character may stand in a header name.
pub open spec fn name_char(c: char) -> bool {
    text::ascii_alphanumeric(c) || c == '!' || c == '#' || c == '$' || c == '%' || c == '&' || c
        == '\'' || c == '*' || c == '+' || c == '-' || c == '.' || c == '^' || c == '_' || c == '`'
        || c == '|' || c == '~'
}

/// Whether a text is a header name.
pub open spec fn is_name(s: Seq<char>) -> bool {
    &&& 0 < s.len() <= 65535
    &&& forall|i: int| 0 <= i < s.len() ==> name_char(#[trigger] s[i])
}

/// `HeaderValue::from_str` of the `http` crate, as `axum` hands it on: a
/// header value is any text without control characters other than the tab.
#[verifier::external_body]
fn header_value(s: &str) -> (valid: bool)
    ensures
        valid == is_value(s@),
{
    axum::http::HeaderValue::from_str(s).is_ok()
}

/// `HeaderName::from_bytes` of the `http` crate, as `axum` hands it on: a
/// header name is a token, and comes back in lower case.
#[verifier::external_body]
pub(crate) fn header_name(s: &str) -> (name: Option<String>)
    ensures
        match name {
            Some(n) => is_name(s@) && n@ == text::fold(s@),
            None => !is_name(s@),
        },
{
    axum::http::HeaderName::from_bytes(s.as_bytes()).ok().map(|name| name.as_str().to_owned())
}

/// Whether a character may stand in the scheme of a URL.
pub open spec fn scheme_char(c: char) -> bool {
    text::ascii_alphanumeric(c) || c == '+' || c == '-' || c == '.'
}

/// Whether a host can begin with a character.
pub open spec fn host_start(c: char) -> bool {
    c != '/' && c != '?' && c != '#' && c != ':' && c != '@' && c != '\\'
}

/// Whether a text is a URL with a scheme and a host, free of white space.
pub open spec fn is_origin(s: Seq<char>) -> bool {
    let colon = text::seek(s, ':', 0);
    &&& is_value(s)
    &&& forall|i: int| 0 <= i < s.len() ==> !text::white_space(#[trigger] s[i])
    &&& 0 < colon
    &&& forall|i: int| 0 <= i < colon ==> scheme_char(#[trigger] s[i])
    &&& text::matches_at(s, "://"@, colon)
    &&& colon + 3 < s.len()
    &&& host_start(s[colon + 3])
}

/// Whether a text can be listed as an origin.
pub fn origin(s: &str) -> (valid: bool)
    ensures
        valid == is_origin(s@),
{
    let v = text::chars_of(s);
    let colon = text::find_char(&v, ':', 0);
    proof {
        reveal_strlit("://");
        assert(v@ == s@);
    }
    if !header_value(s) || colon == 0 || !text::holds_at(&v, "://", colon) {
        return false;
    }
    if v.len() - colon == 3 {
        return false;
    }
    let first = v[colon + 3];
    if first == '/' || first == '?' || first == '#' || first == ':' || first == '@' || first
        == '\\' {
        return false;
    }
    let mut i: usize = 0;
    while i < v.len()
        invariant
            i <= v@.len(),
            v@ == s@,
            colon == text::seek(v@, ':', 0),
            forall|k: int| 0 <= k < i ==> !text::white_space(#[trigger] v@[k]),
            forall|k: int| 0 <= k < i && k < colon ==> scheme_char(#[trigger] v@[k]),
        decreases v.len() - i,
    {
        let c = v[i];
        if text::is_white_space(c) {
            assert(text::white_space(s@[i as int]));
            return false;
        }
        if i < colon && !(text::is_ascii_alphanumeric(c) || c == '+' || c == '-' || c == '.') {
            assert(!scheme_char(s@[i as int]));
            return false;
        }
        i = i + 1;
    }
    true
}

/// What browsers are told of cross-origin requests.
#[derive(Debug)]
pub struct CorsPolicy {
    /// The origins that may call the gateway.
    pub origins: Vec<String>,
    /// The methods that may be used.
    pub methods: Vec<String>,
    /// The response headers that may be read.
    pub exposed_headers: Vec<String>,
    /// The request headers that may be sent, in lower case.
    pub request_headers: Vec<String>,
    /// How long the answer to a preflight request holds, in seconds.
    pub max_age_seconds: u64,
}

/// The texts of a list that are header values.
pub open spec fn values_of(list: Seq<Seq<char>>) -> Seq<Seq<char>>
    decreases list.len(),
{
    if list.len() == 0 {
        Seq::empty()
    } else if is_value(list.last()) {
        values_of(list.drop_last()).push(list.last())
    } else {
        values_of(list.drop_last())
    }
}

/// The texts of a list that are header names, in lower case.
pub open spec fn names_of(list: Seq<Seq<char>>) -> Seq<Seq<char>>
    decreases list.len(),
{
    if list.len() == 0 {
        Seq::empty()
    } else if is_name(list.last()) {
        names_of(list.drop_last()).push(text::fold(list.last()))
    } else {
        names_of(list.drop_last())
    }
}

fn usable_origins(list: &Vec<String>) -> (origins: Vec<String>)
    ensures
        text::views(origins@) == values_of(text::views(list@)),
{
    let ghost all = text::views(list@);
    let mut origins: Vec<String> = Vec::new();
    let mut i: usize = 0;
    assert(all.take(0) =~= Seq::empty());
    assert(text::views(origins@) =~= Seq::empty());
    while i < list.len()
        invariant
            i <= list@.len(),
            all == text::views(list@),
            text::views(origins@) == values_of(all.take(i as int)),
        decreases list.len() - i,
    {
        let ghost before = text::views(origins@);
        if header_value(list[i].as_str()) {
            origins.push(list[i].clone());
            assert(text::views(origins@) =~= before.push(list@[i as int]@));
        }
        i = i + 1;
        proof {
            let prefix = all.take(i as int);
            assert(prefix.drop_last() =~= all.take(i - 1));
            assert(prefix.last() == list@[i - 1]@);
        }
    }
    assert(all.take(all.len() as int) =~= all);
    origins
}

fn usable_headers(list: &Vec<String>) -> (headers: Vec<String>)
    ensures
        text::views(headers@) == names_of(text::views(list@)),
{
    let ghost all = text::views(list@);
    let mut headers: Vec<String> = Vec::new();
    let mut i: usize = 0;
    assert(all.take(0) =~= Seq::empty());
    assert(text::views(headers@) =~= Seq::empty());
    while i < list.len()
        invariant
            i <= list@.len(),
            all == text::views(list@),
            text::views(headers@) == names_of(all.take(i as int)),
        decreases list.len() - i,
    {
        let ghost before = text::views(headers@);
        if let Some(name) = header_name(list[i].as_str()) {
            headers.push(name);
            assert(text::views(headers@) =~= before.push(name@));
        }
        i = i + 1;
        proof {
            let prefix = all.take(i as int);
            assert(prefix.drop_last() =~= all.take(i - 1));
            assert(prefix.last() == list@[i - 1]@);
        }
    }
    assert(all.take(all.len() as int) =~= all);
    headers
}

/// A list of names, with those of a second list that it lacks behind it.
pub open spec fn with_missing(list: Seq<Seq<char>>, needed: Seq<Seq<char>>) -> Seq<Seq<char>>
    decreases needed.len(),
{
    if needed.len() == 0 {
        list
    } else {
        let before = with_missing(list, needed.drop_last());
        if before.contains(needed.last()) {
            before
        } else {
            before.push(needed.last())
        }
    }
}

/// The request headers that a list of configured ones stands for.
pub open spec fn request_headers_of(list: Seq<Seq<char>>) -> Seq<Seq<char>> {
    with_missing(names_of(list), texts(REQUIRED_HEADERS@))
}

fn with_required(headers: Vec<String>) -> (all: Vec<String>)
    ensures
        text::views(all@) == with_missing(text::views(headers@), texts(REQUIRED_HEADERS@)),
{
    let ghost given = text::views(headers@);
    let ghost needed = texts(REQUIRED_HEADERS@);
    let mut all = headers;
    let mut i: usize = 0;
    assert(needed.take(0) =~= Seq::empty());
    while i < 3
        invariant
            i <= 3,
            needed == texts(REQUIRED_HEADERS@),
            text::views(all@) == with_missing(given, needed.take(i as int)),
        decreases 3 - i,
    {
        let name = REQUIRED_HEADERS[i];
        let ghost before = text::views(all@);
        proof {
            text::lemma_listed(all@, name@);
        }
        if !text::contains(&all, name) {
            all.push(name.to_owned());
            assert(text::views(all@) =~= before.push(name@));
        }
        i = i + 1;
        proof {
            let prefix = needed.take(i as int);
            assert(prefix.drop_last() =~= needed.take(i - 1));
            assert(prefix.last() == name@);
        }
    }
    assert(needed.take(3) =~= needed);
    all
}

fn owned(list: [&'static str; 3]) -> (all: Vec<String>)
    ensures
        text::views(all@) == texts(list@),
{
    let all = vec![list[0].to_owned(), list[1].to_owned(), list[2].to_owned()];
    assert(text::views(all@) =~= texts(list@));
    all
}

/// The policy of a configuration. Entries that cannot stand in a header are
/// left out; the request headers that every client needs are always there.
pub fn cors_layer(config: &CorsConfig) -> (policy: CorsPolicy)
    ensures
        text::views(policy.origins@) == values_of(text::views(config.allowed_origins@)),
        text::views(policy.methods@) == texts(METHODS@),
        text::views(policy.exposed_headers@) == texts(EXPOSED_HEADERS@),
        text::views(policy.request_headers@) == request_headers_of(
            text::views(config.allowed_headers@),
        ),
        policy.max_age_seconds == config.max_age_seconds,
{
    CorsPolicy {
        origins: usable_origins(&config.allowed_origins),
        methods: owned(METHODS),
        exposed_headers: owned(EXPOSED_HEADERS),
        request_headers: with_required(usable_headers(&config.allowed_headers)),
        max_age_seconds: config.max_age_seconds,
    }
}

proof fn lemma_values(list: Seq<Seq<char>>, origin: Seq<char>)
    requires
        values_of(list).contains(origin),
    ensures
        list.contains(origin) && is_value(origin),
    decreases list.len(),
{
    if list.len() > 0 {
        let i = choose|i: int| 0 <= i < values_of(list).len() && values_of(list)[i] == origin;
        let before = values_of(list.drop_last());
        if i < before.len() {
            assert(before[i] == origin);
            lemma_values(list.drop_last(), origin);
            let k = choose|k: int|
                0 <= k < list.drop_last().len() && list.drop_last()[k] == origin;
            assert(list[k] == origin);
        } else {
            assert(list[list.len() - 1] == origin);
        }
    }
}

/// Only origins that the operator lists are allowed; where none is listed, no
/// origin is.
pub proof fn only_listed_origins_are_allowed(list: Seq<Seq<char>>)
    ensures
        forall|origin: Seq<char>| #[trigger]
            values_of(list).contains(origin) ==> list.contains(origin) && is_value(origin),
        list.len() == 0 ==> values_of(list).len() == 0,
{
    assert forall|origin: Seq<char>| #[trigger]
        values_of(list).contains(origin) implies list.contains(origin) && is_value(origin) by {
        lemma_values(list, origin);
    }
}

proof fn lemma_with_missing(list: Seq<Seq<char>>, needed: Seq<Seq<char>>)
    ensures
        forall|name: Seq<char>| #[trigger]
            with_missing(list, needed).contains(name) <==> list.contains(name) || needed.contains(
                name,
            ),
    decreases needed.len(),
{
    if needed.len() > 0 {
        let first = needed.drop_last();
        let before = with_missing(list, first);
        lemma_with_missing(list, first);
        assert forall|name: Seq<char>| #[trigger]
            with_missing(list, needed).contains(name) <==> list.contains(name) || needed.contains(
                name,
            ) by {
            assert(needed =~= first.push(needed.last()));
            vstd::seq_lib::lemma_seq_contains_after_push(first, needed.last(), name);
            vstd::seq_lib::lemma_seq_contains_after_push(before, needed.last(), name);
            assert(before.contains(name) <==> list.contains(name) || first.contains(name));
        }
    }
}

/// Browsers may send the configured headers and the required ones, and no
/// others: a configuration cannot take a required header away.
pub proof fn required_headers_are_always_allowed(list: Seq<Seq<char>>)
    ensures
        forall|name: Seq<char>| #[trigger]
            request_headers_of(list).contains(name) <==> names_of(list).contains(name) || texts(
                REQUIRED_HEADERS@,
            ).contains(name),
{
    lemma_with_missing(names_of(list), texts(REQUIRED_HEADERS@));
}

// ---------------------------------------------------------------------------
// Laws
// ---------------------------------------------------------------------------

/// Header values are made of printable characters, blanks and tabs, and header
/// names of the characters of a token, of which there is at least one.
pub proof fn headers_are_made_of_their_characters(s: Seq<char>)
    ensures
        is_value(s) <==> forall|i: int|
            0 <= i < s.len() ==> {
                let c = #[trigger] s[i];
                c == '\t' || (' ' <= c && c != '\u{7f}')
            },
        is_name(s) <==> {
            &&& 0 < s.len() < 65536
            &&& forall|i: int|
                0 <= i < s.len() ==> {
                    let c = #[trigger] s[i];
                    ||| '0' <= c <= '9' || 'a' <= c <= 'z' || 'A' <= c <= 'Z'
                    ||| "!#$%&'*+-.^_`|~"@.contains(c)
                }
        },
{
    reveal_strlit("!#$%&'*+-.^_`|~");
    let marks = "!#$%&'*+-.^_`|~"@;
    assert(marks.len() == 15);
    assert(marks[0] == '!' && marks[1] == '#' && marks[2] == '$' && marks[3] == '%' && marks[4]
        == '&' && marks[5] == '\'' && marks[6] == '*' && marks[7] == '+' && marks[8] == '-'
        && marks[9] == '.' && marks[10] == '^' && marks[11] == '_' && marks[12] == '`' && marks[13]
        == '|' && marks[14] == '~');
    assert forall|c: char| #[trigger] name_char(c) <==> '0' <= c <= '9' || 'a' <= c <= 'z' || 'A'
        <= c <= 'Z' || marks.contains(c) by {
        if marks.contains(c) {
            let k = choose|k: int| 0 <= k < marks.len() && marks[k] == c;
            assert(k == 0 || k == 1 || k == 2 || k == 3 || k == 4 || k == 5 || k == 6 || k == 7 || k
                == 8 || k == 9 || k == 10 || k == 11 || k == 12 || k == 13 || k == 14);
        }
    }
    if is_name(s) {
        assert forall|i: int| 0 <= i < s.len() implies {
            let c = #[trigger] s[i];
            ||| '0' <= c <= '9' || 'a' <= c <= 'z' || 'A' <= c <= 'Z'
            ||| marks.contains(c)
        } by {
            assert(name_char(s[i]));
        }
    }
}

/// An origin is a scheme, `://` and a host, and whatever follows the host,
/// without white space and control characters; a text without a colon is no
/// origin.
pub proof fn origins_have_a_scheme_and_a_host(scheme: Seq<char>, rest: Seq<char>)
    requires
        forall|i: int|
            0 <= i < scheme.len() ==> {
                let c = #[trigger] scheme[i];
                '0' <= c <= '9' || 'a' <= c <= 'z' || 'A' <= c <= 'Z' || c == '+' || c == '-' || c
                    == '.'
            },
    ensures
        is_origin(scheme + "://"@ + rest) <==> {
            &&& scheme.len() > 0
            &&& rest.len() > 0
            &&& !"/?#:@\\"@.contains(rest[0])
            &&& forall|i: int|
                0 <= i < rest.len() ==> !text::white_space(#[trigger] rest[i]) && ' '
                    <= rest[i] && rest[i] != '\u{7f}'
        },
        !is_origin(scheme),
        !is_origin(scheme + ":"@ + rest) || text::matches_at(rest, "//"@, 0),
{
    reveal_strlit("://");
    reveal_strlit(":");
    reveal_strlit("//");
    reveal_strlit("/?#:@\\");
    let s = scheme + "://"@ + rest;
    let n = scheme.len() as int;
    let marks = "/?#:@\\"@;
    assert(marks.len() == 6);
    assert(marks[0] == '/' && marks[1] == '?' && marks[2] == '#' && marks[3] == ':' && marks[4]
        == '@' && marks[5] == '\\');
    assert forall|c: char| #[trigger] host_start(c) <==> !marks.contains(c) by {
        if marks.contains(c) {
            let k = choose|k: int| 0 <= k < marks.len() && marks[k] == c;
            assert(k == 0 || k == 1 || k == 2 || k == 3 || k == 4 || k == 5);
        }
    }
    assert forall|i: int| 0 <= i < n implies #[trigger] s[i] == scheme[i] && scheme_char(scheme[i])
        && scheme[i] != ':' by {
        let c = scheme[i];
    }
    assert(s[n] == ':');
    text::lemma_seek_unique(s, ':', 0, n);
    text::lemma_seek_unique(scheme, ':', 0, n);
    assert(s.subrange(n, n + 3) =~= "://"@);
    assert(text::matches_at(s, "://"@, n));
    assert(rest.len() > 0 ==> s[n + 3] == rest[0]);
    if is_origin(s) {
        assert forall|i: int| 0 <= i < rest.len() implies !text::white_space(#[trigger] rest[i]) && ' '
            <= rest[i] && rest[i] != '\u{7f}' by {
            assert(s[n + 3 + i] == rest[i]);
            assert(value_char(s[n + 3 + i]));
        }
    }
    if scheme.len() > 0 && rest.len() > 0 && !marks.contains(rest[0]) && forall|i: int|
        0 <= i < rest.len() ==> !text::white_space(#[trigger] rest[i]) && ' ' <= rest[i]
            && rest[i] != '\u{7f}' {
        assert forall|i: int| 0 <= i < s.len() implies value_char(#[trigger] s[i])
            && !text::white_space(s[i]) by {
            if i < n {
                assert(s[i] == scheme[i]);
            } else if i >= n + 3 {
                assert(s[i] == rest[i - n - 3]);
            }
        }
        assert(host_start(s[n + 3]));
    }
    let t = scheme + ":"@ + rest;
    assert forall|i: int| 0 <= i < n implies #[trigger] t[i] == scheme[i] by {}
    assert(t[n] == ':');
    text::lemma_seek_unique(t, ':', 0, n);
    if is_origin(t) {
        assert(t.subrange(n, n + 3) == "://"@);
        assert(t.subrange(n, n + 3)[1] == '/' && t.subrange(n, n + 3)[2] == '/');
        assert(rest[0] == '/' && rest[1] == '/');
        assert(rest.subrange(0, 2) =~= "//"@);
    }
}

/// Lists are sifted entry by entry: what can stand in a header stays, in its
/// order, and header names come out in lower case.
pub proof fn lists_are_sifted_entry_by_entry(a: Seq<Seq<char>>, b: Seq<Seq<char>>, one: Seq<char>)
    ensures
        values_of(a + b) == values_of(a) + values_of(b),
        names_of(a + b) == names_of(a) + names_of(b),
        is_value(one) ==> values_of(seq![one]) == seq![one],
        !is_value(one) ==> values_of(seq![one]).len() == 0,
        is_name(one) ==> names_of(seq![one]) == seq![text::fold(one)],
        !is_name(one) ==> names_of(seq![one]).len() == 0,
    decreases b.len(),
{
    reveal_with_fuel(values_of, 2);
    reveal_with_fuel(names_of, 2);
    assert(seq![one].drop_last() =~= Seq::empty());
    assert(is_value(one) ==> values_of(seq![one]) =~= seq![one]);
    assert(is_name(one) ==> names_of(seq![one]) =~= seq![text::fold(one)]);
    if b.len() == 0 {
        assert(a + b =~= a);
        assert(values_of(a) + values_of(b) =~= values_of(a));
        assert(names_of(a) + names_of(b) =~= names_of(a));
    } else {
        assert((a + b).drop_last() =~= a + b.drop_last());
        assert((a + b).last() == b.last());
        lists_are_sifted_entry_by_entry(a, b.drop_last(), one);
        assert(values_of(a + b) =~= values_of(a) + values_of(b));
        assert(names_of(a + b) =~= names_of(a) + names_of(b));
    }
}

/// Browsers may use `GET`, `POST` and `OPTIONS`, send the bearer token, the
/// content type and the session whatever else is configured, and read the
/// session and the trace of a response.
pub proof fn browsers_can_do_what_the_protocol_needs(list: Seq<Seq<char>>)
    ensures
        texts(METHODS@) == seq!["GET"@, "POST"@, "OPTIONS"@],
        texts(EXPOSED_HEADERS@) == seq!["mcp-session-id"@, "traceparent"@, "tracestate"@],
        request_headers_of(list).contains("authorization"@),
        request_headers_of(list).contains("content-type"@),
        request_headers_of(list).contains("mcp-session-id"@),
        request_headers_of(list).len() >= names_of(list).len(),
        request_headers_of(list).take(names_of(list).len() as int) == names_of(list),
        names_of(list).contains("authorization"@) && names_of(list).contains("content-type"@)
            && names_of(list).contains("mcp-session-id"@) ==> request_headers_of(list) == names_of(
            list,
        ),
{
    assert(texts(METHODS@) =~= seq!["GET"@, "POST"@, "OPTIONS"@]);
    assert(texts(EXPOSED_HEADERS@) =~= seq!["mcp-session-id"@, "traceparent"@, "tracestate"@]);
    let needed = texts(REQUIRED_HEADERS@);
    assert(needed =~= seq!["authorization"@, "content-type"@, "mcp-session-id"@]);
    assert(needed[0] == "authorization"@ && needed[1] == "content-type"@ && needed[2]
        == "mcp-session-id"@);
    required_headers_are_always_allowed(list);
    assert(needed.contains("authorization"@));
    assert(needed.contains("content-type"@));
    assert(needed.contains("mcp-session-id"@));
    lemma_missing_go_to_the_end(names_of(list), needed);
}

proof fn lemma_missing_go_to_the_end(list: Seq<Seq<char>>, needed: Seq<Seq<char>>)
    ensures
        with_missing(list, needed).len() >= list.len(),
        with_missing(list, needed).take(list.len() as int) == list,
        (forall|i: int| 0 <= i < needed.len() ==> list.contains(#[trigger] needed[i]))
            ==> with_missing(list, needed) == list,
    decreases needed.len(),
{
    if needed.len() > 0 {
        let first = needed.drop_last();
        lemma_missing_go_to_the_end(list, first);
        let before = with_missing(list, first);
        assert(with_missing(list, needed).take(list.len() as int) =~= before.take(list.len() as int));
        if forall|i: int| 0 <= i < needed.len() ==> list.contains(#[trigger] needed[i]) {
            assert forall|i: int| 0 <= i < first.len() implies list.contains(#[trigger] first[i]) by {
                assert(first[i] == needed[i]);
            }
            assert(list.contains(needed[needed.len() - 1]));
        }
    } else {
        assert(list.take(list.len() as int) =~= list);
    }
}

/// A text whose scheme holds another character than letters, digits and
/// `+-.` is no origin.
pub proof fn schemes_are_made_of_their_characters(scheme: Seq<char>, rest: Seq<char>, i: int)
    requires
        !scheme.contains(':'),
        0 <= i < scheme.len(),
        !('0' <= scheme[i] <= '9' || 'a' <= scheme[i] <= 'z' || 'A' <= scheme[i] <= 'Z'
            || scheme[i] == '+' || scheme[i] == '-' || scheme[i] == '.'),
    ensures
        !is_origin(scheme + "://"@ + rest),
{
    reveal_strlit("://");
    let s = scheme + "://"@ + rest;
    let n = scheme.len() as int;
    assert forall|k: int| 0 <= k < n implies s[k] != ':' by {
        assert(s[k] == scheme[k]);
        assert(scheme.contains(scheme[k]));
    }
    assert(s[n] == ':');
    text::lemma_seek_unique(s, ':', 0, n);
    assert(s[i] == scheme[i]);
    assert(!scheme_char(s[i]));
}

/// A policy has the listed origins that can stand in a header, the methods of
/// the protocol, the headers that browsers need and the configured lifetime.
pub proof fn policies_follow_the_configuration(config: &CorsConfig, policy: CorsPolicy, s: Seq<char>)
    requires
        call_ensures(cors_layer, (config,), policy),
    ensures
        policy.max_age_seconds == config.max_age_seconds,
        text::views(policy.origins@).contains(s) ==> text::views(
            config.allowed_origins@,
        ).contains(s),
        config.allowed_origins@.len() == 0 ==> policy.origins@.len() == 0,
        text::views(policy.methods@) == seq!["GET"@, "POST"@, "OPTIONS"@],
        text::views(policy.exposed_headers@) == seq![
            "mcp-session-id"@,
            "traceparent"@,
            "tracestate"@,
        ],
        text::views(policy.request_headers@).contains("authorization"@),
{
    only_listed_origins_are_allowed(text::views(config.allowed_origins@));
    browsers_can_do_what_the_protocol_needs(text::views(config.allowed_headers@));
    assert(text::views(policy.origins@).len() == policy.origins@.len());
}

} // verus!

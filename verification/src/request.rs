//! Request-line parsing: splitting the first line of an HTTP request into
//! method, path and protocol tokens, and mapping the method and protocol
//! tokens case-insensitively onto their enums.

use vstd::prelude::*;

verus! {

/// The Unicode `White_Space` property, the separator set on which a request
/// line is split into tokens.
pub open spec fn is_whitespace_char(c: char) -> bool {
    let u = c as u32;
    (9 <= u && u <= 13) || u == 32 || u == 133 || u == 160 || u == 5760 || (8192 <= u && u
        <= 8202) || u == 8232 || u == 8233 || u == 8239 || u == 8287 || u == 12288
}

/// Decides the Unicode `White_Space` property of one character.
fn is_whitespace(c: char) -> (r: bool)
    ensures
        r == is_whitespace_char(c),
{
    let u = c as u32;
    (u >= 9 && u <= 13) || u == 32 || u == 133 || u == 160 || u == 5760 || (u >= 8192 && u
        <= 8202) || u == 8232 || u == 8233 || u == 8239 || u == 8287 || u == 12288
}

/// Index of the first whitespace character of `s`, or `s.len()` if there is
/// none.
pub open spec fn first_ws_index(s: Seq<char>) -> int
    decreases s.len(),
{
    if s.len() == 0 {
        0
    } else if is_whitespace_char(s[0]) {
        0
    } else {
        1 + first_ws_index(s.drop_first())
    }
}

/// The tokens of `s`, split at every whitespace character. Consecutive
/// separators, or separators at either end, produce empty tokens, so a line
/// with n separators always has n + 1 tokens.
pub open spec fn split_ws(s: Seq<char>) -> Seq<Seq<char>>
    decreases s.len(),
{
    let i = first_ws_index(s);
    if 0 <= i < s.len() {
        seq![s.subrange(0, i)] + split_ws(s.skip(i + 1))
    } else {
        seq![s]
    }
}

/// Number of whitespace characters in `s`.
pub open spec fn ws_count(s: Seq<char>) -> nat
    decreases s.len(),
{
    if s.len() == 0 {
        0
    } else {
        ws_count(s.drop_last()) + (if is_whitespace_char(s.last()) {
            1nat
        } else {
            0nat
        })
    }
}

proof fn lemma_first_ws_index_bounds(s: Seq<char>)
    ensures
        0 <= first_ws_index(s) <= s.len(),
        forall|k: int| 0 <= k < first_ws_index(s) ==> !is_whitespace_char(s[k]),
        first_ws_index(s) < s.len() ==> is_whitespace_char(s[first_ws_index(s)]),
    decreases s.len(),
{
    if s.len() == 0 {
    } else if is_whitespace_char(s[0]) {
    } else {
        lemma_first_ws_index_bounds(s.drop_first());
        assert forall|k: int| 0 <= k < first_ws_index(s) implies !is_whitespace_char(s[k]) by {
            if k > 0 {
                assert(s[k] == s.drop_first()[k - 1]);
            }
        }
    }
}

proof fn lemma_no_ws_count_zero(s: Seq<char>)
    requires
        forall|k: int| 0 <= k < s.len() ==> !is_whitespace_char(s[k]),
    ensures
        ws_count(s) == 0,
    decreases s.len(),
{
    if s.len() > 0 {
        lemma_no_ws_count_zero(s.drop_last());
    }
}

proof fn lemma_ws_count_skip(s: Seq<char>, j: int)
    requires
        0 <= j < s.len(),
        is_whitespace_char(s[j]),
        forall|k: int| 0 <= k < j ==> !is_whitespace_char(s[k]),
    ensures
        ws_count(s) == 1 + ws_count(s.skip(j + 1)),
    decreases s.len(),
{
    if j == s.len() - 1 {
        lemma_no_ws_count_zero(s.drop_last());
        assert(s.skip(j + 1) =~= Seq::<char>::empty());
    } else {
        let t = s.drop_last();
        lemma_ws_count_skip(t, j);
        assert(t.skip(j + 1) =~= s.skip(j + 1).drop_last());
        assert(s.skip(j + 1).last() == s.last());
    }
}

/// The number of tokens is always one more than the number of separators.
proof fn lemma_split_ws_len(s: Seq<char>)
    ensures
        split_ws(s).len() == ws_count(s) + 1,
    decreases s.len(),
{
    let i = first_ws_index(s);
    lemma_first_ws_index_bounds(s);
    if i == s.len() {
        lemma_no_ws_count_zero(s);
    } else {
        lemma_ws_count_skip(s, i);
        lemma_split_ws_len(s.skip(i + 1));
    }
}

/// A line with whitespace exactly at positions `i < j` splits into the three
/// segments around them.
proof fn lemma_split_two_ws(s: Seq<char>, i: int, j: int)
    requires
        0 <= i < j < s.len(),
        is_whitespace_char(s[i]),
        is_whitespace_char(s[j]),
        forall|k: int| 0 <= k < s.len() && is_whitespace_char(s[k]) ==> k == i || k == j,
    ensures
        split_ws(s) == seq![
            s.subrange(0, i),
            s.subrange(i + 1, j),
            s.subrange(j + 1, s.len() as int),
        ],
{
    lemma_first_ws_index_bounds(s);
    assert(first_ws_index(s) == i);
    let t = s.skip(i + 1);
    lemma_first_ws_index_bounds(t);
    assert(is_whitespace_char(t[j - i - 1]));
    assert(first_ws_index(t) == j - i - 1);
    let u = t.skip(j - i);
    lemma_first_ws_index_bounds(u);
    assert(forall|k: int| 0 <= k < u.len() ==> u[k] == s[k + j + 1]);
    assert(first_ws_index(u) == u.len());
    assert(split_ws(u) == seq![u]);
    assert(t.skip(j - i) == u);
    assert(split_ws(t) == seq![t.subrange(0, j - i - 1)] + split_ws(u));
    assert(split_ws(s) == seq![s.subrange(0, i)] + split_ws(t));
    assert(t.subrange(0, j - i - 1) =~= s.subrange(i + 1, j));
    assert(u =~= s.subrange(j + 1, s.len() as int));
    assert(split_ws(s) =~~= seq![
        s.subrange(0, i),
        s.subrange(i + 1, j),
        s.subrange(j + 1, s.len() as int),
    ]);
}

/// The character's code point, with a lower-case ASCII letter folded to its
/// upper-case counterpart.
pub open spec fn ascii_upper(c: char) -> u32 {
    let u = c as u32;
    if 97 <= u && u <= 122 {
        (u - 32) as u32
    } else {
        u
    }
}

/// Equality of two character sequences up to ASCII case.
pub open spec fn chars_eq_ignore_ascii_case(a: Seq<char>, b: Seq<char>) -> bool {
    a.len() == b.len() && (forall|k: int| 0 <= k < a.len() ==> ascii_upper(a[k]) == ascii_upper(
        b[k],
    ))
}

fn ascii_upper_exec(c: char) -> (u: u32)
    ensures
        u == ascii_upper(c),
{
    let v = c as u32;
    if v >= 97 && v <= 122 {
        v - 32
    } else {
        v
    }
}

/// Compares two strings character by character, folding ASCII case.
fn eq_ignore_ascii_case(a: &str, b: &str) -> (r: bool)
    ensures
        r == chars_eq_ignore_ascii_case(a@, b@),
{
    let na = a.unicode_len();
    let nb = b.unicode_len();
    if na != nb {
        return false;
    }
    let mut k: usize = 0;
    while k < na
        invariant
            na == a@.len(),
            na == b@.len(),
            0 <= k <= na,
            forall|m: int| 0 <= m < k ==> ascii_upper(a@[m]) == ascii_upper(b@[m]),
        decreases na - k,
    {
        let ca = a.get_char(k);
        let cb = b.get_char(k);
        if ascii_upper_exec(ca) != ascii_upper_exec(cb) {
            assert(ascii_upper(a@[k as int]) != ascii_upper(b@[k as int]));
            return false;
        }
        k = k + 1;
    }
    true
}

/// The method token of a request line.
#[allow(non_camel_case_types)]
#[derive(Debug, Clone, Copy, PartialEq, Eq, Structural)]
pub enum HttpMethod {
    GET,
    POST,
    DELETE,
    PUT,
}

/// The protocol token of a request line.
#[allow(non_camel_case_types)]
#[derive(Debug, Clone, Copy, PartialEq, Eq, Structural)]
pub enum HttpProtocol {
    HTTP1_1,
    HTTP2_0,
}

/// The method that a token denotes: one of GET, POST, DELETE and PUT, up to
/// ASCII case; any other token denotes none.
pub open spec fn spec_method_of(t: Seq<char>) -> Option<HttpMethod> {
    if chars_eq_ignore_ascii_case(t, seq!['G', 'E', 'T']) {
        Some(HttpMethod::GET)
    } else if chars_eq_ignore_ascii_case(t, seq!['P', 'O', 'S', 'T']) {
        Some(HttpMethod::POST)
    } else if chars_eq_ignore_ascii_case(t, seq!['D', 'E', 'L', 'E', 'T', 'E']) {
        Some(HttpMethod::DELETE)
    } else if chars_eq_ignore_ascii_case(t, seq!['P', 'U', 'T']) {
        Some(HttpMethod::PUT)
    } else {
        None
    }
}

/// The protocol that a token denotes: "HTTP/1.1" or "HTTP/2", up to ASCII
/// case; any other token denotes none.
pub open spec fn spec_protocol_of(t: Seq<char>) -> Option<HttpProtocol> {
    if chars_eq_ignore_ascii_case(t, seq!['H', 'T', 'T', 'P', '/', '1', '.', '1']) {
        Some(HttpProtocol::HTTP1_1)
    } else if chars_eq_ignore_ascii_case(t, seq!['H', 'T', 'T', 'P', '/', '2']) {
        Some(HttpProtocol::HTTP2_0)
    } else {
        None
    }
}

impl HttpMethod {
    /// Maps a method token onto its `HttpMethod`, ignoring ASCII case;
    /// returns `None` for an unrecognized token.
    pub fn from(s: &str) -> (r: Option<HttpMethod>)
        ensures
            r == spec_method_of(s@),
    {
        proof {
            reveal_strlit("GET");
            reveal_strlit("POST");
            reveal_strlit("DELETE");
            reveal_strlit("PUT");
            assert("GET"@ =~= seq!['G', 'E', 'T']);
            assert("POST"@ =~= seq!['P', 'O', 'S', 'T']);
            assert("DELETE"@ =~= seq!['D', 'E', 'L', 'E', 'T', 'E']);
            assert("PUT"@ =~= seq!['P', 'U', 'T']);
        }
        if eq_ignore_ascii_case(s, "GET") {
            Some(HttpMethod::GET)
        } else if eq_ignore_ascii_case(s, "POST") {
            Some(HttpMethod::POST)
        } else if eq_ignore_ascii_case(s, "DELETE") {
            Some(HttpMethod::DELETE)
        } else if eq_ignore_ascii_case(s, "PUT") {
            Some(HttpMethod::PUT)
        } else {
            None
        }
    }
}

impl HttpProtocol {
    /// Maps a protocol token onto its `HttpProtocol`, ignoring ASCII case;
    /// returns `None` for an unrecognized token.
    pub fn from(s: &str) -> (r: Option<HttpProtocol>)
        ensures
            r == spec_protocol_of(s@),
    {
        proof {
            reveal_strlit("HTTP/1.1");
            reveal_strlit("HTTP/2");
            assert("HTTP/1.1"@ =~= seq!['H', 'T', 'T', 'P', '/', '1', '.', '1']);
            assert("HTTP/2"@ =~= seq!['H', 'T', 'T', 'P', '/', '2']);
        }
        if eq_ignore_ascii_case(s, "HTTP/1.1") {
            Some(HttpProtocol::HTTP1_1)
        } else if eq_ignore_ascii_case(s, "HTTP/2") {
            Some(HttpProtocol::HTTP2_0)
        } else {
            None
        }
    }
}

/// A request line parsed into its three parts. The three fields are only
/// ever produced together: a line that fails on any token yields no
/// `HttpFirstLine` at all.
#[derive(Debug)]
pub struct HttpFirstLine {
    pub method: HttpMethod,
    pub path: String,
    pub http_protocol: HttpProtocol,
}

impl View for HttpFirstLine {
    type V = (HttpMethod, Seq<char>, HttpProtocol);

    open spec fn view(&self) -> Self::V {
        (self.method, self.path@, self.http_protocol)
    }
}

/// What a request line parses to: its tokens must be exactly method, path and
/// protocol, the method and protocol tokens must be recognized, and the path
/// token is kept verbatim. Any failure yields `None`, never a partial result.
pub open spec fn spec_parse_request_line(s: Seq<char>) -> Option<
    (HttpMethod, Seq<char>, HttpProtocol),
> {
    let toks = split_ws(s);
    if toks.len() != 3 {
        None
    } else {
        match (spec_method_of(toks[0]), spec_protocol_of(toks[2])) {
            (Some(m), Some(p)) => Some((m, toks[1], p)),
            _ => None,
        }
    }
}

impl HttpFirstLine {
    /// Parses a request line. The result is present exactly when the line
    /// has three whitespace-separated tokens whose method and protocol are
    /// recognized; the path token is stored verbatim, query string included.
    pub fn from(s: &str) -> (r: Option<HttpFirstLine>)
        ensures
            match r {
                Some(f) => spec_parse_request_line(s@) == Some(f@),
                None => spec_parse_request_line(s@) is None,
            },
            // A line whose token count is not exactly three never parses.
            split_ws(s@).len() != 3 ==> r is None,
            // An unrecognized method or protocol token fails the whole
            // parse, whatever the other tokens hold.
            split_ws(s@).len() == 3 && (spec_method_of(split_ws(s@)[0]) is None
                || spec_protocol_of(split_ws(s@)[2]) is None) ==> r is None,
    {
        let n: usize = s.unicode_len();
        let mut i: usize = 0;
        let mut count: usize = 0;
        let mut p1: usize = 0;
        let mut p2: usize = 0;
        while i < n
            invariant
                n == s@.len(),
                0 <= i <= n,
                count <= i,
                count == ws_count(s@.take(i as int)),
                count >= 1 ==> p1 < i && is_whitespace_char(s@[p1 as int]),
                count >= 2 ==> p1 < p2 && p2 < i && is_whitespace_char(s@[p2 as int]),
                count <= 2 ==> (forall|k: int|
                    0 <= k < i && is_whitespace_char(s@[k]) ==> ((count >= 1 && k == p1) || (count
                        >= 2 && k == p2))),
            decreases n - i,
        {
            let c = s.get_char(i);
            proof {
                assert(s@.take(i as int + 1).drop_last() =~= s@.take(i as int));
                assert(s@.take(i as int + 1).last() == s@[i as int]);
            }
            if is_whitespace(c) {
                if count == 0 {
                    p1 = i;
                } else if count == 1 {
                    p2 = i;
                }
                count = count + 1;
            }
            i = i + 1;
        }
        proof {
            assert(s@.take(n as int) =~= s@);
            lemma_split_ws_len(s@);
        }
        if count != 2 {
            return None;
        }
        proof {
            lemma_split_two_ws(s@, p1 as int, p2 as int);
        }
        let tok_method = s.substring_char(0, p1);
        let tok_path = s.substring_char(p1 + 1, p2);
        let tok_protocol = s.substring_char(p2 + 1, n);
        let method = match HttpMethod::from(tok_method) {
            Some(m) => m,
            None => {
                return None;
            },
        };
        let http_protocol = match HttpProtocol::from(tok_protocol) {
            Some(p) => p,
            None => {
                return None;
            },
        };
        Some(HttpFirstLine { method, path: String::from_str(tok_path), http_protocol })
    }
}

/// A token that denotes a method or a protocol holds no whitespace: up to
/// ASCII case it is made of letters and of '/', '.', '1' and '2'.
proof fn lemma_recognized_token_has_no_whitespace(t: Seq<char>)
    requires
        spec_method_of(t) is Some || spec_protocol_of(t) is Some,
    ensures
        forall|k: int| 0 <= k < t.len() ==> !is_whitespace_char(t[k]),
{
    assert forall|k: int| 0 <= k < t.len() implies !is_whitespace_char(t[k]) by {
        if is_whitespace_char(t[k]) {
            assert(ascii_upper(t[k]) == t[k] as u32);
            if chars_eq_ignore_ascii_case(t, seq!['G', 'E', 'T']) {
                assert(ascii_upper(t[k]) == ascii_upper(seq!['G', 'E', 'T'][k]));
            } else if chars_eq_ignore_ascii_case(t, seq!['P', 'O', 'S', 'T']) {
                assert(ascii_upper(t[k]) == ascii_upper(seq!['P', 'O', 'S', 'T'][k]));
            } else if chars_eq_ignore_ascii_case(t, seq!['D', 'E', 'L', 'E', 'T', 'E']) {
                assert(ascii_upper(t[k]) == ascii_upper(seq!['D', 'E', 'L', 'E', 'T', 'E'][k]));
            } else if chars_eq_ignore_ascii_case(t, seq!['P', 'U', 'T']) {
                assert(ascii_upper(t[k]) == ascii_upper(seq!['P', 'U', 'T'][k]));
            } else if chars_eq_ignore_ascii_case(t, seq!['H', 'T', 'T', 'P', '/', '1', '.', '1']) {
                assert(ascii_upper(t[k]) == ascii_upper(
                    seq!['H', 'T', 'T', 'P', '/', '1', '.', '1'][k],
                ));
            } else {
                assert(chars_eq_ignore_ascii_case(t, seq!['H', 'T', 'T', 'P', '/', '2']));
                assert(ascii_upper(t[k]) == ascii_upper(seq!['H', 'T', 'T', 'P', '/', '2'][k]));
            }
            assert(false);
        }
    }
}

/// A line of a recognized method token, a path and a recognized protocol
/// token, separated by one whitespace character each, always parses: the
/// method and protocol map through their case-insensitive lookup, and the
/// path is kept verbatim.
pub proof fn lemma_three_token_line_parses(
    m: Seq<char>,
    p: Seq<char>,
    v: Seq<char>,
    c1: char,
    c2: char,
)
    requires
        spec_method_of(m) is Some,
        spec_protocol_of(v) is Some,
        is_whitespace_char(c1),
        is_whitespace_char(c2),
        forall|k: int| 0 <= k < p.len() ==> !is_whitespace_char(p[k]),
    ensures
        spec_parse_request_line(m + seq![c1] + p + seq![c2] + v) == Some(
            (spec_method_of(m)->0, p, spec_protocol_of(v)->0),
        ),
{
    lemma_recognized_token_has_no_whitespace(m);
    lemma_recognized_token_has_no_whitespace(v);
    let line = m + seq![c1] + p + seq![c2] + v;
    let i = m.len() as int;
    let j = m.len() as int + 1 + p.len() as int;
    assert(line[i] == c1);
    assert(line[j] == c2);
    assert forall|k: int| 0 <= k < line.len() && is_whitespace_char(line[k]) implies k == i || k
        == j by {
        if k < i {
            assert(line[k] == m[k]);
        } else if i < k < j {
            assert(line[k] == p[k - i - 1]);
        } else if k > j {
            assert(line[k] == v[k - j - 1]);
        }
    }
    lemma_split_two_ws(line, i, j);
    assert(line.subrange(0, i) =~= m);
    assert(line.subrange(i + 1, j) =~= p);
    assert(line.subrange(j + 1, line.len() as int) =~= v);
}

} // verus!

//! Response building: routing a parsed request line (or its absence) to a
//! status line and body, and serializing the response with its
//! `Content-Length` header.

use vstd::prelude::*;
use vstd::utf8::encode_utf8;
use crate::request::{HttpFirstLine, HttpMethod, HttpProtocol, spec_parse_request_line};

verus! {

/// The status line of every response to a request line that parsed.
pub open spec fn status_line_ok() -> Seq<char> {
    "HTTP/1.1 200 OK"@
}

/// The status line of every response to a request line that did not parse.
pub open spec fn status_line_not_found() -> Seq<char> {
    "HTTP/1.1 404 NOT FOUND"@
}

/// A response about to be serialized: a status line and a body.
#[derive(Debug)]
pub struct ResponseContent {
    pub status_line: String,
    pub contents: String,
}

impl View for ResponseContent {
    type V = (Seq<char>, Seq<char>);

    open spec fn view(&self) -> Self::V {
        (self.status_line@, self.contents@)
    }
}

/// Why no response could be built. Serving POST, DELETE and PUT is
/// unimplemented; the caller decides whether that aborts the request or
/// turns into a graceful error.
#[derive(Debug, Clone, Copy, PartialEq, Eq, Structural)]
pub enum ResponseError {
    MethodNotImplemented(HttpMethod),
}

/// The response owed to a request. An absent parse is answered with the
/// not-found status line and an empty body; a GET is answered with the ok
/// status line and the resolved contents, even when they are empty; any
/// other method is unimplemented.
pub open spec fn spec_response(
    parsed: Option<(HttpMethod, Seq<char>, HttpProtocol)>,
    file_contents: Seq<char>,
) -> Result<(Seq<char>, Seq<char>), ResponseError> {
    match parsed {
        None => Ok((status_line_not_found(), Seq::<char>::empty())),
        Some((m, path, protocol)) => match m {
            HttpMethod::GET => Ok((status_line_ok(), file_contents)),
            _ => Err(ResponseError::MethodNotImplemented(m)),
        },
    }
}

/// The view of an optional parsed request line.
pub open spec fn parsed_view(o: Option<HttpFirstLine>) -> Option<
    (HttpMethod, Seq<char>, HttpProtocol),
> {
    match o {
        Some(f) => Some(f@),
        None => None,
    }
}

/// Builds the response for a parse result and the contents resolved for its
/// path: 404 with an empty body when the parse failed, 200 with the contents
/// verbatim for a GET (an unresolved path hands in empty contents and is
/// still answered 200), and an error for the unimplemented methods.
pub fn get_response_content(http_first_line: &Option<HttpFirstLine>, file_contents: String) -> (r:
    Result<ResponseContent, ResponseError>)
    ensures
        match (r, spec_response(parsed_view(*http_first_line), file_contents@)) {
            (Ok(rc), Ok(sr)) => rc@ == sr,
            (Err(e), Err(se)) => e == se,
            _ => false,
        },
{
    match http_first_line {
        Some(hp) => match hp.method {
            HttpMethod::GET => Ok(
                ResponseContent {
                    status_line: String::from_str("HTTP/1.1 200 OK"),
                    contents: file_contents,
                },
            ),
            HttpMethod::POST => Err(ResponseError::MethodNotImplemented(HttpMethod::POST)),
            HttpMethod::DELETE => Err(ResponseError::MethodNotImplemented(HttpMethod::DELETE)),
            HttpMethod::PUT => Err(ResponseError::MethodNotImplemented(HttpMethod::PUT)),
        },
        None => Ok(
            ResponseContent {
                status_line: String::from_str("HTTP/1.1 404 NOT FOUND"),
                contents: String::new(),
            },
        ),
    }
}

/// The candidate file for a request path: the resource root followed by the
/// path verbatim, with no normalization and no traversal protection.
pub fn resource_file_path(path: &str) -> (r: String)
    ensures
        r@ == "resource/"@ + path@,
{
    let mut r = String::from_str("resource/");
    r.append(path);
    r
}

/// The character of one decimal digit.
pub open spec fn decimal_digit_char(d: nat) -> char {
    if d == 0 {
        '0'
    } else if d == 1 {
        '1'
    } else if d == 2 {
        '2'
    } else if d == 3 {
        '3'
    } else if d == 4 {
        '4'
    } else if d == 5 {
        '5'
    } else if d == 6 {
        '6'
    } else if d == 7 {
        '7'
    } else {
        if d == 8 {
            '8'
        } else {
            '9'
        }
    }
}

/// The decimal digits of `n`, most significant first, with no leading zero
/// except for `n == 0` itself.
pub open spec fn decimal_seq(n: nat) -> Seq<char>
    decreases n,
{
    if n < 10 {
        seq![decimal_digit_char(n)]
    } else {
        decimal_seq(n / 10).push(decimal_digit_char(n % 10))
    }
}

fn digit_str(d: usize) -> (r: &'static str)
    requires
        d < 10,
    ensures
        r@ == seq![decimal_digit_char(d as nat)],
{
    proof {
        reveal_strlit("0");
        reveal_strlit("1");
        reveal_strlit("2");
        reveal_strlit("3");
        reveal_strlit("4");
        reveal_strlit("5");
        reveal_strlit("6");
        reveal_strlit("7");
        reveal_strlit("8");
        reveal_strlit("9");
    }
    let r: &'static str = if d == 0 {
        "0"
    } else if d == 1 {
        "1"
    } else if d == 2 {
        "2"
    } else if d == 3 {
        "3"
    } else if d == 4 {
        "4"
    } else if d == 5 {
        "5"
    } else if d == 6 {
        "6"
    } else if d == 7 {
        "7"
    } else if d == 8 {
        "8"
    } else {
        "9"
    };
    assert(r@ =~= seq![decimal_digit_char(d as nat)]);
    r
}

/// Renders `n` in decimal.
pub fn decimal_string(n: usize) -> (r: String)
    ensures
        r@ == decimal_seq(n as nat),
    decreases n,
{
    let d: usize = n % 10;
    let ds = digit_str(d);
    if n < 10 {
        String::from_str(ds)
    } else {
        let prefix = decimal_string(n / 10);
        proof {
            assert(decimal_seq((n / 10) as nat).push(decimal_digit_char(d as nat)) =~= decimal_seq(
                (n / 10) as nat,
            ) + seq![decimal_digit_char(d as nat)]);
        }
        prefix.concat(ds)
    }
}

/// The exact wire form of a response: the status line, one Content-Length
/// header with no space after the colon, an empty line, and the body. The
/// declared length is the length in bytes of the body's UTF-8 encoding, not
/// its count of characters.
pub open spec fn spec_serialized_response(status_line: Seq<char>, contents: Seq<char>) -> Seq<
    char,
> {
    status_line + "\r\nContent-Length:"@ + decimal_seq(encode_utf8(contents).len()) + "\r\n\r\n"@
        + contents
}

/// Serializes a response into its exact wire form.
pub fn serialize_response(response_content: &ResponseContent) -> (r: String)
    ensures
        r@ == spec_serialized_response(response_content.status_line@, response_content.contents@),
{
    let len: usize = response_content.contents.as_str().as_bytes().len();
    assert(len as nat == encode_utf8(response_content.contents@).len());
    let mut out: String = response_content.status_line.clone();
    out.append("\r\nContent-Length:");
    let len_str = decimal_string(len);
    out.append(len_str.as_str());
    out.append("\r\n\r\n");
    out.append(response_content.contents.as_str());
    proof {
        assert(out@ =~= spec_serialized_response(
            response_content.status_line@,
            response_content.contents@,
        ));
    }
    out
}

/// A request line that does not parse is answered with the not-found status
/// line and an empty body, whatever contents were resolved.
pub proof fn lemma_unparsed_line_not_found(line: Seq<char>, file_contents: Seq<char>)
    requires
        spec_parse_request_line(line) is None,
    ensures
        spec_response(spec_parse_request_line(line), file_contents) == Ok::<
            (Seq<char>, Seq<char>),
            ResponseError,
        >((status_line_not_found(), Seq::<char>::empty())),
{
}

/// A GET request line that parses is answered with the ok status line and
/// the resolved contents verbatim, even when they are empty.
pub proof fn lemma_get_line_serves_contents(line: Seq<char>, file_contents: Seq<char>)
    requires
        spec_parse_request_line(line) matches Some(t) && t.0 == HttpMethod::GET,
    ensures
        spec_response(spec_parse_request_line(line), file_contents) == Ok::<
            (Seq<char>, Seq<char>),
            ResponseError,
        >((status_line_ok(), file_contents)),
{
}

} // verus!

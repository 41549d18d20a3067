use minihttp::request::{HttpFirstLine, HttpMethod, HttpProtocol};
use minihttp::response::{
    get_response_content, resource_file_path, serialize_response, ResponseContent, ResponseError,
};

fn parsed(line: &str) -> HttpFirstLine {
    HttpFirstLine::from(line).expect("line should parse")
}

#[test]
fn parse_valid_get_line() {
    let f = parsed("GET /index.html HTTP/1.1");
    assert_eq!(f.method, HttpMethod::GET);
    assert_eq!(f.path, "/index.html");
    assert_eq!(f.http_protocol, HttpProtocol::HTTP1_1);
}

#[test]
fn parse_keeps_query_string_verbatim() {
    let f = parsed("GET /api/v1/expense/findByIds?ids=10078,29987,30014 HTTP/1.1");
    assert_eq!(f.method, HttpMethod::GET);
    assert_eq!(f.path, "/api/v1/expense/findByIds?ids=10078,29987,30014");
    assert_eq!(f.http_protocol, HttpProtocol::HTTP1_1);
}

#[test]
fn parse_methods_case_insensitive() {
    assert_eq!(parsed("gEt /x HTTP/1.1").method, HttpMethod::GET);
    assert_eq!(parsed("post /x HTTP/1.1").method, HttpMethod::POST);
    assert_eq!(parsed("Delete /x HTTP/1.1").method, HttpMethod::DELETE);
    assert_eq!(parsed("pUT /x HTTP/1.1").method, HttpMethod::PUT);
}

#[test]
fn parse_protocols_case_insensitive() {
    assert_eq!(parsed("GET /x hTtP/1.1").http_protocol, HttpProtocol::HTTP1_1);
    assert_eq!(parsed("GET /x http/2").http_protocol, HttpProtocol::HTTP2_0);
    assert_eq!(parsed("GET /x HTTP/2").http_protocol, HttpProtocol::HTTP2_0);
}

#[test]
fn parse_other_whitespace_separators() {
    let f = parsed("GET\t/x\nHTTP/1.1");
    assert_eq!(f.method, HttpMethod::GET);
    assert_eq!(f.path, "/x");
    assert_eq!(f.http_protocol, HttpProtocol::HTTP1_1);
}

#[test]
fn parse_rejects_wrong_token_count() {
    assert!(HttpFirstLine::from("").is_none());
    assert!(HttpFirstLine::from("GET").is_none());
    assert!(HttpFirstLine::from("GET /x").is_none());
    assert!(HttpFirstLine::from("GET /x HTTP/1.1 extra").is_none());
    // A doubled separator yields an empty fourth token.
    assert!(HttpFirstLine::from("GET  /x HTTP/1.1").is_none());
    // A trailing separator yields an empty fourth token.
    assert!(HttpFirstLine::from("GET /x HTTP/1.1 ").is_none());
    // A leading separator yields an empty first token.
    assert!(HttpFirstLine::from(" GET /x HTTP/1.1").is_none());
}

#[test]
fn parse_rejects_unknown_method() {
    assert!(HttpFirstLine::from("FOO /x HTTP/1.1").is_none());
    assert!(HttpFirstLine::from("GETX /x HTTP/1.1").is_none());
}

#[test]
fn parse_rejects_unknown_protocol() {
    assert!(HttpFirstLine::from("GET /x BAR").is_none());
    assert!(HttpFirstLine::from("GET /x HTTP/3").is_none());
    assert!(HttpFirstLine::from("FOO /x BAR").is_none());
}

#[test]
fn response_get_serves_resolved_contents() {
    let line = parsed("GET /hello.html HTTP/1.1");
    let r = get_response_content(&Some(line), String::from("hello file text"))
        .expect("GET should be answered");
    assert_eq!(r.status_line, "HTTP/1.1 200 OK");
    assert_eq!(r.contents, "hello file text");
}

#[test]
fn response_get_missing_file_is_ok_and_empty() {
    let line = parsed("GET /no/such/file HTTP/1.1");
    let r = get_response_content(&Some(line), String::new()).expect("GET should be answered");
    assert_eq!(r.status_line, "HTTP/1.1 200 OK");
    assert_eq!(r.contents, "");
}

#[test]
fn response_unparsed_line_is_not_found() {
    assert!(HttpFirstLine::from("FOO /x BAR").is_none());
    let r = get_response_content(&None, String::new()).expect("an absent parse is answered");
    assert_eq!(r.status_line, "HTTP/1.1 404 NOT FOUND");
    assert_eq!(r.contents, "");
}

#[test]
fn response_unimplemented_methods_error() {
    for (line, method) in [
        ("POST /x HTTP/1.1", HttpMethod::POST),
        ("DELETE /x HTTP/1.1", HttpMethod::DELETE),
        ("PUT /x HTTP/1.1", HttpMethod::PUT),
    ] {
        let f = parsed(line);
        let e = get_response_content(&Some(f), String::new())
            .expect_err("unimplemented method must error");
        assert_eq!(e, ResponseError::MethodNotImplemented(method));
    }
}

#[test]
fn serialize_hello_exact_wire_form() {
    let rc = ResponseContent {
        status_line: String::from("HTTP/1.1 200 OK"),
        contents: String::from("hello"),
    };
    assert_eq!(
        serialize_response(&rc),
        "HTTP/1.1 200 OK\r\nContent-Length:5\r\n\r\nhello"
    );
}

#[test]
fn serialize_empty_body() {
    let rc = ResponseContent {
        status_line: String::from("HTTP/1.1 404 NOT FOUND"),
        contents: String::new(),
    };
    assert_eq!(
        serialize_response(&rc),
        "HTTP/1.1 404 NOT FOUND\r\nContent-Length:0\r\n\r\n"
    );
}

#[test]
fn serialize_content_length_counts_bytes_not_chars() {
    // "h\u{e9}llo" has five characters but six UTF-8 bytes.
    let body = String::from("h\u{e9}llo");
    assert_eq!(body.chars().count(), 5);
    assert_eq!(body.len(), 6);
    let rc = ResponseContent {
        status_line: String::from("HTTP/1.1 200 OK"),
        contents: body,
    };
    assert_eq!(
        serialize_response(&rc),
        "HTTP/1.1 200 OK\r\nContent-Length:6\r\n\r\nh\u{e9}llo"
    );
}

#[test]
fn serialize_multi_digit_length() {
    let body = "x".repeat(120);
    let rc = ResponseContent {
        status_line: String::from("HTTP/1.1 200 OK"),
        contents: body.clone(),
    };
    let expected = format!("HTTP/1.1 200 OK\r\nContent-Length:120\r\n\r\n{}", body);
    assert_eq!(serialize_response(&rc), expected);
}

#[test]
fn resource_path_is_verbatim_concatenation() {
    assert_eq!(resource_file_path("/a.txt"), "resource//a.txt");
    assert_eq!(resource_file_path("hello.html"), "resource/hello.html");
    assert_eq!(resource_file_path(""), "resource/");
}

#[test]
fn decimal_rendering_exact() {
    assert_eq!(minihttp::response::decimal_string(0), "0");
    assert_eq!(minihttp::response::decimal_string(9), "9");
    assert_eq!(minihttp::response::decimal_string(10), "10");
    assert_eq!(minihttp::response::decimal_string(105), "105");
    assert_eq!(
        minihttp::response::decimal_string(usize::MAX),
        format!("{}", usize::MAX)
    );
}

#[test]
fn full_cycle_parse_route_serialize() {
    let first_line = HttpFirstLine::from("GET /greeting HTTP/1.1");
    let rc = get_response_content(&first_line, String::from("hi")).expect("GET is answered");
    assert_eq!(
        serialize_response(&rc),
        "HTTP/1.1 200 OK\r\nContent-Length:2\r\n\r\nhi"
    );
}

use http_server::{HttpRequest, ParseError};

fn parse(text: &str) -> Result<HttpRequest, ParseError> {
    HttpRequest::from_buffer(text.as_bytes())
}

#[test]
fn request_line_gives_method_path_version() {
    let req = parse("GET /index.html HTTP/1.1\r\nHost: x\r\n\r\n").unwrap();
    assert_eq!(req.method(), "GET");
    assert_eq!(req.path(), "/index.html");
    assert_eq!(req.http_version(), "HTTP/1.1");
}

#[test]
fn extra_request_line_words_are_ignored() {
    let req = parse("POST  /a   HTTP/1.0 extra more\n").unwrap();
    assert_eq!(req.method(), "POST");
    assert_eq!(req.path(), "/a");
    assert_eq!(req.http_version(), "HTTP/1.0");
}

#[test]
fn headers_are_trimmed_and_last_wins() {
    let req = parse("GET / HTTP/1.1\r\n  Host :  example.org \r\nAccept: a\r\nAccept: b\r\n\r\n").unwrap();
    assert_eq!(req.header("Host"), Some("example.org"));
    assert_eq!(req.header("Accept"), Some("b"));
    assert_eq!(req.header("Missing"), None);
}

#[test]
fn header_value_keeps_later_colons() {
    let req = parse("GET / HTTP/1.1\r\nHost: localhost:8081\r\n\r\n").unwrap();
    assert_eq!(req.header("Host"), Some("localhost:8081"));
}

#[test]
fn lines_after_blank_line_are_ignored() {
    let req = parse("GET / HTTP/1.1\r\nA: 1\r\n\r\nno colon here\r\nB: 2\r\n").unwrap();
    assert_eq!(req.header("A"), Some("1"));
    assert_eq!(req.header("B"), None);
}

#[test]
fn header_without_colon_fails() {
    let r = parse("GET / HTTP/1.1\r\nHost: x\r\nbroken\r\n\r\n");
    assert_eq!(r.unwrap_err(), ParseError::HeaderValueMissing);
}

#[test]
fn empty_buffer_has_no_request_line() {
    assert_eq!(parse("").unwrap_err(), ParseError::RequestLineMissing);
}

#[test]
fn blank_request_line_has_no_method() {
    assert_eq!(parse("\r\n").unwrap_err(), ParseError::MethodMissing);
    assert_eq!(parse("   \t \n").unwrap_err(), ParseError::MethodMissing);
}

#[test]
fn one_word_has_no_path() {
    assert_eq!(parse("GET\r\n\r\n").unwrap_err(), ParseError::PathMissing);
}

#[test]
fn two_words_have_no_version() {
    assert_eq!(parse("GET /\r\n\r\n").unwrap_err(), ParseError::VersionMissing);
}

#[test]
fn request_without_line_ending_parses() {
    let req = parse("GET /x HTTP/1.1").unwrap();
    assert_eq!(req.path(), "/x");
}

#[test]
fn invalid_utf8_is_replaced() {
    let req = HttpRequest::from_buffer(b"GET /a\xffb HTTP/1.1\r\n\r\n").unwrap();
    assert_eq!(req.path(), "/a\u{FFFD}b");
}

#[test]
fn unicode_whitespace_separates_words() {
    let req = parse("GET\u{00A0}/p\u{3000}HTTP/1.1\r\nK:\u{2003}v\u{2003}\r\n").unwrap();
    assert_eq!(req.method(), "GET");
    assert_eq!(req.path(), "/p");
    assert_eq!(req.http_version(), "HTTP/1.1");
    assert_eq!(req.header("K"), Some("v"));
}

#[test]
fn parse_text_matches_buffer() {
    let req = HttpRequest::parse("DELETE /item HTTP/2\nX-A: 1\n").unwrap();
    assert_eq!(req.method(), "DELETE");
    assert_eq!(req.header("X-A"), Some("1"));
}

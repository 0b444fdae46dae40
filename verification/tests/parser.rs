use mini_http::method::HttpMethod;
use mini_http::parser::{parse_header, parse_http_request, parse_target};
use mini_http::request::HttpRequest;

fn lines(text: &[&str]) -> Vec<String> {
    text.iter().map(|l| l.to_string()).collect()
}

fn parse(text: &[&str]) -> Result<HttpRequest, ()> {
    parse_http_request(&lines(text), Some("127.0.0.1:5000".to_string()))
}

#[test]
fn request_line_fields_are_the_three_tokens() {
    let request = parse(&["GET /ping HTTP/1.1"]).unwrap();
    assert_eq!(request.method(), HttpMethod::GET);
    assert_eq!(request.path(), "/ping");
    assert_eq!(request.version(), "HTTP/1.1");
    assert_eq!(request.remote_addr(), "127.0.0.1:5000");
    assert_eq!(request.hash(), None);
    assert_eq!(request.query_string(), None);
    assert_eq!(request.body(), None);
    assert!(request.headers().is_empty());
}

#[test]
fn every_recognised_method_parses() {
    let cases = [
        ("GET", HttpMethod::GET),
        ("POST", HttpMethod::POST),
        ("PUT", HttpMethod::PUT),
        ("DELETE", HttpMethod::DELETE),
        ("HEAD", HttpMethod::HEAD),
        ("OPTIONS", HttpMethod::OPTIONS),
        ("TRACE", HttpMethod::TRACE),
    ];
    for (name, method) in cases {
        let line = format!("{} /x HTTP/1.0", name);
        let request = parse(&[line.as_str()]).unwrap();
        assert_eq!(request.method(), method);
        assert_eq!(request.path(), "/x");
        assert_eq!(request.version(), "HTTP/1.0");
    }
}

#[test]
fn method_is_recognised_in_any_case() {
    assert_eq!(parse(&["get / HTTP/1.1"]).unwrap().method(), HttpMethod::GET);
    assert_eq!(parse(&["Post / HTTP/1.1"]).unwrap().method(), HttpMethod::POST);
    assert_eq!(parse(&["dElEtE / HTTP/1.1"]).unwrap().method(), HttpMethod::DELETE);
}

#[test]
fn tokens_may_be_separated_by_any_whitespace() {
    let request = parse(&["  GET \t /a/b   HTTP/1.1  "]).unwrap();
    assert_eq!(request.method(), HttpMethod::GET);
    assert_eq!(request.path(), "/a/b");
    assert_eq!(request.version(), "HTTP/1.1");
    let request = parse(&["GET\u{3000}/wide\u{a0}HTTP/1.1"]).unwrap();
    assert_eq!(request.path(), "/wide");
}

#[test]
fn two_tokens_fail() {
    assert!(parse(&["GET /ping"]).is_err());
}

#[test]
fn four_or_more_tokens_fail() {
    assert!(parse(&["GET /ping HTTP/1.1 extra"]).is_err());
    assert!(parse(&["GET /ping HTTP/1.1 a b c"]).is_err());
}

#[test]
fn one_token_and_blank_line_fail() {
    assert!(parse(&["GET"]).is_err());
    assert!(parse(&[""]).is_err());
    assert!(parse(&["   "]).is_err());
}

#[test]
fn unrecognised_method_fails() {
    assert!(parse(&["PATCH /ping HTTP/1.1"]).is_err());
    assert!(parse(&["CONNECT /ping HTTP/1.1"]).is_err());
    assert!(parse(&["GETS /ping HTTP/1.1"]).is_err());
    assert!(parse(&["GE /ping HTTP/1.1"]).is_err());
}

#[test]
fn method_letters_outside_ascii_are_folded_too() {
    assert_eq!(parse(&["po\u{17f}t /x HTTP/1.1"]).unwrap().method(), HttpMethod::POST);
    assert_eq!(parse(&["opt\u{131}ons /x HTTP/1.1"]).unwrap().method(), HttpMethod::OPTIONS);
    assert_eq!(parse(&["po\u{fb06} /x HTTP/1.1"]).unwrap().method(), HttpMethod::POST);
    assert_eq!(parse(&["PO\u{fb05} /x HTTP/1.1"]).unwrap().method(), HttpMethod::POST);
    assert!(parse(&["p\u{f6}st /x HTTP/1.1"]).is_err());
    assert!(parse(&["\u{212a}ET /x HTTP/1.1"]).is_err());
}

#[test]
fn no_lines_fail() {
    assert!(parse(&[]).is_err());
}

#[test]
fn missing_peer_address_fails() {
    assert!(parse_http_request(&lines(&["GET /ping HTTP/1.1"]), None).is_err());
}

#[test]
fn headers_are_split_at_the_first_colon_space() {
    let request = parse(&[
        "GET / HTTP/1.1",
        "Host: example.org",
        "X-Note: a: b: c",
        "Accept: */*",
    ])
    .unwrap();
    let headers = request.headers();
    assert_eq!(headers.len(), 3);
    assert_eq!(headers.get("Host").unwrap(), "example.org");
    assert_eq!(headers.get("X-Note").unwrap(), "a: b: c");
    assert_eq!(headers.get("Accept").unwrap(), "*/*");
    assert_eq!(headers.get("host"), None);
}

#[test]
fn malformed_header_lines_are_skipped() {
    let request = parse(&["GET / HTTP/1.1", "no separator here", "Key:value", "A: 1", ":"]).unwrap();
    let headers = request.headers();
    assert_eq!(headers.len(), 1);
    assert_eq!(headers.get("A").unwrap(), "1");
}

#[test]
fn a_repeated_header_keeps_the_last_value() {
    let request = parse(&["GET / HTTP/1.1", "A: 1", "B: 2", "A: 3"]).unwrap();
    let headers = request.headers();
    assert_eq!(headers.len(), 2);
    assert_eq!(headers.get("A").unwrap(), "3");
    assert_eq!(headers.get("B").unwrap(), "2");
    assert_eq!(headers.key_at(0), "A");
    assert_eq!(headers.key_at(1), "B");
}

#[test]
fn header_name_and_value_may_be_empty() {
    let request = parse(&["GET / HTTP/1.1", ": v", "K: "]).unwrap();
    let headers = request.headers();
    assert_eq!(headers.get("").unwrap(), "v");
    assert_eq!(headers.get("K").unwrap(), "");
}

#[test]
fn lines_after_the_empty_line_are_the_body() {
    let request = parse(&["POST /submit HTTP/1.1", "A: 1", "", "first", "second", "", "last"]).unwrap();
    assert_eq!(request.headers().len(), 1);
    assert_eq!(request.body().unwrap(), "first\r\nsecond\r\n\r\nlast");
}

#[test]
fn a_single_body_line_is_the_body() {
    let request = parse(&["POST /submit HTTP/1.1", "", "only"]).unwrap();
    assert_eq!(request.body().unwrap(), "only");
}

#[test]
fn head_without_more_lines_has_no_body() {
    assert_eq!(parse(&["GET / HTTP/1.1", "A: 1"]).unwrap().body(), None);
    assert_eq!(parse(&["GET / HTTP/1.1", "A: 1", ""]).unwrap().body(), None);
}

#[test]
fn headers_after_the_empty_line_are_body_not_headers() {
    let request = parse(&["GET / HTTP/1.1", "", "B: 2"]).unwrap();
    assert!(request.headers().is_empty());
    assert_eq!(request.body().unwrap(), "B: 2");
}

#[test]
fn target_with_query_only() {
    let request = parse(&["GET /search?q=rust&n=1 HTTP/1.1"]).unwrap();
    assert_eq!(request.path(), "/search");
    assert_eq!(request.hash(), None);
    assert_eq!(request.query_string().unwrap(), "q=rust&n=1");
}

#[test]
fn target_with_fragment_only() {
    let request = parse(&["GET /doc#part HTTP/1.1"]).unwrap();
    assert_eq!(request.path(), "/doc");
    assert_eq!(request.hash().unwrap(), "part");
    assert_eq!(request.query_string(), None);
}

#[test]
fn target_with_fragment_then_query() {
    let request = parse(&["GET /doc#part?a=1?b HTTP/1.1"]).unwrap();
    assert_eq!(request.path(), "/doc");
    assert_eq!(request.hash().unwrap(), "part");
    assert_eq!(request.query_string().unwrap(), "a=1?b");
}

#[test]
fn target_with_query_then_fragment_keeps_the_query_in_the_path() {
    let request = parse(&["GET /doc?a=1#part HTTP/1.1"]).unwrap();
    assert_eq!(request.path(), "/doc?a=1");
    assert_eq!(request.hash().unwrap(), "part");
    assert_eq!(request.query_string(), None);
}

#[test]
fn target_parts_may_be_empty() {
    let target = parse_target("#");
    assert_eq!(target.path, "");
    assert_eq!(target.hash.unwrap(), "");
    assert_eq!(target.query_string, None);
    let target = parse_target("?");
    assert_eq!(target.path, "");
    assert_eq!(target.hash, None);
    assert_eq!(target.query_string.unwrap(), "");
    let target = parse_target("/a#?");
    assert_eq!(target.path, "/a");
    assert_eq!(target.hash.unwrap(), "");
    assert_eq!(target.query_string.unwrap(), "");
}

#[test]
fn target_outside_ascii_is_cut_by_characters() {
    let target = parse_target("/caf\u{e9}/\u{4e2d}\u{6587}?k=\u{e9}#x");
    assert_eq!(target.path, "/caf\u{e9}/\u{4e2d}\u{6587}?k=\u{e9}");
    assert_eq!(target.hash.unwrap(), "x");
    let target = parse_target("/\u{4e2d}?\u{6587}=1");
    assert_eq!(target.path, "/\u{4e2d}");
    assert_eq!(target.query_string.unwrap(), "\u{6587}=1");
}

#[test]
fn header_line_parts() {
    assert_eq!(parse_header("A: b"), Some(("A".to_string(), "b".to_string())));
    assert_eq!(parse_header("A:b"), None);
    assert_eq!(parse_header(""), None);
    assert_eq!(parse_header(": "), Some(("".to_string(), "".to_string())));
    assert_eq!(parse_header("a : b: c"), Some(("a ".to_string(), "b: c".to_string())));
}

use mini_http::headers::HeaderMap;
use mini_http::middleware::{Context, HttpHandler, MiddlewareChain, MiddlewareFunc};
use mini_http::response::{pong, ContentSource, HttpResponse, Payload};
use mini_http::server::HttpServer;

struct NoHandler;

impl HttpHandler for NoHandler {
    fn call(&self, _ctx: &mut Context) {}
}

struct NoMiddleware;

impl MiddlewareFunc<NoHandler> for NoMiddleware {
    fn call(&self, _chain: &mut MiddlewareChain<'_, NoHandler, NoMiddleware>, _ctx: &mut Context) {}
}

fn server() -> HttpServer<NoHandler, NoMiddleware> {
    HttpServer::new("addr".to_string())
}

fn s(text: &str) -> String {
    text.to_string()
}

#[test]
fn constructors_set_status_headers_and_source() {
    let r = HttpResponse::new(204);
    assert_eq!(r.status_code, 204);
    assert!(r.headers.is_none() && r.body.is_none() && r.view.is_none() && r.file.is_none());
    assert_eq!(r.content_source(), ContentSource::Empty);

    let r = HttpResponse::json(s("{}"));
    assert_eq!(r.status_code, 200);
    assert_eq!(r.body.as_deref(), Some("{}"));
    assert!(r.view.is_none() && r.file.is_none());
    let h = r.headers.as_ref().unwrap();
    assert_eq!(h.len(), 1);
    assert_eq!(h.get("Content-Type").unwrap(), "application/json");
    assert_eq!(r.content_source(), ContentSource::Body);

    let r = HttpResponse::view(s("index.html"));
    assert_eq!(r.status_code, 200);
    assert_eq!(r.view.as_deref(), Some("index.html"));
    assert!(r.body.is_none() && r.file.is_none());
    assert_eq!(r.headers.as_ref().unwrap().get("Content-Type").unwrap(), "text/html");
    assert_eq!(r.content_source(), ContentSource::View);

    let r = HttpResponse::file(s("./static/a.png"));
    assert_eq!(r.status_code, 200);
    assert_eq!(r.file.as_deref(), Some("./static/a.png"));
    assert!(r.body.is_none() && r.view.is_none());
    assert_eq!(r.headers.as_ref().unwrap().get("Content-Type").unwrap(), "text/html");
    assert_eq!(r.content_source(), ContentSource::File);
}

#[test]
fn builders_change_one_part() {
    let r = HttpResponse::new(200).status_code(500);
    assert_eq!(r.status_code, 500);
    assert!(r.headers.is_none());

    let r = HttpResponse::new(200).body(s("text"));
    assert_eq!(r.body.as_deref(), Some("text"));
    assert_eq!(r.status_code, 200);

    let r = HttpResponse::new(200).add_header(s("A"), s("1")).add_header(s("B"), s("2")).add_header(s("A"), s("3"));
    let h = r.headers.as_ref().unwrap();
    assert_eq!(h.len(), 2);
    assert_eq!(h.get("A").unwrap(), "3");
    assert_eq!(h.key_at(0), "A");
    assert_eq!(h.key_at(1), "B");

    let mut map = HeaderMap::new();
    map.insert(s("X"), s("y"));
    let r = HttpResponse::json(s("{}")).headers(map);
    let h = r.headers.as_ref().unwrap();
    assert_eq!(h.len(), 1);
    assert_eq!(h.get("X").unwrap(), "y");
    assert_eq!(r.body.as_deref(), Some("{}"));
}

#[test]
fn body_comes_before_view_and_view_before_file() {
    let mut r = HttpResponse::file(s("f"));
    assert_eq!(r.content_source(), ContentSource::File);
    r.view = Some(s("v"));
    assert_eq!(r.content_source(), ContentSource::View);
    let r = r.body(s("b"));
    assert_eq!(r.content_source(), ContentSource::Body);
}

#[test]
fn head_of_a_response_without_headers() {
    let head = server().write_response_line_header(&HttpResponse::new(404));
    assert_eq!(head, "HTTP/1.1 404 Not Found\r\n\r\n");
}

#[test]
fn head_lists_headers_in_their_order() {
    let r = HttpResponse::json(s("{}")).add_header(s("X-B"), s("2")).add_header(s("X-A"), s("1"));
    let head = server().write_response_line_header(&r);
    assert_eq!(
        head,
        "HTTP/1.1 200 OK\r\nContent-Type: application/json\r\nX-B: 2\r\nX-A: 1\r\n\r\n"
    );
}

#[test]
fn head_with_empty_header_map() {
    let r = HttpResponse::new(200).headers(HeaderMap::new());
    assert_eq!(server().write_response_line_header(&r), "HTTP/1.1 200 OK\r\n\r\n");
}

#[test]
fn reason_phrases() {
    let cases = [
        (200, "OK"),
        (400, "Bad Request"),
        (401, "Unauthorized"),
        (403, "Forbidden"),
        (404, "Not Found"),
        (500, "Internal Server Error"),
        (201, "Unknown Error"),
        (302, "Unknown Error"),
        (0, "Unknown Error"),
        (7, "Unknown Error"),
        (65535, "Unknown Error"),
    ];
    for (code, reason) in cases {
        let head = server().write_response_line_header(&HttpResponse::new(code));
        assert_eq!(head, format!("HTTP/1.1 {} {}\r\n\r\n", code, reason));
    }
}

#[test]
fn inline_body_goes_out_after_the_head() {
    for opened in [false, true] {
        let out = server().handler_response(HttpResponse::json(s("{\"msg\": \"pong\"}")), opened);
        assert_eq!(out.head, "HTTP/1.1 200 OK\r\nContent-Type: application/json\r\n\r\n");
        assert!(matches!(out.payload, Payload::Inline(ref b) if b == "{\"msg\": \"pong\"}"));
    }
}

#[test]
fn empty_response_is_its_head() {
    for opened in [false, true] {
        let out = server().handler_response(HttpResponse::new(500), opened);
        assert_eq!(out.head, "HTTP/1.1 500 Internal Server Error\r\n\r\n");
        assert!(matches!(out.payload, Payload::Nothing));
    }
}

#[test]
fn opened_file_gets_its_content_type() {
    let out = server().handler_response(HttpResponse::file(s("./static/app.json")), true);
    assert_eq!(out.head, "HTTP/1.1 200 OK\r\nContent-Type: application/json\r\n\r\n");
    assert!(matches!(out.payload, Payload::Stream));

    let out = server().handler_response(HttpResponse::file(s("./static/data.bin")), true);
    assert_eq!(out.head, "HTTP/1.1 200 OK\r\nContent-Type: application/octet-stream\r\n\r\n");
    assert!(matches!(out.payload, Payload::Stream));
}

#[test]
fn opened_file_keeps_the_place_of_its_content_type() {
    let r = HttpResponse::new(200)
        .add_header(s("A"), s("1"))
        .add_header(s("Content-Type"), s("text/plain"))
        .add_header(s("B"), s("2"));
    let mut r = r;
    r.file = Some(s("logo.PNG"));
    let out = server().handler_response(r, true);
    assert_eq!(out.head, "HTTP/1.1 200 OK\r\nA: 1\r\nContent-Type: image/png\r\nB: 2\r\n\r\n");
}

#[test]
fn opened_file_without_headers_gets_its_content_type() {
    let mut r = HttpResponse::new(200);
    r.file = Some(s("x.css"));
    let out = server().handler_response(r, true);
    assert_eq!(out.head, "HTTP/1.1 200 OK\r\nContent-Type: text/css\r\n\r\n");
    assert!(matches!(out.payload, Payload::Stream));

    let mut r = HttpResponse::new(200).headers(HeaderMap::new());
    r.file = Some(s("a.css"));
    let out = server().handler_response(r, true);
    assert_eq!(out.head, "HTTP/1.1 200 OK\r\nContent-Type: text/css\r\n\r\n");
}

#[test]
fn missing_file_becomes_404_without_content_type() {
    let r = HttpResponse::file(s("./static/none.html")).add_header(s("X"), s("1"));
    let out = server().handler_response(r, false);
    assert_eq!(out.head, "HTTP/1.1 404 Not Found\r\nX: 1\r\n\r\n");
    assert!(matches!(out.payload, Payload::Nothing));
}

#[test]
fn missing_view_becomes_404_without_content_type() {
    let out = server().handler_response(HttpResponse::view(s("none.html")), false);
    assert_eq!(out.head, "HTTP/1.1 404 Not Found\r\n\r\n");
    assert!(matches!(out.payload, Payload::Nothing));
}

#[test]
fn missing_content_without_headers_becomes_404() {
    let mut r = HttpResponse::new(200);
    r.view = Some(s("v"));
    let out = server().handler_response(r, false);
    assert_eq!(out.head, "HTTP/1.1 404 Not Found\r\n\r\n");
}

#[test]
fn opened_view_keeps_its_headers() {
    let out = server().handler_response(HttpResponse::view(s("index.json")), true);
    assert_eq!(out.head, "HTTP/1.1 200 OK\r\nContent-Type: text/html\r\n\r\n");
    assert!(matches!(out.payload, Payload::Stream));
}

#[test]
fn pong_text() {
    assert_eq!(pong("2024-01-02 03:04:05"), "HTTP/1.1 200 OK\r\n\r\npong at 2024-01-02 03:04:05");
    assert_eq!(pong(""), "HTTP/1.1 200 OK\r\n\r\npong at ");
}

#[test]
fn view_is_looked_for_under_the_view_root() {
    let mut with_root = server();
    with_root.view_root = Some(s("./templates"));
    let expected = std::path::Path::new("./templates").join("index.html");
    assert_eq!(with_root.view_path("index.html"), expected.to_str().unwrap());
    assert_ne!(with_root.view_path("index.html"), "./templates");
    assert_ne!(with_root.view_path("index.html"), "index.html");
    assert_eq!(server().view_path("index.html"), "index.html");
}

#[test]
fn path_of_the_content_to_open() {
    let mut with_root = server();
    with_root.view_root = Some(s("views"));
    let expected = std::path::Path::new("views").join("a.html");
    assert_eq!(with_root.content_path(&HttpResponse::view(s("a.html"))).unwrap(), expected.to_str().unwrap());
    assert_eq!(server().content_path(&HttpResponse::view(s("a.html"))).unwrap(), "a.html");
    assert_eq!(with_root.content_path(&HttpResponse::file(s("./static/a.png"))).unwrap(), "./static/a.png");
    assert_eq!(with_root.content_path(&HttpResponse::json(s("{}"))), None);
    assert_eq!(with_root.content_path(&HttpResponse::new(200)), None);
    assert_eq!(with_root.content_path(&HttpResponse::file(s("f")).body(s("b"))), None);
}

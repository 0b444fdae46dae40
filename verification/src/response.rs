//! Responses, and the text of a response head.
use crate::headers::{inserted, removed, HeaderMap};
use crate::mime_type::content_type;
use crate::text::{decimal, opt_view};
use vstd::prelude::*;
use vstd::string::*;

verus! {

/// What a response holds, as plain values.
pub struct ResponseView {
    pub status_code: u16,
    pub headers: Option<Seq<(Seq<char>, Seq<char>)>>,
    pub body: Option<Seq<char>>,
    pub view: Option<Seq<char>>,
    pub file: Option<Seq<char>>,
}

/// A response: a status code, optional headers, and up to three content
/// sources. Where more than one source is set, the writer takes the inline
/// body before the view, and the view before the file.
#[derive(Debug)]
pub struct HttpResponse {
    pub status_code: u16,
    pub headers: Option<HeaderMap>,
    pub body: Option<String>,
    pub view: Option<String>,
    pub file: Option<String>,
}

impl View for HttpResponse {
    type V = ResponseView;

    open spec fn view(&self) -> ResponseView {
        ResponseView {
            status_code: self.status_code,
            headers: match self.headers {
                Some(h) => Some(h@),
                None => None,
            },
            body: opt_view(self.body),
            view: opt_view(self.view),
            file: opt_view(self.file),
        }
    }
}

/// The content source that the writer serves a response from.
#[derive(Debug, Clone, Copy, PartialEq, Eq, Structural)]
pub enum ContentSource {
    /// The inline body.
    Body,
    /// A named view, resolved against the view root.
    View,
    /// A file, whose content type follows from its extension.
    File,
    /// Nothing: the response is its head alone.
    Empty,
}

/// What follows the head on the wire.
#[derive(Debug)]
pub enum Payload {
    /// This text.
    Inline(String),
    /// The bytes of the file that was opened for the response.
    Stream,
    /// Nothing.
    Nothing,
}

/// A response as it goes out: the text of its head, and what follows it.
#[derive(Debug)]
pub struct Outgoing {
    pub head: String,
    pub payload: Payload,
}

/// The single header that the content constructors start from.
pub open spec fn content_type_header(value: Seq<char>) -> Seq<(Seq<char>, Seq<char>)> {
    seq![("Content-Type"@, value)]
}

/// The source that the writer takes for `r`: the body before the view, the
/// view before the file.
pub open spec fn content_source(r: ResponseView) -> ContentSource {
    if r.body is Some {
        ContentSource::Body
    } else if r.view is Some {
        ContentSource::View
    } else if r.file is Some {
        ContentSource::File
    } else {
        ContentSource::Empty
    }
}

/// The reason phrase that goes with a status code.
pub open spec fn reason_phrase(code: u16) -> Seq<char> {
    if code == 200 {
        "OK"@
    } else if code == 400 {
        "Bad Request"@
    } else if code == 401 {
        "Unauthorized"@
    } else if code == 403 {
        "Forbidden"@
    } else if code == 404 {
        "Not Found"@
    } else if code == 500 {
        "Internal Server Error"@
    } else {
        "Unknown Error"@
    }
}

/// The status line, with its line end.
pub open spec fn status_line(code: u16) -> Seq<char> {
    "HTTP/1.1 "@ + decimal(code as nat) + " "@ + reason_phrase(code) + "\r\n"@
}

/// One line per entry, `name: value`, each with its line end, in the order of the entries.
pub open spec fn header_lines(entries: Seq<(Seq<char>, Seq<char>)>) -> Seq<char>
    decreases entries.len(),
{
    if entries.len() == 0 {
        Seq::empty()
    } else {
        header_lines(entries.drop_last()) + entries.last().0 + ": "@ + entries.last().1 + "\r\n"@
    }
}

/// The head of a response: status line, header lines, and the empty line that ends it.
pub open spec fn head_text(r: ResponseView) -> Seq<char> {
    status_line(r.status_code) + (match r.headers {
        Some(h) => header_lines(h),
        None => Seq::empty(),
    }) + "\r\n"@
}

/// `r` turned into the answer for content that could not be opened: status
/// 404, and no `Content-Type` header.
pub open spec fn not_found(r: ResponseView) -> ResponseView {
    ResponseView {
        status_code: 404,
        headers: match r.headers {
            Some(h) => Some(removed(h, "Content-Type"@)),
            None => None,
        },
        ..r
    }
}

/// The headers of `r`, none where it has no header mapping.
pub open spec fn headers_or_empty(r: ResponseView) -> Seq<(Seq<char>, Seq<char>)> {
    match r.headers {
        Some(h) => h,
        None => Seq::empty(),
    }
}

/// `r` with its `Content-Type` header set by the extension of its file. A
/// response without header mapping gets one that holds this header.
pub open spec fn with_file_type(r: ResponseView) -> ResponseView {
    ResponseView {
        headers: match r.file {
            Some(f) => Some(inserted(headers_or_empty(r), "Content-Type"@, content_type(f))),
            None => r.headers,
        },
        ..r
    }
}

/// The response whose head is written for `r`, given whether the content that
/// `r` names could be opened. `opened` matters for a view and for a file only.
pub open spec fn amended(r: ResponseView, opened: bool) -> ResponseView {
    match content_source(r) {
        ContentSource::Body => r,
        ContentSource::Empty => r,
        ContentSource::View => if opened {
            r
        } else {
            not_found(r)
        },
        ContentSource::File => if opened {
            with_file_type(r)
        } else {
            not_found(r)
        },
    }
}

impl HttpResponse {
    /// A response that serves the file at `path`.
    pub fn file(path: String) -> (r: HttpResponse)
        ensures
            r@ == (ResponseView {
                status_code: 200,
                headers: Some(content_type_header("text/html"@)),
                body: None,
                view: None,
                file: Some(path@),
            }),
    {
        HttpResponse {
            status_code: 200,
            headers: Some(single_header("text/html")),
            body: None,
            view: None,
            file: Some(path),
        }
    }

    /// A response that serves the view named `view_name`.
    pub fn view(view_name: String) -> (r: HttpResponse)
        ensures
            r@ == (ResponseView {
                status_code: 200,
                headers: Some(content_type_header("text/html"@)),
                body: None,
                view: Some(view_name@),
                file: None,
            }),
    {
        HttpResponse {
            status_code: 200,
            headers: Some(single_header("text/html")),
            body: None,
            view: Some(view_name),
            file: None,
        }
    }

    /// A response with the JSON text `json` as its body.
    pub fn json(json: String) -> (r: HttpResponse)
        ensures
            r@ == (ResponseView {
                status_code: 200,
                headers: Some(content_type_header("application/json"@)),
                body: Some(json@),
                view: None,
                file: None,
            }),
    {
        HttpResponse {
            status_code: 200,
            headers: Some(single_header("application/json")),
            body: Some(json),
            view: None,
            file: None,
        }
    }

    /// A response with a status code and nothing else.
    pub fn new(status_code: u16) -> (r: HttpResponse)
        ensures
            r@ == (ResponseView { status_code, headers: None, body: None, view: None, file: None }),
    {
        HttpResponse { status_code, headers: None, body: None, view: None, file: None }
    }

    /// This response with another status code.
    pub fn status_code(self, status_code: u16) -> (r: HttpResponse)
        ensures
            r@ == (ResponseView { status_code, ..self@ }),
    {
        let mut r = self;
        r.status_code = status_code;
        r
    }

    /// This response with `headers` in place of its own.
    pub fn headers(self, headers: HeaderMap) -> (r: HttpResponse)
        ensures
            r@ == (ResponseView { headers: Some(headers@), ..self@ }),
    {
        let mut r = self;
        r.headers = Some(headers);
        r
    }

    /// This response with `value` written for the header `key`.
    pub fn add_header(self, key: String, value: String) -> (r: HttpResponse)
        ensures
            r@ == (ResponseView {
                headers: Some(inserted(headers_or_empty(self@), key@, value@)),
                ..self@
            }),
    {
        let HttpResponse { status_code, headers, body, view, file } = self;
        let mut map = match headers {
            Some(h) => h,
            None => HeaderMap::new(),
        };
        map.insert(key, value);
        HttpResponse { status_code, headers: Some(map), body, view, file }
    }

    /// This response with `body` as its inline body.
    pub fn body(self, body: String) -> (r: HttpResponse)
        ensures
            r@ == (ResponseView { body: Some(body@), ..self@ }),
    {
        let mut r = self;
        r.body = Some(body);
        r
    }

    /// The source that the writer serves this response from.
    pub fn content_source(&self) -> (s: ContentSource)
        ensures
            s == content_source(self@),
    {
        if self.body.is_some() {
            ContentSource::Body
        } else if self.view.is_some() {
            ContentSource::View
        } else if self.file.is_some() {
            ContentSource::File
        } else {
            ContentSource::Empty
        }
    }
}

/// The whole answer of the liveness probe: an empty head with status 200,
/// and a body that names the time `now`.
pub fn pong(now: &str) -> (text: String)
    ensures
        text@ == "HTTP/1.1 200 OK\r\n\r\npong at "@ + now@,
{
    let mut text = String::from_str("HTTP/1.1 200 OK\r\n\r\npong at ");
    text.append(now);
    text
}

/// A header map that holds `Content-Type: value` and nothing else.
fn single_header(value: &str) -> (m: HeaderMap)
    ensures
        m@ == content_type_header(value@),
{
    let mut m = HeaderMap::new();
    m.insert(String::from_str("Content-Type"), String::from_str(value));
    assert(!crate::headers::has_key(Seq::<(Seq<char>, Seq<char>)>::empty(), "Content-Type"@));
    assert(m@ =~= content_type_header(value@));
    m
}

} // verus!

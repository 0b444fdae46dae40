//! The server: its routes and middlewares, how a request finds them, and how
//! a response is written.
use crate::headers::HeaderMap;
use crate::method::HttpMethod;
use crate::middleware::{targets, ChainStep, ChainView, Context, HttpHandler, Middleware,
    MiddlewareChain, MiddlewareFunc, RequestMapping};
use crate::mime_type::get_content_type;
use crate::request::{HttpRequest, RequestView};
use crate::response::{amended, content_source, head_text, header_lines, not_found, status_line,
    with_file_type, ContentSource, HttpResponse, Outgoing, Payload, ResponseView, reason_phrase};
use crate::text::{opt_view, push_decimal, starts_with, str_eq, to_chars};
use vstd::prelude::*;
use vstd::string::*;

verus! {

/// A pattern that ends in the two-character wildcard `**`.
pub open spec fn is_wildcard(pattern: Seq<char>) -> bool {
    pattern.len() >= 2 && pattern[pattern.len() - 1] == '*' && pattern[pattern.len() - 2] == '*'
}

/// A wildcard pattern without its wildcard.
pub open spec fn wildcard_prefix(pattern: Seq<char>) -> Seq<char> {
    pattern.take(pattern.len() - 2)
}

/// A method filter lets `method` pass: it is absent, or it is that method.
pub open spec fn method_allows(filter: Option<HttpMethod>, method: HttpMethod) -> bool {
    filter is None || filter == Some(method)
}

/// A route pattern matches a path: they are equal, or the pattern is a
/// wildcard and the path starts with what stands before the wildcard.
pub open spec fn route_pattern_matches(pattern: Seq<char>, path: Seq<char>) -> bool {
    pattern == path || (is_wildcard(pattern) && wildcard_prefix(pattern).is_prefix_of(path))
}

/// A middleware pattern matches a path: the pattern is the catch-all `/**`,
/// or a wildcard with the path standing before the wildcard, or the path itself.
pub open spec fn middleware_pattern_matches(pattern: Seq<char>, path: Seq<char>) -> bool {
    pattern == "/**"@ || (is_wildcard(pattern) && wildcard_prefix(pattern) == path) || pattern
        == path
}

/// The route `mapping` is for the request `request`.
pub open spec fn route_matches<H>(mapping: RequestMapping<H>, request: RequestView) -> bool {
    method_allows(mapping.method, request.method) && route_pattern_matches(
        mapping.path@,
        request.path,
    )
}

/// The middleware `middleware` is for the request `request`.
pub open spec fn middleware_matches<M>(middleware: Middleware<M>, request: RequestView) -> bool {
    method_allows(middleware.method, request.method) && middleware_pattern_matches(
        middleware.path@,
        request.path,
    )
}

/// `i` is the first route that is for `request`.
pub open spec fn first_route<H>(handlers: Seq<RequestMapping<H>>, request: RequestView, i: int) -> bool {
    &&& 0 <= i < handlers.len()
    &&& route_matches(handlers[i], request)
    &&& forall|j: int| 0 <= j < i ==> !route_matches(#[trigger] handlers[j], request)
}

/// No route is for `request`.
pub open spec fn no_route<H>(handlers: Seq<RequestMapping<H>>, request: RequestView) -> bool {
    forall|j: int| 0 <= j < handlers.len() ==> !route_matches(#[trigger] handlers[j], request)
}

/// The middlewares that are for `request`, in the order of `middlewares`.
pub open spec fn matching_middlewares<M>(
    middlewares: Seq<Middleware<M>>,
    request: RequestView,
) -> Seq<Middleware<M>> {
    middlewares.filter(|m: Middleware<M>| middleware_matches(m, request))
}

/// The path `name` joined to the path `root`, as the standard library's
/// `Path::join` joins them on the platform that the library is built for.
pub uninterp spec fn joined_path(root: Seq<char>, name: Seq<char>) -> Seq<char>;

/// The path of the view named `view` under an optional view root: the name
/// joined to the root, or the name itself where there is no root.
pub open spec fn resolved_view(view_root: Option<Seq<char>>, view: Seq<char>) -> Seq<char> {
    match view_root {
        Some(root) => joined_path(root, view),
        None => view,
    }
}

/// The response to a request that no route is for.
pub open spec fn no_route_response() -> ResponseView {
    ResponseView { status_code: 404, headers: None, body: None, view: None, file: None }
}

/// A server: where it listens, its middlewares and routes in the order of
/// their registration, and the directory of its views.
pub struct HttpServer<H, M> {
    pub address: String,
    pub middlewares: Vec<Middleware<M>>,
    pub handlers: Vec<RequestMapping<H>>,
    pub view_root: Option<String>,
}

impl<H, M> HttpServer<H, M> {
    /// A server for `address` without routes, middlewares and view directory.
    pub fn new(address: String) -> (server: Self)
        ensures
            server.address == address,
            server.middlewares@.len() == 0,
            server.handlers@.len() == 0,
            server.view_root is None,
    {
        HttpServer { address, middlewares: Vec::new(), handlers: Vec::new(), view_root: None }
    }

    /// Registers `middleware` after those that are registered.
    pub fn add_middleware(&mut self, middleware: Middleware<M>)
        ensures
            final(self).middlewares@ == old(self).middlewares@.push(middleware),
            final(self).handlers == old(self).handlers,
            final(self).address == old(self).address,
            final(self).view_root == old(self).view_root,
    {
        self.middlewares.push(middleware)
    }

    /// Registers `handler` for `method` and the pattern `path`, after the
    /// routes that are registered.
    pub fn add_handler(&mut self, method: HttpMethod, path: String, handler: H)
        ensures
            final(self).handlers@ == old(self).handlers@.push(
                RequestMapping { method: Some(method), path, handler },
            ),
            final(self).middlewares == old(self).middlewares,
            final(self).address == old(self).address,
            final(self).view_root == old(self).view_root,
    {
        self.handlers.push(RequestMapping { method: Some(method), handler, path });
    }

    /// Registers `handler` for every method and the pattern `path`, after the
    /// routes that are registered.
    pub fn add_any_method_handler(&mut self, path: String, handler: H)
        ensures
            final(self).handlers@ == old(self).handlers@.push(
                RequestMapping { method: None, path, handler },
            ),
            final(self).middlewares == old(self).middlewares,
            final(self).address == old(self).address,
            final(self).view_root == old(self).view_root,
    {
        self.handlers.push(RequestMapping { method: None, handler, path });
    }

    /// Whether the route `mapping` is for `request`.
    pub fn is_match(&self, request: &HttpRequest, mapping: &RequestMapping<H>) -> (b: bool)
        ensures
            b == route_matches(*mapping, request@),
    {
        if !method_passes(&mapping.method, request.method()) {
            return false;
        }
        if str_eq(mapping.path.as_str(), request.path().as_str()) {
            return true;
        }
        let pattern = to_chars(mapping.path.as_str());
        if ends_in_wildcard(&pattern) {
            let path = to_chars(request.path().as_str());
            return starts_with(&path, &pattern, pattern.len() - 2);
        }
        false
    }

    /// Whether `middleware` is for `request`.
    pub fn is_middleware_match(&self, request: &HttpRequest, middleware: &Middleware<M>) -> (b:
        bool)
        ensures
            b == middleware_matches(*middleware, request@),
    {
        if !method_passes(&middleware.method, request.method()) {
            return false;
        }
        if str_eq(middleware.path.as_str(), "/**") {
            return true;
        }
        if str_eq(middleware.path.as_str(), request.path().as_str()) {
            return true;
        }
        let pattern = to_chars(middleware.path.as_str());
        if ends_in_wildcard(&pattern) {
            let path = to_chars(request.path().as_str());
            let n: usize = pattern.len() - 2;
            let r = path.len() == n && starts_with(&path, &pattern, n);
            proof {
                let prefix = pattern@.take(n as int);
                if path@.len() == n {
                    if prefix.is_prefix_of(path@) {
                        assert(prefix =~= path@);
                    }
                }
            }
            return r;
        }
        false
    }

    /// The first route that is for `request`, by its place among the routes.
    pub fn find_handler(&self, request: &HttpRequest) -> (r: Option<usize>)
        ensures
            match r {
                Some(i) => first_route(self.handlers@, request@, i as int),
                None => no_route(self.handlers@, request@),
            },
    {
        let mut i: usize = 0;
        while i < self.handlers.len()
            invariant
                i <= self.handlers.len(),
                forall|j: int| 0 <= j < i ==> !route_matches(#[trigger] self.handlers@[j], request@),
            decreases self.handlers.len() - i,
        {
            if self.is_match(request, &self.handlers[i]) {
                return Some(i);
            }
            i = i + 1;
        }
        None
    }

    /// The middlewares that are for `request`, in the order of their registration.
    pub fn matched_middlewares(&self, request: &HttpRequest) -> (matched: Vec<&Middleware<M>>)
        ensures
            targets(matched@) == matching_middlewares(self.middlewares@, request@),
    {
        let mut matched: Vec<&Middleware<M>> = Vec::new();
        let mut i: usize = 0;
        let ghost keep = |m: Middleware<M>| middleware_matches(m, request@);
        proof {
            reveal(Seq::filter);
            assert(self.middlewares@.take(0) =~= Seq::<Middleware<M>>::empty());
            assert(targets(matched@) =~= self.middlewares@.take(0).filter(keep));
        }
        while i < self.middlewares.len()
            invariant
                i <= self.middlewares.len(),
                keep == |m: Middleware<M>| middleware_matches(m, request@),
                targets(matched@) == self.middlewares@.take(i as int).filter(keep),
            decreases self.middlewares.len() - i,
        {
            let middleware = &self.middlewares[i];
            let ghost before = targets(matched@);
            proof {
                self.middlewares@.take(i as int).lemma_filter_push(*middleware, keep);
                assert(self.middlewares@.take(i + 1) =~= self.middlewares@.take(i as int).push(
                    *middleware,
                ));
            }
            if self.is_middleware_match(request, middleware) {
                matched.push(middleware);
                assert(targets(matched@) =~= before.push(*middleware));
            }
            i = i + 1;
        }
        assert(self.middlewares@.take(self.middlewares@.len() as int) =~= self.middlewares@);
        matched
    }

    /// The chain and the context for `request`: the handler of the first route
    /// that is for it, the middlewares that are for it, and no response yet.
    /// `None` where no route is for the request.
    pub fn route(&self, request: HttpRequest) -> (r: Option<(MiddlewareChain<'_, H, M>, Context)>)
        ensures
            match r {
                Some((chain, ctx)) => {
                    &&& exists|i: int| #[trigger]
                        first_route(self.handlers@, request@, i) && chain@ == ChainView::start(
                            self.handlers@[i].handler,
                            matching_middlewares(self.middlewares@, request@),
                        )
                    &&& ctx.request == request
                    &&& ctx.response is None
                },
                None => no_route(self.handlers@, request@),
            },
    {
        match self.find_handler(&request) {
            None => None,
            Some(i) => {
                let matched = self.matched_middlewares(&request);
                let chain = MiddlewareChain::new(&self.handlers[i].handler, matched);
                assert(first_route(self.handlers@, request@, i as int));
                Some((chain, Context { request, response: None }))
            },
        }
    }

    /// The path of the view named `view`: the name itself without a view
    /// root, and the name joined to the view root with one.
    pub fn view_path(&self, view: &str) -> (path: String)
        ensures
            path@ == resolved_view(opt_view(self.view_root), view@),
    {
        match &self.view_root {
            Some(root) => join_path(root.as_str(), view),
            None => String::from_str(view),
        }
    }

    /// The path of the file to open for `response`: that of its view or of
    /// its file. A response with an inline body or without content needs none.
    pub fn content_path(&self, response: &HttpResponse) -> (path: Option<String>)
        ensures
            match content_source(response@) {
                ContentSource::Body => path is None,
                ContentSource::Empty => path is None,
                ContentSource::File => path matches Some(p) && Some(p@) == response@.file,
                ContentSource::View => path matches Some(p) && response@.view matches Some(v)
                    && p@ == resolved_view(opt_view(self.view_root), v),
            },
    {
        match response.content_source() {
            ContentSource::Body => None,
            ContentSource::Empty => None,
            ContentSource::File => match &response.file {
                Some(file) => Some(file.clone()),
                None => None,
            },
            ContentSource::View => match &response.view {
                Some(view) => Some(self.view_path(view.as_str())),
                None => None,
            },
        }
    }

    /// The text of the head of `response`: status line, headers in their
    /// order, and the empty line.
    pub fn write_response_line_header(&self, response: &HttpResponse) -> (head: String)
        ensures
            head@ == head_text(response@),
    {
        let mut out = String::from_str("HTTP/1.1 ");
        push_decimal(&mut out, response.status_code as u64);
        out.append(" ");
        out.append(reason(response.status_code));
        out.append("\r\n");
        assert(out@ =~= status_line(response.status_code));
        match &response.headers {
            Some(headers) => {
                let n: usize = headers.len();
                let mut i: usize = 0;
                assert(headers@.take(0) =~= Seq::<(Seq<char>, Seq<char>)>::empty());
                assert(out@ =~= status_line(response.status_code) + header_lines(headers@.take(0)));
                while i < n
                    invariant
                        i <= n,
                        n == headers@.len(),
                        out@ == status_line(response.status_code) + header_lines(
                            headers@.take(i as int),
                        ),
                    decreases n - i,
                {
                    let ghost next = headers@.take(i + 1);
                    assert(next.drop_last() =~= headers@.take(i as int));
                    assert(next.last() == headers@[i as int]);
                    out.append(headers.key_at(i).as_str());
                    out.append(": ");
                    out.append(headers.value_at(i).as_str());
                    out.append("\r\n");
                    assert(out@ =~= status_line(response.status_code) + header_lines(next));
                    i = i + 1;
                }
                assert(headers@.take(n as int) =~= headers@);
            },
            None => {
                assert(out@ =~= status_line(response.status_code) + Seq::<char>::empty());
            },
        }
        out.append("\r\n");
        out
    }

    /// What goes out for `response`, given whether the view or file that it
    /// names could be opened.
    ///
    /// A response with an inline body goes out as it is, and so does one
    /// without content. For a view or a file that was opened the head is
    /// followed by its bytes; a file then gets its `Content-Type` header from
    /// its extension, also where the response had no headers. For one that
    /// could not be opened the status becomes 404, the `Content-Type` header is
    /// taken out, and the head goes out alone.
    pub fn handler_response(&self, response: HttpResponse, opened: bool) -> (out: Outgoing)
        ensures
            out.head@ == head_text(amended(response@, opened)),
            match content_source(response@) {
                ContentSource::Body => out.payload matches Payload::Inline(body) && Some(body@)
                    == response@.body,
                ContentSource::View => out.payload == (if opened {
                    Payload::Stream
                } else {
                    Payload::Nothing
                }),
                ContentSource::File => out.payload == (if opened {
                    Payload::Stream
                } else {
                    Payload::Nothing
                }),
                ContentSource::Empty => out.payload == Payload::Nothing,
            },
    {
        let source = response.content_source();
        match source {
            ContentSource::Body => {
                let head = self.write_response_line_header(&response);
                let HttpResponse { status_code, headers, body, view, file } = response;
                match body {
                    Some(body) => Outgoing { head, payload: Payload::Inline(body) },
                    None => Outgoing { head, payload: Payload::Nothing },
                }
            },
            ContentSource::Empty => {
                let head = self.write_response_line_header(&response);
                Outgoing { head, payload: Payload::Nothing }
            },
            ContentSource::View => {
                if opened {
                    let head = self.write_response_line_header(&response);
                    Outgoing { head, payload: Payload::Stream }
                } else {
                    let head = self.write_response_line_header(&answer_not_found(response));
                    Outgoing { head, payload: Payload::Nothing }
                }
            },
            ContentSource::File => {
                if opened {
                    let head = self.write_response_line_header(&answer_with_file_type(response));
                    Outgoing { head, payload: Payload::Stream }
                } else {
                    let head = self.write_response_line_header(&answer_not_found(response));
                    Outgoing { head, payload: Payload::Nothing }
                }
            },
        }
    }
}

impl<H: HttpHandler, M: MiddlewareFunc<H>> HttpServer<H, M> {
    /// `response` is what one run of the chain for `request` leaves, where `i`
    /// is the route of the request, `chain` its fresh chain, and `chain_after`
    /// and `ctx_after` are the chain and the context after the run.
    ///
    /// The chain ends in the handler of the route and holds the middlewares
    /// that are for the request, in the order of their registration. It is
    /// continued once, from a context with the request and no response: that
    /// runs the first of its middlewares, which gets the chain moved past it
    /// and so standing at the second, or the handler where the chain holds no
    /// middleware. The response is
    /// what stands in the context afterwards.
    pub open spec fn chain_run(
        self,
        request: HttpRequest,
        i: int,
        chain: MiddlewareChain<'_, H, M>,
        chain_after: MiddlewareChain<'_, H, M>,
        ctx_after: Context,
        response: Option<HttpResponse>,
    ) -> bool {
        &&& first_route(self.handlers@, request@, i)
        &&& chain@ == ChainView::start(
            self.handlers@[i].handler,
            matching_middlewares(self.middlewares@, request@),
        )
        &&& chain.after_next()@ == chain@.after_next()
        &&& match chain@.step() {
            ChainStep::Halt => false,
            ChainStep::Middleware(k) => chain@.middlewares[k as int].handler.intercepts(
                chain.after_next(),
                Context { request, response: None },
                chain_after,
                ctx_after,
            ),
            ChainStep::Handler => chain@.handler.answers(
                Context { request, response: None },
                ctx_after,
            ),
        }
        &&& response == ctx_after.response
    }

    /// Answers `request`. Where no route is for it, the answer is 404 with
    /// nothing else, and no middleware and no handler runs. Otherwise the
    /// chain that [`HttpServer::route`] gives is continued once, and the answer
    /// is the response that the middlewares and the handler left in the context.
    pub fn dispatch_request(&self, request: HttpRequest) -> (r: Option<HttpResponse>)
        ensures
            no_route(self.handlers@, request@) ==> (r matches Some(response) && response@
                == no_route_response()),
            !no_route(self.handlers@, request@) ==> exists|
                i: int,
                chain: MiddlewareChain<'_, H, M>,
                chain_after: MiddlewareChain<'_, H, M>,
                ctx_after: Context,
            | #[trigger] self.chain_run(request, i, chain, chain_after, ctx_after, r),
    {
        match self.route(request) {
            None => Some(HttpResponse::new(404)),
            Some((chain, ctx)) => {
                let mut chain = chain;
                let mut ctx = ctx;
                let ghost fresh = chain;
                let ghost i = choose|i: int| #[trigger]
                    first_route(self.handlers@, request@, i) && fresh@ == ChainView::start(
                        self.handlers@[i].handler,
                        matching_middlewares(self.middlewares@, request@),
                    );
                assert(ctx == Context { request, response: None });
                chain.next(&mut ctx);
                assert(self.chain_run(request, i, fresh, chain, ctx, ctx.response));
                ctx.response
            },
        }
    }
}

/// Calls `Path::join` of the standard library on `root` and `name`. Nothing
/// is proved of it: the contract gives its result the name [`joined_path`],
/// which is to say that the path depends on the two texts alone.
#[verifier::external_body]
fn join_path(root: &str, name: &str) -> (path: String)
    ensures
        path@ == joined_path(root@, name@),
{
    std::path::Path::new(root).join(name).to_string_lossy().into_owned()
}

/// Whether a method filter lets `method` pass.
fn method_passes(filter: &Option<HttpMethod>, method: HttpMethod) -> (b: bool)
    ensures
        b == method_allows(*filter, method),
{
    match filter {
        Some(m) => *m == method,
        None => true,
    }
}

/// Whether a pattern ends in the wildcard.
fn ends_in_wildcard(pattern: &Vec<char>) -> (b: bool)
    ensures
        b == is_wildcard(pattern@),
{
    let n: usize = pattern.len();
    n >= 2 && pattern[n - 1] == '*' && pattern[n - 2] == '*'
}

/// The reason phrase that goes with a status code.
fn reason(code: u16) -> (s: &'static str)
    ensures
        s@ == reason_phrase(code),
{
    if code == 200 {
        "OK"
    } else if code == 400 {
        "Bad Request"
    } else if code == 401 {
        "Unauthorized"
    } else if code == 403 {
        "Forbidden"
    } else if code == 404 {
        "Not Found"
    } else if code == 500 {
        "Internal Server Error"
    } else {
        "Unknown Error"
    }
}

/// `response` as the answer for content that could not be opened.
fn answer_not_found(response: HttpResponse) -> (r: HttpResponse)
    ensures
        r@ == not_found(response@),
{
    let HttpResponse { status_code, headers, body, view, file } = response;
    let headers = match headers {
        Some(h) => {
            let mut h = h;
            h.remove("Content-Type");
            Some(h)
        },
        None => None,
    };
    HttpResponse { status_code: 404, headers, body, view, file }
}

/// `response` with the content type of its file.
fn answer_with_file_type(response: HttpResponse) -> (r: HttpResponse)
    ensures
        r@ == with_file_type(response@),
{
    let HttpResponse { status_code, headers, body, view, file } = response;
    let headers = match &file {
        Some(f) => {
            let mut h = match headers {
                Some(h) => h,
                None => HeaderMap::new(),
            };
            h.insert(
                String::from_str("Content-Type"),
                String::from_str(get_content_type(f.as_str())),
            );
            Some(h)
        },
        None => headers,
    };
    HttpResponse { status_code, headers, body, view, file }
}

} // verus!

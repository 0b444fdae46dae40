use mini_http::method::HttpMethod;
use mini_http::middleware::{ChainStep, Context, HttpHandler, Middleware, MiddlewareChain,
    MiddlewareFunc};
use mini_http::parser::parse_http_request;
use mini_http::request::HttpRequest;
use mini_http::response::HttpResponse;
use mini_http::server::HttpServer;
use std::cell::RefCell;
use std::rc::Rc;

type Log = Rc<RefCell<Vec<String>>>;

struct Handler {
    log: Log,
}

impl HttpHandler for Handler {
    fn call(&self, ctx: &mut Context) {
        self.log.borrow_mut().push("handler".to_string());
        ctx.set_response(HttpResponse::json("done".to_string()));
    }
}

#[derive(Clone, Copy, PartialEq)]
enum Kind {
    Next,
    Silent,
    Abort,
    AbortWithResponse,
    AbortThenNext,
    NextThenAbort,
    NextTwice,
}

struct Step {
    name: &'static str,
    kind: Kind,
    log: Log,
}

impl MiddlewareFunc<Handler> for Step {
    fn call(&self, chain: &mut MiddlewareChain<'_, Handler, Step>, ctx: &mut Context) {
        self.log.borrow_mut().push(self.name.to_string());
        match self.kind {
            Kind::Next => chain.next(ctx),
            Kind::Silent => {}
            Kind::Abort => chain.abort(),
            Kind::AbortWithResponse => {
                ctx.set_response(HttpResponse::new(401));
                chain.abort();
            }
            Kind::AbortThenNext => {
                ctx.set_response(HttpResponse::new(403));
                chain.abort();
                chain.next(ctx);
                chain.next(ctx);
            }
            Kind::NextThenAbort => {
                chain.next(ctx);
                chain.abort();
            }
            Kind::NextTwice => {
                chain.next(ctx);
                chain.next(ctx);
            }
        }
        self.log.borrow_mut().push(format!("{} back", self.name));
    }
}

fn request() -> HttpRequest {
    parse_http_request(&vec!["GET /a HTTP/1.1".to_string()], Some("peer".to_string())).unwrap()
}

fn run(kinds: &[(&'static str, Kind)]) -> (Vec<String>, Option<HttpResponse>) {
    let log: Log = Rc::new(RefCell::new(Vec::new()));
    let mut server: HttpServer<Handler, Step> = HttpServer::new("addr".to_string());
    for (name, kind) in kinds {
        server.add_middleware(Middleware::new(Step { name, kind: *kind, log: log.clone() }));
    }
    server.add_handler(HttpMethod::GET, "/a".to_string(), Handler { log: log.clone() });
    let response = server.dispatch_request(request());
    let entries = log.borrow().clone();
    (entries, response)
}

#[test]
fn chain_without_middlewares_runs_the_handler() {
    let (log, response) = run(&[]);
    assert_eq!(log, vec!["handler"]);
    assert_eq!(response.unwrap().body.unwrap(), "done");
}

#[test]
fn middlewares_run_in_order_around_the_handler() {
    let (log, response) = run(&[("a", Kind::Next), ("b", Kind::Next), ("c", Kind::Next)]);
    assert_eq!(log, vec!["a", "b", "c", "handler", "c back", "b back", "a back"]);
    assert_eq!(response.unwrap().body.unwrap(), "done");
}

#[test]
fn abort_before_next_stops_handler_and_later_middlewares() {
    let (log, response) = run(&[("a", Kind::Next), ("b", Kind::AbortWithResponse), ("c", Kind::Next)]);
    assert_eq!(log, vec!["a", "b", "b back", "a back"]);
    let response = response.unwrap();
    assert_eq!(response.status_code, 401);
    assert_eq!(response.body, None);
}

#[test]
fn abort_without_response_leaves_none() {
    let (log, response) = run(&[("a", Kind::Abort), ("b", Kind::Next)]);
    assert_eq!(log, vec!["a", "a back"]);
    assert!(response.is_none());
}

#[test]
fn next_after_abort_runs_nothing() {
    let (log, response) = run(&[("a", Kind::AbortThenNext), ("b", Kind::Next)]);
    assert_eq!(log, vec!["a", "a back"]);
    assert_eq!(response.unwrap().status_code, 403);
}

#[test]
fn middleware_that_does_not_continue_ends_the_chain() {
    let (log, response) = run(&[("a", Kind::Next), ("b", Kind::Silent), ("c", Kind::Next)]);
    assert_eq!(log, vec!["a", "b", "b back", "a back"]);
    assert!(response.is_none());
}

#[test]
fn abort_after_next_keeps_what_the_handler_set() {
    let (log, response) = run(&[("a", Kind::NextThenAbort), ("b", Kind::Next)]);
    assert_eq!(log, vec!["a", "b", "handler", "b back", "a back"]);
    assert_eq!(response.unwrap().body.unwrap(), "done");
}

#[test]
fn second_next_goes_on_from_where_the_chain_stands() {
    let (log, _) = run(&[("a", Kind::NextTwice), ("b", Kind::Silent), ("c", Kind::Next)]);
    assert_eq!(log, vec!["a", "b", "b back", "c", "handler", "c back", "a back"]);
}

#[test]
fn advance_walks_the_middlewares_then_stays_at_the_handler() {
    let log: Log = Rc::new(RefCell::new(Vec::new()));
    let handler = Handler { log: log.clone() };
    let a = Middleware::new(Step { name: "a", kind: Kind::Next, log: log.clone() });
    let b = Middleware::new(Step { name: "b", kind: Kind::Next, log: log.clone() });
    let mut chain = MiddlewareChain::new(&handler, vec![&a, &b]);
    assert!(!chain.is_abort());
    assert_eq!(chain.advance(), ChainStep::Middleware(0));
    assert_eq!(chain.advance(), ChainStep::Middleware(1));
    assert_eq!(chain.advance(), ChainStep::Handler);
    assert_eq!(chain.advance(), ChainStep::Handler);
    assert!(!chain.is_abort());
    assert!(log.borrow().is_empty());
}

#[test]
fn advance_on_an_aborted_chain_halts() {
    let log: Log = Rc::new(RefCell::new(Vec::new()));
    let handler = Handler { log: log.clone() };
    let a = Middleware::new(Step { name: "a", kind: Kind::Next, log: log.clone() });
    let b = Middleware::new(Step { name: "b", kind: Kind::Next, log: log.clone() });
    let mut chain = MiddlewareChain::new(&handler, vec![&a, &b]);
    assert_eq!(chain.advance(), ChainStep::Middleware(0));
    chain.abort();
    assert!(chain.is_abort());
    assert_eq!(chain.advance(), ChainStep::Halt);
    assert_eq!(chain.advance(), ChainStep::Halt);
    chain.abort();
    assert!(chain.is_abort());
    assert_eq!(chain.advance(), ChainStep::Halt);

    let mut fresh: MiddlewareChain<'_, Handler, Step> = MiddlewareChain::new(&handler, Vec::new());
    fresh.abort();
    assert_eq!(fresh.advance(), ChainStep::Halt);
}

#[test]
fn next_on_an_aborted_chain_leaves_the_context() {
    let log: Log = Rc::new(RefCell::new(Vec::new()));
    let handler = Handler { log: log.clone() };
    let a = Middleware::new(Step { name: "a", kind: Kind::Next, log: log.clone() });
    let mut chain = MiddlewareChain::new(&handler, vec![&a]);
    let mut ctx = Context { request: request(), response: None };
    chain.abort();
    chain.next(&mut ctx);
    assert!(ctx.response.is_none());
    assert!(log.borrow().is_empty());
    ctx.set_response(HttpResponse::new(500));
    chain.next(&mut ctx);
    assert_eq!(ctx.response.unwrap().status_code, 500);
    assert!(log.borrow().is_empty());
}

#[test]
fn set_response_replaces_the_response() {
    let mut ctx = Context { request: request(), response: None };
    ctx.set_response(HttpResponse::new(200));
    ctx.set_response(HttpResponse::new(400));
    assert_eq!(ctx.response.unwrap().status_code, 400);
    assert_eq!(ctx.request.path(), "/a");
}

#[test]
fn only_matching_middlewares_run() {
    let log: Log = Rc::new(RefCell::new(Vec::new()));
    let mut server: HttpServer<Handler, Step> = HttpServer::new("addr".to_string());
    let step = |name: &'static str| Step { name, kind: Kind::Next, log: log.clone() };
    server.add_middleware(Middleware::new(step("posts")).method(HttpMethod::POST));
    server.add_middleware(Middleware::new(step("all")));
    server.add_middleware(Middleware::new(step("other")).path("/b".to_string()));
    server.add_middleware(Middleware::new(step("here")).path("/a".to_string()).order(0));
    server.add_handler(HttpMethod::GET, "/a".to_string(), Handler { log: log.clone() });
    server.dispatch_request(request());
    assert_eq!(*log.borrow(), vec!["all", "here", "handler", "here back", "all back"]);
}

#[test]
fn no_route_runs_no_middleware() {
    let log: Log = Rc::new(RefCell::new(Vec::new()));
    let mut server: HttpServer<Handler, Step> = HttpServer::new("addr".to_string());
    server.add_middleware(Middleware::new(Step { name: "all", kind: Kind::Next, log: log.clone() }));
    server.add_handler(HttpMethod::GET, "/b".to_string(), Handler { log: log.clone() });
    let response = server.dispatch_request(request()).unwrap();
    assert_eq!(response.status_code, 404);
    assert!(log.borrow().is_empty());
}

fn request_for(target: &str) -> HttpRequest {
    let line = format!("GET {} HTTP/1.1", target);
    parse_http_request(&vec![line], Some("peer".to_string())).unwrap()
}

#[test]
fn wildcard_middleware_is_not_for_longer_paths() {
    let log: Log = Rc::new(RefCell::new(Vec::new()));
    let mut server: HttpServer<Handler, Step> = HttpServer::new("addr".to_string());
    let wildcard = Step { name: "api", kind: Kind::Next, log: log.clone() };
    server.add_middleware(Middleware::new(wildcard).path("/api/**".to_string()));
    server.add_any_method_handler("/api/**".to_string(), Handler { log: log.clone() });
    let response = server.dispatch_request(request_for("/api/users")).unwrap();
    assert_eq!(response.body.unwrap(), "done");
    assert_eq!(*log.borrow(), vec!["handler"]);
    log.borrow_mut().clear();
    server.dispatch_request(request_for("/api/"));
    assert_eq!(*log.borrow(), vec!["api", "handler", "api back"]);
}

#[test]
fn order_values_do_not_reorder_the_chain() {
    let log: Log = Rc::new(RefCell::new(Vec::new()));
    let mut server: HttpServer<Handler, Step> = HttpServer::new("addr".to_string());
    let step = |name: &'static str| Step { name, kind: Kind::Next, log: log.clone() };
    server.add_middleware(Middleware::new(step("ma")).order(5));
    server.add_middleware(Middleware::new(step("mb")).order(1));
    server.add_handler(HttpMethod::GET, "/a".to_string(), Handler { log: log.clone() });
    let response = server.dispatch_request(request()).unwrap();
    assert_eq!(response.body.unwrap(), "done");
    assert_eq!(*log.borrow(), vec!["ma", "mb", "handler", "mb back", "ma back"]);
}

#[test]
fn first_matching_route_runs_and_later_ones_do_not() {
    let first: Log = Rc::new(RefCell::new(Vec::new()));
    let second: Log = Rc::new(RefCell::new(Vec::new()));
    let mut server: HttpServer<Handler, Step> = HttpServer::new("addr".to_string());
    server.add_any_method_handler("/a/**".to_string(), Handler { log: first.clone() });
    server.add_handler(HttpMethod::GET, "/a/b".to_string(), Handler { log: second.clone() });
    server.dispatch_request(request_for("/a/b"));
    assert_eq!(*first.borrow(), vec!["handler"]);
    assert!(second.borrow().is_empty());
}

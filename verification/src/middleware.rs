//! Handlers, middlewares, and the chain that runs them for one request.
//!
//! A middleware gets the chain and the context of the request. It continues
//! the chain by calling [`MiddlewareChain::next`], which runs the next
//! middleware, or the handler once the middlewares are used up. A middleware
//! that returns without calling `next` ends the chain there. A middleware
//! that calls [`MiddlewareChain::abort`] ends it for good: from then on
//! `next` runs nothing.
use crate::method::HttpMethod;
use crate::request::HttpRequest;
use crate::response::HttpResponse;
use vstd::prelude::*;
use vstd::string::*;

verus! {

/// What handlers and middlewares work on: the request, and the response so far.
pub struct Context {
    pub request: HttpRequest,
    pub response: Option<HttpResponse>,
}

impl Context {
    /// Makes `response` the response of the request.
    pub fn set_response(&mut self, response: HttpResponse)
        ensures
            final(self).response == Some(response),
            final(self).request == old(self).request,
    {
        self.response = Some(response);
    }
}

/// The handler of a route. It answers a request by setting the response of the context.
pub trait HttpHandler: Sized {
    /// What the handler says of itself: whether a call that gets the context
    /// `before` may leave the context `after`. A handler that says nothing
    /// allows every outcome.
    open spec fn answers(&self, before: Context, after: Context) -> bool {
        true
    }

    /// Runs the handler.
    fn call(&self, ctx: &mut Context)
        ensures
            self.answers(*old(ctx), *final(ctx)),
    ;
}

/// A middleware. It may set the response, continue the chain with `next`, or
/// end it with `abort`.
pub trait MiddlewareFunc<H: HttpHandler>: Sized {
    /// What the middleware says of itself: whether a call that gets `chain`
    /// and `ctx` may leave `chain_after` and `ctx_after`. A middleware that
    /// says nothing allows every outcome.
    open spec fn intercepts(
        &self,
        chain: MiddlewareChain<'_, H, Self>,
        ctx: Context,
        chain_after: MiddlewareChain<'_, H, Self>,
        ctx_after: Context,
    ) -> bool {
        true
    }

    /// Runs the middleware. The chain that it gets is not aborted and stands
    /// just past this middleware.
    fn call(&self, chain: &mut MiddlewareChain<'_, H, Self>, ctx: &mut Context)
        requires
            !old(chain)@.is_abort(),
            1 <= old(chain)@.index <= old(chain)@.middlewares.len(),
            old(chain)@.middlewares[old(chain)@.index - 1].handler == *self,
        ensures
            self.intercepts(*old(chain), *old(ctx), *final(chain), *final(ctx)),
    ;
}

/// A route: a method filter, a path pattern, and the handler.
pub struct RequestMapping<H> {
    /// The method the route is for; `None` is for any method.
    pub method: Option<HttpMethod>,
    pub path: String,
    pub handler: H,
}

/// A registered middleware: a method filter, a path pattern, an order value, and the middleware.
pub struct Middleware<M> {
    /// The method the middleware is for; `None` is for any method.
    pub method: Option<HttpMethod>,
    pub path: String,
    /// Kept with the registration. Middlewares run in the order in which they
    /// were registered, whatever this says.
    pub order: usize,
    pub handler: M,
}

impl<M> Middleware<M> {
    /// A middleware for every request: any method, and the pattern `/**`.
    pub fn new(handler: M) -> (m: Middleware<M>)
        ensures
            m.method is None,
            m.path@ == "/**"@,
            m.order == 0,
            m.handler == handler,
    {
        Middleware { method: None, path: String::from_str("/**"), order: 0, handler }
    }

    /// This middleware for the method `method` only.
    pub fn method(self, method: HttpMethod) -> (m: Middleware<M>)
        ensures
            m == (Middleware { method: Some(method), ..self }),
    {
        let mut m = self;
        m.method = Some(method);
        m
    }

    /// This middleware with the path pattern `path`.
    pub fn path(self, path: String) -> (m: Middleware<M>)
        ensures
            m == (Middleware { path, ..self }),
    {
        let mut m = self;
        m.path = path;
        m
    }

    /// This middleware with the order value `order`.
    pub fn order(self, order: usize) -> (m: Middleware<M>)
        ensures
            m == (Middleware { order, ..self }),
    {
        let mut m = self;
        m.order = order;
        m
    }
}

/// What a chain runs when it is continued.
#[derive(Debug, Clone, Copy, PartialEq, Eq, Structural)]
pub enum ChainStep {
    /// The middleware at this place among those of the chain.
    Middleware(usize),
    /// The handler: the middlewares are used up.
    Handler,
    /// Nothing: the chain was aborted.
    Halt,
}

/// The state of a chain: the handler it ends in, its middlewares in the
/// order in which it runs them, how many of them it has started, and where it
/// was aborted, if it was.
pub struct ChainView<H, M> {
    pub handler: H,
    pub middlewares: Seq<Middleware<M>>,
    pub index: nat,
    pub abort_index: Option<nat>,
}

impl<H, M> ChainView<H, M> {
    /// The state of a chain that was not continued yet.
    pub open spec fn start(handler: H, middlewares: Seq<Middleware<M>>) -> Self {
        ChainView { handler, middlewares, index: 0, abort_index: None }
    }

    /// The number of middlewares.
    pub open spec fn len(self) -> nat {
        self.middlewares.len()
    }

    pub open spec fn is_abort(self) -> bool {
        self.abort_index is Some
    }

    /// What continuing the chain runs.
    pub open spec fn step(self) -> ChainStep {
        if self.is_abort() {
            ChainStep::Halt
        } else if self.index < self.len() {
            ChainStep::Middleware(self.index as usize)
        } else {
            ChainStep::Handler
        }
    }

    /// The state after the chain was continued, before what it runs has run.
    pub open spec fn after_next(self) -> Self {
        if !self.is_abort() && self.index < self.len() {
            ChainView { index: self.index + 1, ..self }
        } else {
            self
        }
    }

    /// The state after an abort.
    pub open spec fn after_abort(self) -> Self {
        ChainView { abort_index: Some(self.index), ..self }
    }
}

/// Once a chain is aborted, continuing it runs nothing and leaves it as it
/// is, however often it is continued or aborted again: neither a later
/// middleware nor the handler runs.
pub proof fn lemma_abort_is_final<H, M>(chain: ChainView<H, M>)
    ensures
        chain.after_abort().is_abort(),
        chain.after_abort().step() == ChainStep::Halt,
        chain.after_abort().after_next() == chain.after_abort(),
        chain.is_abort() ==> chain.after_next().is_abort() && chain.after_abort().is_abort(),
{
}

/// A chain that is not aborted runs its middlewares one after the other, each
/// once, and then the handler.
pub proof fn lemma_next_runs_in_order<H, M>(chain: ChainView<H, M>)
    requires
        !chain.is_abort(),
        chain.index <= chain.len(),
        chain.len() <= usize::MAX,
    ensures
        chain.index < chain.len() ==> chain.step() == ChainStep::Middleware(chain.index as usize)
            && chain.after_next().index == chain.index + 1,
        chain.index == chain.len() ==> chain.step() == ChainStep::Handler && chain.after_next()
            == chain,
        !chain.after_next().is_abort(),
        chain.after_next().handler == chain.handler,
        chain.after_next().middlewares == chain.middlewares,
{
}

/// The values that a sequence of references points to.
pub open spec fn targets<T>(refs: Seq<&T>) -> Seq<T> {
    Seq::new(refs.len(), |i: int| *refs[i])
}

/// The chain of one request: the middlewares that match it, in order, then the handler.
pub struct MiddlewareChain<'a, H, M> {
    handler: &'a H,
    middlewares: Vec<&'a Middleware<M>>,
    abort_index: Option<usize>,
    index: usize,
}

impl<'a, H, M> View for MiddlewareChain<'a, H, M> {
    type V = ChainView<H, M>;

    closed spec fn view(&self) -> ChainView<H, M> {
        ChainView {
            handler: *self.handler,
            middlewares: targets(self.middlewares@),
            index: self.index as nat,
            abort_index: match self.abort_index {
                Some(i) => Some(i as nat),
                None => None,
            },
        }
    }
}

impl<'a, H, M> MiddlewareChain<'a, H, M> {
    #[verifier::type_invariant]
    spec fn well_formed(&self) -> bool {
        self.index <= self.middlewares@.len()
    }

    /// A chain that runs `middlewares` in order and then `handler`.
    pub fn new(handler: &'a H, middlewares: Vec<&'a Middleware<M>>) -> (chain: Self)
        ensures
            chain@ == ChainView::start(*handler, targets(middlewares@)),
    {
        MiddlewareChain { handler, middlewares, abort_index: None, index: 0 }
    }

    /// Whether the chain was aborted.
    pub fn is_abort(&self) -> (b: bool)
        ensures
            b == self@.is_abort(),
    {
        self.abort_index.is_some()
    }

    /// Ends the chain: from now on `next` runs nothing.
    pub fn abort(&mut self)
        ensures
            final(self)@ == old(self)@.after_abort(),
    {
        proof {
            use_type_invariant(&*self);
        }
        self.abort_index = Some(self.index);
    }

    /// The chain moved past what continuing it runs: past its next
    /// middleware, where it is not aborted and has one left, and as it is otherwise.
    pub closed spec fn after_next(&self) -> Self {
        if self.abort_index is None && self.index < self.middlewares@.len() {
            MiddlewareChain { index: (self.index + 1) as usize, ..*self }
        } else {
            *self
        }
    }

    /// Decides what continuing the chain runs, and moves the chain past it.
    pub fn advance(&mut self) -> (step: ChainStep)
        ensures
            step == old(self)@.step(),
            *final(self) == old(self).after_next(),
            final(self)@ == old(self)@.after_next(),
            old(self)@.index <= old(self)@.len(),
            step matches ChainStep::Middleware(i) ==> i < old(self)@.len(),
            !(step is Middleware) ==> *final(self) == *old(self),
    {
        proof {
            use_type_invariant(&*self);
        }
        if self.abort_index.is_some() {
            ChainStep::Halt
        } else if self.index < self.middlewares.len() {
            let i: usize = self.index;
            self.index = i + 1;
            ChainStep::Middleware(i)
        } else {
            ChainStep::Handler
        }
    }
}

impl<'a, H: HttpHandler, M: MiddlewareFunc<H>> MiddlewareChain<'a, H, M> {
    /// Continues the chain: runs the next middleware, handing it the chain, or
    /// the handler once the middlewares are used up. On an aborted chain it
    /// runs nothing, and chain and context stay as they are.
    ///
    /// What is run is what [`MiddlewareChain::advance`] decides. A middleware
    /// gets the chain moved past it, and chain and context are afterwards what
    /// the middleware left. The handler gets the context alone, which is
    /// afterwards what the handler left; the chain stays as it is.
    pub fn next(&mut self, ctx: &mut Context)
        ensures
            old(self).after_next()@ == old(self)@.after_next(),
            match old(self)@.step() {
                ChainStep::Halt => *final(self) == *old(self) && *final(ctx) == *old(ctx),
                ChainStep::Middleware(i) => old(self)@.middlewares[i as int].handler.intercepts(
                    old(self).after_next(),
                    *old(ctx),
                    *final(self),
                    *final(ctx),
                ),
                ChainStep::Handler => *final(self) == *old(self) && old(self)@.handler.answers(
                    *old(ctx),
                    *final(ctx),
                ),
            },
    {
        proof {
            use_type_invariant(&*self);
        }
        match self.advance() {
            ChainStep::Halt => {},
            ChainStep::Middleware(i) => {
                let middleware: &'a Middleware<M> = self.middlewares[i];
                middleware.handler.call(self, ctx);
            },
            ChainStep::Handler => {
                let handler: &'a H = self.handler;
                handler.call(ctx);
            },
        }
    }
}

} // verus!

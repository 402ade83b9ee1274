//! Staged composition of middleware stacks and procedures.
//!
//! A builder holds an ordered middleware stack; folding it with a
//! terminal layer yields one composed chain. Middleware registered later
//! wraps everything registered earlier, so it runs first on the way in
//! and last on the way out. A resolver is attached only once the stack
//! is complete: stacking more middleware invalidates an attached
//! resolver.

use vstd::prelude::*;

use crate::layer::{AlphaMiddlewareLayer, BuiltLayer};
use crate::middleware::Middleware;
use crate::request::ProcedureKind;
use crate::resolver::Resolver;

verus! {

/// A staged middleware stack: folding it around a terminal layer yields
/// one composed chain whose middleware are this builder's stack followed
/// by whatever the terminal chain already carried.
pub trait AlphaMiddlewareBuilderLike: Sized {
    /// The middleware this builder stacks, outermost first.
    spec fn stack(&self) -> Seq<Middleware>;

    /// Wraps `next` in this builder's middleware.
    fn build(self, next: BuiltLayer) -> (r: BuiltLayer)
        ensures
            r.mws() == self.stack() + next.mws(),
            r.terminal() == next.terminal(),
    ;
}

/// The empty middleware stack: the base every procedure starts from.
#[derive(Debug, Clone, Copy, PartialEq, Eq, Structural)]
pub struct AlphaBaseMiddleware;

impl AlphaBaseMiddleware {
    /// A stack with no middleware on it.
    pub fn new() -> (r: Self)
        ensures
            r.stack() == Seq::<Middleware>::empty(),
    {
        AlphaBaseMiddleware
    }
}

impl Default for AlphaBaseMiddleware {
    fn default() -> (r: Self)
        ensures
            r.stack() == Seq::<Middleware>::empty(),
    {
        AlphaBaseMiddleware::new()
    }
}

impl AlphaMiddlewareBuilderLike for AlphaBaseMiddleware {
    open spec fn stack(&self) -> Seq<Middleware> {
        Seq::empty()
    }

    fn build(self, next: BuiltLayer) -> (r: BuiltLayer) {
        proof {
            assert(Seq::<Middleware>::empty() + next.mws() =~= next.mws());
        }
        next
    }
}

/// A middleware stack with one more middleware on top of an inner
/// builder: the new middleware becomes the innermost of the stack, so
/// the stack still reads outermost first.
pub struct AlphaMiddlewareLayerBuilder<TMiddleware> where TMiddleware: AlphaMiddlewareBuilderLike {
    pub middleware: TMiddleware,
    pub mw: Middleware,
}

impl<TMiddleware> AlphaMiddlewareBuilderLike for AlphaMiddlewareLayerBuilder<
    TMiddleware,
> where TMiddleware: AlphaMiddlewareBuilderLike {
    open spec fn stack(&self) -> Seq<Middleware> {
        self.middleware.stack().push(self.mw)
    }

    fn build(self, next: BuiltLayer) -> (r: BuiltLayer) {
        let ghost gself = self;
        let ghost gnext = next;
        let wrapped = BuiltLayer::Middleware(
            AlphaMiddlewareLayer { mw: self.mw, next: Box::new(next) },
        );
        proof {
            assert(wrapped.mws() =~= seq![gself.mw] + gnext.mws());
            assert(gself.middleware.stack() + wrapped.mws() =~= gself.middleware.stack().push(
                gself.mw,
            ) + gnext.mws());
        }
        self.middleware.build(wrapped)
    }
}

/// Two independently built middleware stacks combined end to end: the
/// first builds the outer part of the chain, the second the inner part.
pub struct MiddlewareMerger<TMiddleware, TIncomingMiddleware> where
    TMiddleware: AlphaMiddlewareBuilderLike,
    TIncomingMiddleware: AlphaMiddlewareBuilderLike,
 {
    pub middleware: TMiddleware,
    pub middleware2: TIncomingMiddleware,
}

impl<TMiddleware, TIncomingMiddleware> AlphaMiddlewareBuilderLike for MiddlewareMerger<
    TMiddleware,
    TIncomingMiddleware,
> where
    TMiddleware: AlphaMiddlewareBuilderLike,
    TIncomingMiddleware: AlphaMiddlewareBuilderLike,
 {
    open spec fn stack(&self) -> Seq<Middleware> {
        self.middleware.stack() + self.middleware2.stack()
    }

    fn build(self, next: BuiltLayer) -> (r: BuiltLayer) {
        let ghost gself = self;
        let ghost gnext = next;
        let inner = self.middleware2.build(next);
        proof {
            assert(gself.middleware.stack() + inner.mws() =~= (gself.middleware.stack()
                + gself.middleware2.stack()) + gnext.mws());
        }
        self.middleware.build(inner)
    }
}

/// Marker for a procedure builder that has no resolver attached yet.
#[derive(Debug, Clone, Copy, PartialEq, Eq, Structural)]
pub struct MissingResolver;

impl Default for MissingResolver {
    fn default() -> (r: Self)
        ensures
            r == (MissingResolver),
    {
        MissingResolver
    }
}

/// A procedure under construction: a middleware stack, a procedure kind,
/// and a resolver slot (`MissingResolver` while the stack is still being
/// assembled, a `Resolver` once one is attached).
pub struct AlphaProcedure<R, TMiddleware> where TMiddleware: AlphaMiddlewareBuilderLike {
    /// The attached resolver, or `MissingResolver`.
    pub resolver: R,
    /// The kind the procedure will be registered under. Meaningful only
    /// once a resolver is attached; until then it is a placeholder.
    pub kind: ProcedureKind,
    /// The staged middleware stack.
    pub middleware: TMiddleware,
}

impl<R, TMiddleware> AlphaProcedure<R, TMiddleware> where TMiddleware: AlphaMiddlewareBuilderLike {
    /// A procedure from a kind, a middleware stack and a resolver.
    pub fn new_from_resolver(k: ProcedureKind, mw: TMiddleware, resolver: R) -> (p: Self)
        ensures
            p.kind == k,
            p.middleware == mw,
            p.resolver == resolver,
    {
        AlphaProcedure { resolver, kind: k, middleware: mw }
    }

    /// Stacks one more middleware. The new middleware wraps everything
    /// stacked earlier; an already attached resolver is invalidated, so
    /// a resolver can only be attached to a finished stack.
    pub fn with(self, mw: Middleware) -> (p: AlphaProcedure<
        MissingResolver,
        AlphaMiddlewareLayerBuilder<TMiddleware>,
    >)
        ensures
            p.middleware.stack() == self.middleware.stack().push(mw),
            p.resolver == (MissingResolver),
    {
        AlphaProcedure {
            resolver: MissingResolver,
            kind: self.kind,
            middleware: AlphaMiddlewareLayerBuilder { middleware: self.middleware, mw },
        }
    }
}

impl<TMiddleware> AlphaProcedure<MissingResolver, TMiddleware> where
    TMiddleware: AlphaMiddlewareBuilderLike,
 {
    /// A procedure builder from a middleware stack alone; the kind is
    /// chosen when a resolver is attached.
    pub fn new_from_middleware(mw: TMiddleware) -> (p: Self)
        ensures
            p.middleware == mw,
            p.resolver == (MissingResolver),
    {
        AlphaProcedure::new_from_resolver(ProcedureKind::Query, mw, MissingResolver)
    }

    /// Attaches a resolver as a query.
    pub fn query(self, builder: Resolver) -> (p: AlphaProcedure<Resolver, TMiddleware>)
        ensures
            p.kind == ProcedureKind::Query,
            p.resolver == builder,
            p.middleware == self.middleware,
    {
        AlphaProcedure::new_from_resolver(ProcedureKind::Query, self.middleware, builder)
    }

    /// Attaches a resolver as a mutation.
    pub fn mutation(self, builder: Resolver) -> (p: AlphaProcedure<Resolver, TMiddleware>)
        ensures
            p.kind == ProcedureKind::Mutation,
            p.resolver == builder,
            p.middleware == self.middleware,
    {
        AlphaProcedure::new_from_resolver(ProcedureKind::Mutation, self.middleware, builder)
    }

    /// Attaches a resolver as a subscription.
    pub fn subscription(self, builder: Resolver) -> (p: AlphaProcedure<Resolver, TMiddleware>)
        ensures
            p.kind == ProcedureKind::Subscription,
            p.resolver == builder,
            p.middleware == self.middleware,
    {
        AlphaProcedure::new_from_resolver(ProcedureKind::Subscription, self.middleware, builder)
    }
}

} // verus!

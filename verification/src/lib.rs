//! Request-dispatch core of an RPC procedure framework.
//!
//! A service author registers named procedures of three kinds (query,
//! mutation, subscription), each backed by a resolver, and may wrap them
//! in composable middleware layers. At request time the transport layer
//! looks a procedure up by kind and key and invokes the composed layer
//! chain with a per-request context, an argument value and the request
//! metadata; middleware runs in registration order on the way in and in
//! reverse order on the way out.

pub mod builder;
pub mod laws;
pub mod layer;
pub mod middleware;
pub mod registry;
pub mod request;
pub mod resolver;
pub mod value;

pub use builder::{
    AlphaBaseMiddleware, AlphaMiddlewareBuilderLike, AlphaMiddlewareLayerBuilder, AlphaProcedure,
    MiddlewareMerger, MissingResolver,
};
pub use layer::{AlphaMiddlewareLayer, AlphaResolverLayer, BuiltLayer, TraceEvent};
pub use middleware::{Middleware, MwBehavior};
pub use registry::Registry;
pub use request::{ConfigError, ExecError, ProcedureKind, RequestContext, ResolverError};
pub use resolver::{CountStream, Outcome, Resolver};
pub use value::{Val, Value};

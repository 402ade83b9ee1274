//! Procedure kinds, per-request metadata, and the error taxonomy.

use vstd::prelude::*;

verus! {

/// The three kinds of procedure, each with its own key namespace.
#[derive(Debug, Clone, Copy, PartialEq, Eq, Structural)]
pub enum ProcedureKind {
    Query,
    Mutation,
    Subscription,
}

/// Immutable per-request metadata, passed unchanged through every layer
/// and read-only to all of them.
#[derive(Debug, Clone, Copy, PartialEq, Eq, Structural)]
pub struct RequestContext {
    pub kind: ProcedureKind,
}

/// Why a user-supplied resolver failed.
#[derive(Debug, Clone, Copy, PartialEq, Eq, Structural)]
pub enum ResolverError {
    /// The resolver's arithmetic would have left the machine integer range.
    Overflow,
}

/// A request-time failure. Every layer converts its faults into this
/// taxonomy and returns them; nothing unwinds across the pipeline.
#[derive(Debug, Clone, Copy, PartialEq, Eq, Structural)]
pub enum ExecError {
    /// The argument value could not be converted to the form a layer or
    /// the resolver expected.
    ArgumentDecode,
    /// The user-supplied resolver itself failed; carries the cause.
    Resolver(ResolverError),
    /// Dispatch referenced an unregistered (kind, key) pair.
    NotFound,
    /// A middleware short-circuited; carries the tag of the middleware
    /// that rejected the request, so the cause stays distinguishable.
    MiddlewareRejected(u64),
}

/// A configuration-time failure: fatal at startup, never deferred to
/// request time.
#[derive(Debug, Clone, Copy, PartialEq, Eq, Structural)]
pub enum ConfigError {
    /// The key is already registered for this procedure kind.
    DuplicateKey,
    /// The resolver's result shape does not fit the procedure kind
    /// (queries and mutations produce values, subscriptions streams).
    KindMismatch,
}

} // verus!

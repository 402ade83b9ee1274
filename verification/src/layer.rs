//! The execution pipeline: a chain of middleware layers ending in a
//! resolver terminal, with one uniform call contract.
//!
//! `pipeline_spec` is the mathematical account of a whole chain: it says,
//! for a middleware stack (outermost first) and a terminal resolver, what
//! result a call returns and which trace it leaves. Ingress runs in stack
//! order, egress in exact reverse order, and a short-circuiting
//! middleware keeps everything downstream from running.

use vstd::prelude::*;

use crate::middleware::{apply_egress, apply_ingress, mw_egress_val, mw_ingress, Middleware};
use crate::request::{ExecError, RequestContext};
use crate::resolver::{
    accepts_arg, decodes, outcome_of, run_decoded, run_resolver, Outcome, OutcomeModel, Resolver,
};
use crate::value::{val_of, Val, Value};

verus! {

/// One event in the execution trace of a request: middleware are seen
/// once on the way in and once on the way out, the resolver exactly once
/// when it is invoked.
#[derive(Debug, Clone, Copy, PartialEq, Eq, Structural)]
pub enum TraceEvent {
    /// A middleware with this tag ran its inward step.
    Enter(u64),
    /// The terminal decoded the argument and invoked this resolver.
    Resolve(Resolver),
    /// A middleware with this tag ran its outward step.
    Exit(u64),
}

/// The terminal layer: holds the user-supplied resolver.
#[derive(Debug)]
pub struct AlphaResolverLayer {
    pub resolver: Resolver,
}

/// One middleware wrapping an already composed downstream chain.
#[derive(Debug)]
pub struct AlphaMiddlewareLayer {
    pub mw: Middleware,
    pub next: Box<BuiltLayer>,
}

/// A composed layer chain: middleware wrapped around a terminal.
#[derive(Debug)]
pub enum BuiltLayer {
    Middleware(AlphaMiddlewareLayer),
    Resolver(AlphaResolverLayer),
}

impl BuiltLayer {
    /// The middleware stack of this chain, outermost first.
    pub open spec fn mws(self) -> Seq<Middleware>
        decreases self,
    {
        match self {
            BuiltLayer::Resolver(_) => Seq::empty(),
            BuiltLayer::Middleware(ml) => seq![ml.mw] + (*ml.next).mws(),
        }
    }

    /// The resolver at the end of this chain.
    pub open spec fn terminal(self) -> Resolver
        decreases self,
    {
        match self {
            BuiltLayer::Resolver(rl) => rl.resolver,
            BuiltLayer::Middleware(ml) => (*ml.next).terminal(),
        }
    }
}

/// What the terminal does: on decode failure it returns the decode error
/// and never invokes the user function; otherwise it invokes it exactly
/// once and records that in the trace.
pub open spec fn terminal_spec(r: Resolver, ctx: Val, arg: Val) -> (Result<OutcomeModel, ExecError>, Seq<TraceEvent>) {
    if decodes(r, arg) {
        (run_resolver(r, ctx, arg), seq![TraceEvent::Resolve(r)])
    } else {
        (Err(ExecError::ArgumentDecode), Seq::empty())
    }
}

/// The outward step of one middleware on a whole outcome: the payload of
/// an immediate or deferred value is remapped, a stream passes through.
pub open spec fn egress_outcome(mw: Middleware, state: Val, o: OutcomeModel) -> OutcomeModel {
    match o {
        OutcomeModel::Immediate(v) => OutcomeModel::Immediate(mw_egress_val(mw, state, v)),
        OutcomeModel::Deferred(v) => OutcomeModel::Deferred(mw_egress_val(mw, state, v)),
        OutcomeModel::Stream(s) => OutcomeModel::Stream(s),
    }
}

/// The behaviour of a whole chain: result and trace of one call.
///
/// Middleware run inward in stack order; a short-circuiting middleware
/// leaves only its entry in the trace and its error as the result; on
/// the way out every middleware that ran inward runs outward, in exact
/// reverse order, remapping successful outcomes and passing errors
/// through unmodified.
pub open spec fn pipeline_spec(mws: Seq<Middleware>, r: Resolver, ctx: Val, arg: Val) -> (Result<OutcomeModel, ExecError>, Seq<TraceEvent>)
    decreases mws.len(),
{
    if mws.len() == 0 {
        terminal_spec(r, ctx, arg)
    } else {
        let mw = mws[0];
        match mw_ingress(mw, ctx, arg) {
            Err(e) => (Err(e), seq![TraceEvent::Enter(mw.tag)]),
            Ok(step) => {
                let inner = pipeline_spec(mws.drop_first(), r, step.0, step.1);
                let mapped = match inner.0 {
                    Ok(o) => Ok(egress_outcome(mw, step.2, o)),
                    Err(e) => Err(e),
                };
                (
                    mapped,
                    seq![TraceEvent::Enter(mw.tag)] + inner.1 + seq![TraceEvent::Exit(mw.tag)],
                )
            },
        }
    }
}

/// Runs one middleware's outward step on an outcome.
pub fn apply_egress_outcome(mw: &Middleware, state: Value, o: Outcome) -> (r: Outcome)
    ensures
        outcome_of(r) == egress_outcome(*mw, val_of(state), outcome_of(o)),
{
    match o {
        Outcome::Immediate(v) => Outcome::Immediate(apply_egress(mw, state, v)),
        Outcome::Deferred(v) => Outcome::Deferred(apply_egress(mw, state, v)),
        Outcome::Stream(s) => Outcome::Stream(s),
    }
}

impl BuiltLayer {
    /// Executes the chain on one request: context, argument value and
    /// read-only request metadata go in, a result comes out, and the
    /// execution trace of the call is appended to `trace`.
    ///
    /// Safe to invoke concurrently: the chain holds no per-call state.
    pub fn call(&self, ctx: Value, arg: Value, req: RequestContext, trace: &mut Vec<TraceEvent>) -> (res: Result<Outcome, ExecError>)
        ensures
            ({
                let s = pipeline_spec(self.mws(), self.terminal(), val_of(ctx), val_of(arg));
                &&& (match res {
                    Ok(o) => s.0 == Ok::<_, ExecError>(outcome_of(o)),
                    Err(e) => s.0 == Err::<OutcomeModel, _>(e),
                })
                &&& final(trace)@ == old(trace)@ + s.1
            }),
        decreases *self,
    {
        match self {
            BuiltLayer::Resolver(rl) => {
                if accepts_arg(rl.resolver, &arg) {
                    trace.push(TraceEvent::Resolve(rl.resolver));
                    proof {
                        assert(old(trace)@ + seq![TraceEvent::Resolve(rl.resolver)] =~= trace@);
                    }
                    run_decoded(rl.resolver, ctx, arg)
                } else {
                    proof {
                        assert(old(trace)@ + Seq::<TraceEvent>::empty() =~= trace@);
                    }
                    Err(ExecError::ArgumentDecode)
                }
            },
            BuiltLayer::Middleware(ml) => {
                proof {
                    assert((seq![ml.mw] + (*ml.next).mws()).drop_first() =~= (*ml.next).mws());
                }
                match apply_ingress(&ml.mw, ctx, arg) {
                    Err(e) => {
                        trace.push(TraceEvent::Enter(ml.mw.tag));
                        proof {
                            assert(old(trace)@ + seq![TraceEvent::Enter(ml.mw.tag)] =~= trace@);
                        }
                        Err(e)
                    },
                    Ok((c2, a2, state)) => {
                        trace.push(TraceEvent::Enter(ml.mw.tag));
                        let inner = ml.next.call(c2, a2, req, trace);
                        trace.push(TraceEvent::Exit(ml.mw.tag));
                        proof {
                            let s = pipeline_spec(
                                self.mws(),
                                self.terminal(),
                                val_of(ctx),
                                val_of(arg),
                            );
                            let si = pipeline_spec(
                                (*ml.next).mws(),
                                (*ml.next).terminal(),
                                val_of(c2),
                                val_of(a2),
                            );
                            assert(old(trace)@ + s.1 =~= ((old(trace)@ + seq![
                                TraceEvent::Enter(ml.mw.tag),
                            ]) + si.1) + seq![TraceEvent::Exit(ml.mw.tag)]);
                        }
                        match inner {
                            Ok(o) => Ok(apply_egress_outcome(&ml.mw, state, o)),
                            Err(e) => Err(e),
                        }
                    },
                }
            },
        }
    }
}

} // verus!

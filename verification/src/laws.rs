//! The pipeline's laws: proved properties of `pipeline_spec`, and with
//! it — through the contracts of `BuiltLayer::call` and
//! `Registry::dispatch` — of every executed request.

use vstd::prelude::*;

use crate::layer::{egress_outcome, pipeline_spec, TraceEvent};
use crate::middleware::{lemma_mw_arg_round_trip, mw_egress_val, mw_ingress, Middleware};
use crate::request::ExecError;
use crate::resolver::{decodes, run_resolver, OutcomeModel, Resolver};
use crate::value::Val;

verus! {

/// The entry events of a stack, in ingress (registration) order.
pub open spec fn enters(mws: Seq<Middleware>) -> Seq<TraceEvent> {
    Seq::new(mws.len(), |i: int| TraceEvent::Enter(mws[i].tag))
}

/// The exit events of a stack, in egress order: exact reverse of ingress.
pub open spec fn exits(mws: Seq<Middleware>) -> Seq<TraceEvent> {
    Seq::new(mws.len(), |i: int| TraceEvent::Exit(mws[mws.len() - 1 - i].tag))
}

/// The inward pass of a whole stack on (context, argument): either the
/// context and argument handed to the terminal together with each
/// middleware's mapping state (outermost first), or the index of the
/// first middleware that short-circuited and its error.
pub open spec fn stack_ingress(mws: Seq<Middleware>, ctx: Val, arg: Val) -> Result<
    (Val, Val, Seq<Val>),
    (int, ExecError),
>
    decreases mws.len(),
{
    if mws.len() == 0 {
        Ok((ctx, arg, Seq::empty()))
    } else {
        match mw_ingress(mws[0], ctx, arg) {
            Err(e) => Err((0, e)),
            Ok(step) => match stack_ingress(mws.drop_first(), step.0, step.1) {
                Ok(through) => Ok((through.0, through.1, seq![step.2] + through.2)),
                Err(halt) => Err((halt.0 + 1, halt.1)),
            },
        }
    }
}

/// The outward pass of a whole stack on a produced value: innermost
/// middleware first, outermost last.
pub open spec fn stack_egress_val(mws: Seq<Middleware>, states: Seq<Val>, v: Val) -> Val
    decreases mws.len(),
{
    if mws.len() == 0 {
        v
    } else {
        mw_egress_val(mws[0], states[0], stack_egress_val(mws.drop_first(), states.drop_first(), v))
    }
}

/// The outward pass of a whole stack on an outcome.
pub open spec fn stack_egress_outcome(
    mws: Seq<Middleware>,
    states: Seq<Val>,
    o: OutcomeModel,
) -> OutcomeModel
    decreases mws.len(),
{
    if mws.len() == 0 {
        o
    } else {
        egress_outcome(
            mws[0],
            states[0],
            stack_egress_outcome(mws.drop_first(), states.drop_first(), o),
        )
    }
}

/// How often the trace records a resolver invocation.
pub open spec fn resolve_count(tr: Seq<TraceEvent>) -> nat
    decreases tr.len(),
{
    if tr.len() == 0 {
        0
    } else {
        resolve_count(tr.drop_last()) + (if tr.last() is Resolve {
            1nat
        } else {
            0nat
        })
    }
}

proof fn lemma_resolve_count_add(a: Seq<TraceEvent>, b: Seq<TraceEvent>)
    ensures
        resolve_count(a + b) == resolve_count(a) + resolve_count(b),
    decreases b.len(),
{
    if b.len() == 0 {
        assert(a + b =~= a);
    } else {
        assert((a + b).drop_last() =~= a + b.drop_last());
        lemma_resolve_count_add(a, b.drop_last());
    }
}

proof fn lemma_resolve_count_single(e: TraceEvent)
    ensures
        resolve_count(seq![e]) == (if e is Resolve {
            1nat
        } else {
            0nat
        }),
{
    assert(seq![e].drop_last() =~= Seq::<TraceEvent>::empty());
    assert(resolve_count(Seq::<TraceEvent>::empty()) == 0);
}

proof fn lemma_resolve_count_none(tr: Seq<TraceEvent>)
    requires
        forall|i: int| 0 <= i < tr.len() ==> !(#[trigger] tr[i] is Resolve),
    ensures
        resolve_count(tr) == 0,
    decreases tr.len(),
{
    if tr.len() > 0 {
        lemma_resolve_count_none(tr.drop_last());
    }
}

/// When every middleware of the stack passes the request through, a call
/// runs ingress in registration order, then the terminal, then egress in
/// exact reverse order: the trace is the entry events in stack order,
/// the resolver invocation if and only if the argument decoded, and the
/// exit events in reverse stack order. The result is the terminal's
/// result, with a successful outcome remapped outward by every
/// middleware, innermost first, and any error returned unmodified.
pub proof fn lemma_pipeline_through(mws: Seq<Middleware>, r: Resolver, ctx: Val, arg: Val)
    requires
        stack_ingress(mws, ctx, arg) is Ok,
    ensures
        ({
            let through = stack_ingress(mws, ctx, arg)->Ok_0;
            let s = pipeline_spec(mws, r, ctx, arg);
            &&& s.1 == (if decodes(r, through.1) {
                enters(mws) + seq![TraceEvent::Resolve(r)] + exits(mws)
            } else {
                enters(mws) + exits(mws)
            })
            &&& s.0 == (if !decodes(r, through.1) {
                Err::<OutcomeModel, ExecError>(ExecError::ArgumentDecode)
            } else {
                match run_resolver(r, through.0, through.1) {
                    Ok(o) => Ok::<OutcomeModel, ExecError>(
                        stack_egress_outcome(mws, through.2, o),
                    ),
                    Err(e) => Err::<OutcomeModel, ExecError>(e),
                }
            })
        }),
    decreases mws.len(),
{
    let through = stack_ingress(mws, ctx, arg)->Ok_0;
    let s = pipeline_spec(mws, r, ctx, arg);
    if mws.len() == 0 {
        assert(enters(mws) =~= Seq::<TraceEvent>::empty());
        assert(exits(mws) =~= Seq::<TraceEvent>::empty());
        if decodes(r, arg) {
            assert(s.1 =~= enters(mws) + seq![TraceEvent::Resolve(r)] + exits(mws));
        } else {
            assert(s.1 =~= enters(mws) + exits(mws));
        }
    } else {
        let mw = mws[0];
        let step = mw_ingress(mw, ctx, arg)->Ok_0;
        let rest = mws.drop_first();
        lemma_pipeline_through(rest, r, step.0, step.1);
        let inner_through = stack_ingress(rest, step.0, step.1)->Ok_0;
        assert(through.0 == inner_through.0 && through.1 == inner_through.1);
        assert(through.2.drop_first() =~= inner_through.2);
        assert(enters(mws) =~= seq![TraceEvent::Enter(mw.tag)] + enters(rest));
        assert(exits(mws) =~= exits(rest) + seq![TraceEvent::Exit(mw.tag)]);
        if decodes(r, through.1) {
            assert(s.1 =~= (enters(mws) + seq![TraceEvent::Resolve(r)] + exits(mws)));
        } else {
            assert(s.1 =~= enters(mws) + exits(mws));
        }
    }
}

/// When some middleware short-circuits, the call stops there: the trace
/// holds the entry events of the middleware up to and including the one
/// that halted, then the exit events of those strictly outside it in
/// reverse order; the halting middleware's error is the result, and
/// neither the terminal resolver nor any inner middleware runs.
pub proof fn lemma_pipeline_halted(mws: Seq<Middleware>, r: Resolver, ctx: Val, arg: Val)
    requires
        stack_ingress(mws, ctx, arg) is Err,
    ensures
        ({
            let halt = stack_ingress(mws, ctx, arg)->Err_0;
            let s = pipeline_spec(mws, r, ctx, arg);
            &&& 0 <= halt.0 < mws.len()
            &&& s.0 == Err::<OutcomeModel, ExecError>(halt.1)
            &&& s.1 == enters(mws.take(halt.0 + 1)) + exits(mws.take(halt.0))
        }),
    decreases mws.len(),
{
    let halt = stack_ingress(mws, ctx, arg)->Err_0;
    let s = pipeline_spec(mws, r, ctx, arg);
    let mw = mws[0];
    match mw_ingress(mw, ctx, arg) {
        Err(e) => {
            assert(enters(mws.take(1)) =~= seq![TraceEvent::Enter(mw.tag)]);
            assert(exits(mws.take(0)) =~= Seq::<TraceEvent>::empty());
            assert(s.1 =~= enters(mws.take(1)) + exits(mws.take(0)));
        },
        Ok(step) => {
            let rest = mws.drop_first();
            lemma_pipeline_halted(rest, r, step.0, step.1);
            let ihalt = stack_ingress(rest, step.0, step.1)->Err_0;
            assert(rest.take(ihalt.0 + 1) =~= mws.take(halt.0 + 1).drop_first());
            assert(rest.take(ihalt.0) =~= mws.take(halt.0).drop_first());
            assert(enters(mws.take(halt.0 + 1)) =~= seq![TraceEvent::Enter(mw.tag)] + enters(
                rest.take(ihalt.0 + 1),
            ));
            assert(exits(mws.take(halt.0)) =~= exits(rest.take(ihalt.0)) + seq![
                TraceEvent::Exit(mw.tag),
            ]);
            assert(s.1 =~= enters(mws.take(halt.0 + 1)) + exits(mws.take(halt.0)));
        },
    }
}

/// The terminal resolver is invoked at most once per call; exactly once
/// when the call succeeds; never when the argument failed to decode;
/// and any invocation the trace records is of this chain's own resolver.
pub proof fn lemma_resolver_invocations(mws: Seq<Middleware>, r: Resolver, ctx: Val, arg: Val)
    ensures
        ({
            let s = pipeline_spec(mws, r, ctx, arg);
            &&& resolve_count(s.1) <= 1
            &&& (s.0 is Ok ==> resolve_count(s.1) == 1)
            &&& (s.0 == Err::<OutcomeModel, ExecError>(ExecError::ArgumentDecode) ==> resolve_count(
                s.1,
            ) == 0)
            &&& forall|i: int|
                0 <= i < s.1.len() && (#[trigger] s.1[i]) is Resolve ==> s.1[i]
                    == TraceEvent::Resolve(r)
        }),
    decreases mws.len(),
{
    let s = pipeline_spec(mws, r, ctx, arg);
    if mws.len() == 0 {
        if decodes(r, arg) {
            lemma_resolve_count_single(TraceEvent::Resolve(r));
        }
    } else {
        let mw = mws[0];
        match mw_ingress(mw, ctx, arg) {
            Err(e) => {
                lemma_resolve_count_none(seq![TraceEvent::Enter(mw.tag)]);
            },
            Ok(step) => {
                lemma_resolver_invocations(mws.drop_first(), r, step.0, step.1);
                let si = pipeline_spec(mws.drop_first(), r, step.0, step.1);
                lemma_resolve_count_add(seq![TraceEvent::Enter(mw.tag)], si.1);
                lemma_resolve_count_add(seq![TraceEvent::Enter(mw.tag)] + si.1, seq![
                    TraceEvent::Exit(mw.tag),
                ]);
                lemma_resolve_count_none(seq![TraceEvent::Enter(mw.tag)]);
                lemma_resolve_count_none(seq![TraceEvent::Exit(mw.tag)]);
            },
        }
    }
}

/// Running two stacks merged end to end is running them in sequence:
/// the inward pass of the merged stack is the outer stack's inward pass
/// fed into the inner one's (halting where the first of them halts),
/// and the states line up as the concatenation of both stacks' states.
pub proof fn lemma_stack_ingress_append(s1: Seq<Middleware>, s2: Seq<Middleware>, ctx: Val, arg: Val)
    ensures
        ({
            match stack_ingress(s1, ctx, arg) {
                Err(halt) => stack_ingress(s1 + s2, ctx, arg) == Err::<
                    (Val, Val, Seq<Val>),
                    (int, ExecError),
                >(halt),
                Ok(t1) => match stack_ingress(s2, t1.0, t1.1) {
                    Err(halt) => stack_ingress(s1 + s2, ctx, arg) == Err::<
                        (Val, Val, Seq<Val>),
                        (int, ExecError),
                    >(((halt.0 + s1.len()) as int, halt.1)),
                    Ok(t2) => stack_ingress(s1 + s2, ctx, arg) == Ok::<
                        (Val, Val, Seq<Val>),
                        (int, ExecError),
                    >((t2.0, t2.1, t1.2 + t2.2)),
                },
            }
        }),
    decreases s1.len(),
{
    if s1.len() == 0 {
        assert(s1 + s2 =~= s2);
        match stack_ingress(s2, ctx, arg) {
            Ok(t2) => {
                assert(Seq::<Val>::empty() + t2.2 =~= t2.2);
            },
            Err(_) => {},
        }
    } else {
        assert((s1 + s2)[0] == s1[0]);
        match mw_ingress(s1[0], ctx, arg) {
            Err(_) => {},
            Ok(step) => {
                assert((s1 + s2).drop_first() =~= s1.drop_first() + s2);
                lemma_stack_ingress_append(s1.drop_first(), s2, step.0, step.1);
                match stack_ingress(s1.drop_first(), step.0, step.1) {
                    Ok(t1r) => {
                        match stack_ingress(s2, t1r.0, t1r.1) {
                            Ok(t2) => {
                                assert(seq![step.2] + (t1r.2 + t2.2) =~= (seq![step.2] + t1r.2)
                                    + t2.2);
                            },
                            Err(_) => {},
                        }
                    },
                    Err(_) => {},
                }
            },
        }
    }
}

/// The dual composition on the way out: the merged stack's outward pass
/// is the inner stack's outward pass followed by the outer one's.
pub proof fn lemma_stack_egress_append(
    s1: Seq<Middleware>,
    s2: Seq<Middleware>,
    st1: Seq<Val>,
    st2: Seq<Val>,
    v: Val,
)
    requires
        st1.len() == s1.len(),
    ensures
        stack_egress_val(s1 + s2, st1 + st2, v) == stack_egress_val(
            s1,
            st1,
            stack_egress_val(s2, st2, v),
        ),
    decreases s1.len(),
{
    if s1.len() == 0 {
        assert(s1 + s2 =~= s2);
        assert(st1 + st2 =~= st2);
    } else {
        assert((s1 + s2)[0] == s1[0]);
        assert((st1 + st2)[0] == st1[0]);
        assert((s1 + s2).drop_first() =~= s1.drop_first() + s2);
        assert((st1 + st2).drop_first() =~= st1.drop_first() + st2);
        lemma_stack_egress_append(s1.drop_first(), s2, st1.drop_first(), st2, v);
    }
}

/// Argument round trip: whenever a stack's inward pass lets the request
/// through, feeding the argument it handed to the terminal back through
/// the outward pass with the saved states restores the original
/// argument value.
pub proof fn lemma_stack_arg_round_trip(mws: Seq<Middleware>, ctx: Val, arg: Val)
    requires
        stack_ingress(mws, ctx, arg) is Ok,
    ensures
        ({
            let through = stack_ingress(mws, ctx, arg)->Ok_0;
            stack_egress_val(mws, through.2, through.1) == arg
        }),
    decreases mws.len(),
{
    if mws.len() > 0 {
        let step = mw_ingress(mws[0], ctx, arg)->Ok_0;
        let through = stack_ingress(mws, ctx, arg)->Ok_0;
        let inner = stack_ingress(mws.drop_first(), step.0, step.1)->Ok_0;
        lemma_stack_arg_round_trip(mws.drop_first(), step.0, step.1);
        assert(through.2.drop_first() =~= inner.2);
        lemma_mw_arg_round_trip(mws[0], ctx, arg);
    }
}

/// Outcome shapes are kind-consistent: a successful call produces a
/// stream exactly when the chain's terminal resolver is
/// subscription-shaped; queries and mutations only ever produce
/// immediate or deferred values.
pub proof fn lemma_outcome_kind(mws: Seq<Middleware>, r: Resolver, ctx: Val, arg: Val)
    ensures
        ({
            let s = pipeline_spec(mws, r, ctx, arg);
            s.0 matches Ok(o) ==> ((o is Stream) <==> r.is_stream())
        }),
    decreases mws.len(),
{
    if mws.len() > 0 {
        match mw_ingress(mws[0], ctx, arg) {
            Err(_) => {},
            Ok(step) => {
                lemma_outcome_kind(mws.drop_first(), r, step.0, step.1);
            },
        }
    }
}

} // verus!


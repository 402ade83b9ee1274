//! Middleware: the cross-cutting layers that wrap a resolver.
//!
//! A middleware consumes (context, argument, metadata) on the way in and
//! may: pass both through, derive a new context, short-circuit with an
//! error, or remap the argument while carrying a per-call mapping state
//! from the inward transform to the outward one. Each middleware carries
//! a `tag` so that traces and rejection errors stay attributable.

use vstd::prelude::*;

use crate::request::ExecError;
use crate::value::{val_of, lemma_vals_of, Val, Value};

verus! {

/// What a middleware does with a request.
#[derive(Debug, Clone, Copy, PartialEq, Eq, Structural)]
pub enum MwBehavior {
    /// Pass context and argument through unchanged; visible only in the
    /// execution trace (a logging layer).
    Observe,
    /// Derive a new context for everything downstream: the old context is
    /// wrapped in a list behind the given marker (a context transform,
    /// e.g. attaching an authenticated-user record).
    TagContext(i64),
    /// Short-circuit with `MiddlewareRejected` when the argument is a
    /// negative integer (a validation layer).
    RejectNegativeInt,
    /// Short-circuit with `MiddlewareRejected` when the context is null
    /// (an access-control layer: no authenticated context, no call).
    RequireContext,
    /// Argument mapping: the argument must be a two-element list
    /// `[meta, payload]`; `payload` flows downstream, `meta` is kept as
    /// the per-call mapping state and is wrapped back around the produced
    /// value on the way out. A malformed argument short-circuits with
    /// `ArgumentDecode`.
    MapEnvelope,
}

/// One middleware: a tag (for traces and rejection causes) plus what it
/// does. Stateless per request; fixed at build time.
#[derive(Debug, Clone, Copy, PartialEq, Eq, Structural)]
pub struct Middleware {
    pub tag: u64,
    pub behavior: MwBehavior,
}

/// The inward step of one middleware: either the (context, argument,
/// mapping state) handed to the downstream layer, or the error it
/// short-circuits with.
pub open spec fn mw_ingress(mw: Middleware, ctx: Val, arg: Val) -> Result<(Val, Val, Val), ExecError> {
    match mw.behavior {
        MwBehavior::Observe => Ok((ctx, arg, Val::Null)),
        MwBehavior::TagContext(t) => Ok((Val::List(seq![Val::Int(t as int), ctx]), arg, Val::Null)),
        MwBehavior::RejectNegativeInt => match arg {
            Val::Int(n) => if n < 0 {
                Err(ExecError::MiddlewareRejected(mw.tag))
            } else {
                Ok((ctx, arg, Val::Null))
            },
            _ => Ok((ctx, arg, Val::Null)),
        },
        MwBehavior::RequireContext => match ctx {
            Val::Null => Err(ExecError::MiddlewareRejected(mw.tag)),
            _ => Ok((ctx, arg, Val::Null)),
        },
        MwBehavior::MapEnvelope => match arg {
            Val::List(items) => if items.len() == 2 {
                Ok((ctx, items[1], items[0]))
            } else {
                Err(ExecError::ArgumentDecode)
            },
            _ => Err(ExecError::ArgumentDecode),
        },
    }
}

/// The outward step of one middleware on a produced value, given the
/// mapping state its inward step saved.
pub open spec fn mw_egress_val(mw: Middleware, state: Val, v: Val) -> Val {
    match mw.behavior {
        MwBehavior::MapEnvelope => Val::List(seq![state, v]),
        _ => v,
    }
}

/// A middleware's outward transform undoes its inward one: whenever the
/// inward step passes an argument downstream, wrapping that argument back
/// through the outward step with the saved state restores the original.
pub proof fn lemma_mw_arg_round_trip(mw: Middleware, ctx: Val, arg: Val)
    requires
        mw_ingress(mw, ctx, arg) is Ok,
    ensures
        mw_egress_val(mw, mw_ingress(mw, ctx, arg)->Ok_0.2, mw_ingress(mw, ctx, arg)->Ok_0.1)
            == arg,
{
    match mw.behavior {
        MwBehavior::MapEnvelope => {
            let items = arg->List_0;
            assert(seq![items[0], items[1]] =~= items);
        },
        _ => {},
    }
}

/// Builds the two-element list `[a, b]`.
pub fn pair_value(a: Value, b: Value) -> (r: Value)
    ensures
        val_of(r) == Val::List(seq![val_of(a), val_of(b)]),
{
    let ghost ga = a;
    let ghost gb = b;
    let mut items: Vec<Value> = Vec::new();
    items.push(a);
    items.push(b);
    proof {
        lemma_vals_of(items, 2);
        assert(crate::value::vals_of(items, 2) =~= seq![val_of(ga), val_of(gb)]);
    }
    Value::List(items)
}

/// Runs one middleware's inward step.
pub fn apply_ingress(mw: &Middleware, ctx: Value, arg: Value) -> (r: Result<(Value, Value, Value), ExecError>)
    ensures
        (match r {
            Ok(step) => mw_ingress(*mw, val_of(ctx), val_of(arg)) == Ok::<_, ExecError>(
                (val_of(step.0), val_of(step.1), val_of(step.2)),
            ),
            Err(e) => mw_ingress(*mw, val_of(ctx), val_of(arg)) == Err::<(Val, Val, Val), _>(e),
        }),
{
    match mw.behavior {
        MwBehavior::Observe => Ok((ctx, arg, Value::Null)),
        MwBehavior::TagContext(t) => {
            let tagged = pair_value(Value::Int(t), ctx);
            Ok((tagged, arg, Value::Null))
        },
        MwBehavior::RejectNegativeInt => {
            let negative = match &arg {
                Value::Int(n) => *n < 0,
                _ => false,
            };
            if negative {
                Err(ExecError::MiddlewareRejected(mw.tag))
            } else {
                Ok((ctx, arg, Value::Null))
            }
        },
        MwBehavior::RequireContext => {
            let missing = match &ctx {
                Value::Null => true,
                _ => false,
            };
            if missing {
                Err(ExecError::MiddlewareRejected(mw.tag))
            } else {
                Ok((ctx, arg, Value::Null))
            }
        },
        MwBehavior::MapEnvelope => {
            match arg {
                Value::List(mut items) => {
                    proof {
                        lemma_vals_of(items, items@.len() as int);
                    }
                    if items.len() == 2 {
                        let ghost gitems = items;
                        let payload = items.pop().unwrap();
                        let meta = items.pop().unwrap();
                        proof {
                            assert(val_of(Value::List(gitems))->List_0 =~= crate::value::vals_of(gitems, 2));
                        }
                        Ok((ctx, payload, meta))
                    } else {
                        Err(ExecError::ArgumentDecode)
                    }
                },
                _ => Err(ExecError::ArgumentDecode),
            }
        },
    }
}

/// Runs one middleware's outward step on a produced value.
pub fn apply_egress(mw: &Middleware, state: Value, v: Value) -> (r: Value)
    ensures
        val_of(r) == mw_egress_val(*mw, val_of(state), val_of(v)),
{
    match mw.behavior {
        MwBehavior::MapEnvelope => pair_value(state, v),
        _ => v,
    }
}

} // verus!

//! The resolver terminal: the user-supplied function at the end of the
//! pipeline, together with the typed decode of its argument and the
//! conversion of its result into a layer outcome.
//!
//! Resolvers are tagged variants: each names one user function, its
//! expected argument shape, and its result shape (immediate value,
//! deferred value, or stream).

use vstd::prelude::*;
use vstd::string::StringExecFns;

use crate::request::{ExecError, ResolverError};
use crate::value::{val_of, Val, Value};

verus! {

/// A handle on an infinite counting sequence of integers: the streaming
/// outcome of a subscription. The transport layer polls it and may drop
/// it at any point; dropping it releases the handle and no further
/// values are produced.
#[derive(Debug, Clone, Copy, PartialEq, Eq, Structural)]
pub struct CountStream {
    pub next: i64,
}

impl CountStream {
    /// Produces the next value of the sequence and advances the counter.
    pub fn poll(&mut self) -> (v: Value)
        requires
            old(self).next < i64::MAX,
        ensures
            val_of(v) == Val::Int(old(self).next as int),
            final(self).next == old(self).next + 1,
    {
        let v = Value::Int(self.next);
        self.next = self.next + 1;
        v
    }
}

/// The tagged result of a layer call: an immediate value, a deferred
/// value the transport resolves later, or a stream of values.
#[derive(Debug, PartialEq, Eq)]
pub enum Outcome {
    Immediate(Value),
    Deferred(Value),
    Stream(CountStream),
}

/// Model of an outcome.
pub enum OutcomeModel {
    Immediate(Val),
    Deferred(Val),
    Stream(CountStream),
}

/// The model of an outcome: the payload of an immediate or deferred
/// value is replaced by its model.
pub open spec fn outcome_of(o: Outcome) -> OutcomeModel {
    match o {
        Outcome::Immediate(v) => OutcomeModel::Immediate(val_of(v)),
        Outcome::Deferred(v) => OutcomeModel::Deferred(val_of(v)),
        Outcome::Stream(s) => OutcomeModel::Stream(s),
    }
}

/// A user-supplied procedure body.
#[derive(Debug, Clone, Copy, PartialEq, Eq, Structural)]
pub enum Resolver {
    /// `(ctx, name: text) -> text`: returns `"hello, "` followed by the
    /// given name, as an immediate value.
    Greet,
    /// `(ctx, n: int) -> int`: returns `n + 1` as an immediate value, or
    /// fails with an overflow cause at the top of the integer range.
    Increment,
    /// `(ctx, v) -> v`: returns its argument as an immediate value.
    Echo,
    /// `(ctx, v) -> deferred v`: returns its argument as a deferred value.
    EchoDeferred,
    /// `(ctx, start: int) -> stream`: returns the infinite counting
    /// sequence `start, start + 1, ...`.
    Ticks,
}

impl Resolver {
    /// Whether this resolver produces a streaming outcome (the
    /// subscription shape) rather than an immediate or deferred value.
    pub open spec fn is_stream(self) -> bool {
        self is Ticks
    }

    /// Runtime check of `is_stream`.
    pub fn produces_stream(&self) -> (b: bool)
        ensures
            b == self.is_stream(),
    {
        matches!(self, Resolver::Ticks)
    }
}

/// The greeting prefix of the `Greet` resolver.
pub open spec fn greet_prefix() -> Seq<char> {
    "hello, "@
}

/// The typed decode of the terminal: whether the argument value has the
/// shape the resolver's user function expects.
pub open spec fn decodes(r: Resolver, arg: Val) -> bool {
    match r {
        Resolver::Greet => arg is Text,
        Resolver::Increment => arg is Int,
        Resolver::Ticks => arg is Int,
        Resolver::Echo => true,
        Resolver::EchoDeferred => true,
    }
}

/// What the user function returns on a decoded argument, converted to an
/// outcome: queries and mutations yield immediate or deferred values,
/// subscriptions yield streams; a failure of the function itself is
/// surfaced as a resolver error carrying its cause.
pub open spec fn run_resolver(r: Resolver, ctx: Val, arg: Val) -> Result<OutcomeModel, ExecError> {
    match r {
        Resolver::Greet => Ok(OutcomeModel::Immediate(Val::Text(greet_prefix() + arg->Text_0))),
        Resolver::Increment => {
            if arg->Int_0 == i64::MAX as int {
                Err(ExecError::Resolver(ResolverError::Overflow))
            } else {
                Ok(OutcomeModel::Immediate(Val::Int(arg->Int_0 + 1)))
            }
        },
        Resolver::Echo => Ok(OutcomeModel::Immediate(arg)),
        Resolver::EchoDeferred => Ok(OutcomeModel::Deferred(arg)),
        Resolver::Ticks => Ok(OutcomeModel::Stream(CountStream { next: arg->Int_0 as i64 })),
    }
}

/// Runtime check of the typed decode.
pub fn accepts_arg(r: Resolver, arg: &Value) -> (b: bool)
    ensures
        b == decodes(r, val_of(*arg)),
{
    match r {
        Resolver::Greet => matches!(arg, Value::Text(_)),
        Resolver::Increment => matches!(arg, Value::Int(_)),
        Resolver::Ticks => matches!(arg, Value::Int(_)),
        Resolver::Echo => true,
        Resolver::EchoDeferred => true,
    }
}

/// Invokes the user function on an already decoded argument.
pub fn run_decoded(r: Resolver, ctx: Value, arg: Value) -> (res: Result<Outcome, ExecError>)
    requires
        decodes(r, val_of(arg)),
    ensures
        (match res {
            Ok(o) => run_resolver(r, val_of(ctx), val_of(arg)) == Ok::<_, ExecError>(outcome_of(o)),
            Err(e) => run_resolver(r, val_of(ctx), val_of(arg)) == Err::<OutcomeModel, _>(e),
        }),
{
    match r {
        Resolver::Greet => {
            match arg {
                Value::Text(name) => {
                    let s = String::from_str("hello, ").concat(name.as_str());
                    Ok(Outcome::Immediate(Value::Text(s)))
                },
                _ => {
                    proof {
                        assert(false);
                    }
                    Err(ExecError::ArgumentDecode)
                },
            }
        },
        Resolver::Increment => {
            match arg {
                Value::Int(n) => {
                    if n == i64::MAX {
                        Err(ExecError::Resolver(ResolverError::Overflow))
                    } else {
                        Ok(Outcome::Immediate(Value::Int(n + 1)))
                    }
                },
                _ => {
                    proof {
                        assert(false);
                    }
                    Err(ExecError::ArgumentDecode)
                },
            }
        },
        Resolver::Echo => Ok(Outcome::Immediate(arg)),
        Resolver::EchoDeferred => Ok(Outcome::Deferred(arg)),
        Resolver::Ticks => {
            match arg {
                Value::Int(n) => Ok(Outcome::Stream(CountStream { next: n })),
                _ => {
                    proof {
                        assert(false);
                    }
                    Err(ExecError::ArgumentDecode)
                },
            }
        },
    }
}

} // verus!

//! Structured argument and result values.
//!
//! A `Value` is the dynamically typed, self-describing representation that
//! the transport layer hands to the pipeline (a map/array/scalar/null style
//! value, already decoded from wire bytes). Middleware may transform it on
//! the way in, and the terminal resolver performs the final typed decode.
//!
//! `Val` is the mathematical model of a `Value`: `val_of` maps each value to
//! its model, and every contract in this crate speaks about `Val`s.

use vstd::prelude::*;

verus! {

broadcast use vstd::seq::axiom_seq_index_decreases, vstd::std_specs::vec::axiom_vec_decreases_to_view;

/// Mathematical model of a structured value: integers are unbounded,
/// strings are character sequences, lists are sequences of models.
#[verifier::ext_equal]
pub enum Val {
    Null,
    Bool(bool),
    Int(int),
    Text(Seq<char>),
    List(Seq<Val>),
}

/// A structured, self-describing value: the wire representation of
/// procedure arguments and results (scalars, text, and lists).
#[derive(Debug, PartialEq, Eq)]
pub enum Value {
    Null,
    Bool(bool),
    Int(i64),
    Text(String),
    List(Vec<Value>),
}

/// The model of a value: scalars map to themselves, text to its
/// character sequence, and a list to the sequence of its members' models.
pub open spec fn val_of(v: Value) -> Val
    decreases v, 0int,
{
    match v {
        Value::Null => Val::Null,
        Value::Bool(b) => Val::Bool(b),
        Value::Int(i) => Val::Int(i as int),
        Value::Text(s) => Val::Text(s@),
        Value::List(items) => Val::List(vals_of(items, items@.len() as int)),
    }
}

/// Models of the first `n` members of a list of values.
pub open spec fn vals_of(items: Vec<Value>, n: int) -> Seq<Val>
    decreases items, n,
{
    if n <= 0 || n > items@.len() {
        Seq::empty()
    } else {
        vals_of(items, n - 1).push(val_of(items[n - 1]))
    }
}

/// `vals_of` maps each member of the list to its model, index by index.
pub proof fn lemma_vals_of(items: Vec<Value>, n: int)
    requires
        0 <= n <= items@.len(),
    ensures
        vals_of(items, n).len() == n,
        forall|i: int| 0 <= i < n ==> vals_of(items, n)[i] == val_of(items[i]),
    decreases n,
{
    if n > 0 {
        lemma_vals_of(items, n - 1);
    }
}

} // verus!

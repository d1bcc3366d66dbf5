//! The runtime values that scopes store. Their interpretation is owned by
//! the expression evaluator; this core only stores and hands them around.

use vstd::prelude::*;

verus! {

/// A runtime value held in a return-value slot or captured as a match
/// subject. The evaluator owns its meaning; this core stores it opaquely,
/// as an empty marker or an evaluator-chosen payload.
#[derive(Clone, Copy, Debug, PartialEq, Eq, Structural)]
pub enum Data {
    /// The absence of a value: fresh return slots start here.
    Empty,
    /// An evaluator-owned value, identified by an opaque handle.
    Value(u64),
}

/// A named callable binding stored in an environment's table. The evaluator
/// owns and interprets the callable; this core copies it by value on lookup
/// and identifies it by an opaque handle.
#[derive(Clone, Copy, Debug, PartialEq, Eq, Structural, Hash)]
pub struct Function {
    pub id: u64,
}

} // verus!

//! Identifiers for the kinds of state a resource can be in.

use vstd::prelude::*;

verus! {

/// Names one kind of state of one kind of resource.
///
/// `context` identifies the resource-state context type the kind belongs to;
/// `id` tells the kinds of one context apart. Two kinds can only be joined by
/// an edge when they share a context.
#[derive(Clone, Copy, Debug, PartialEq, Eq, Structural, Hash)]
pub struct StateKind {
    pub context: u64,
    pub id: u64,
}

impl StateKind {
    /// The kind `id` of the context `context`.
    pub fn new(context: u64, id: u64) -> (kind: StateKind)
        ensures
            kind == (StateKind { context, id }),
    {
        StateKind { context, id }
    }

    /// Whether both kinds belong to the same context type.
    pub open spec fn shares_context(self, other: StateKind) -> bool {
        self.context == other.context
    }

    /// Whether both kinds belong to the same context type.
    pub fn same_context(&self, other: &StateKind) -> (same: bool)
        ensures
            same == self.shares_context(*other),
    {
        self.context == other.context
    }
}

} // verus!

//! The context that is threaded through every state of one run.

use vstd::prelude::*;

verus! {

/// A type that holds what the states of one resource share during a run.
///
/// It is bound to exactly one manifest type: states written for one kind of
/// resource cannot be driven against the manifest of another.
pub trait ResourceState {
    /// The description of the resource: a pod, a container and so on.
    type Manifest;
}

} // verus!

//! The state of a pod that has run to its end.

use crate::context::ResourceState;
use crate::error::StatusError;
use crate::status::{make_status, Phase, PodStatus};
use crate::transition::Transition;
use vstd::prelude::*;

verus! {

/// Pod was deleted.
#[derive(Default, Debug)]
pub struct Completed;

impl Completed {
    /// There is no work left: the run ends in success. The context is left
    /// as it was.
    pub fn next<S: ResourceState, N>(
        self: Box<Self>,
        _pod_state: &mut S,
        _pod: &S::Manifest,
    ) -> (transition: Transition<N>)
        ensures
            transition == Transition::<N>::Complete(Ok(())),
            *final(_pod_state) == *old(_pod_state),
    {
        Transition::Complete(Ok(()))
    }

    /// The pod succeeded, for the reason "Completed".
    pub fn json_status<S: ResourceState>(&self, _pod_state: &S, _pod: &S::Manifest) -> (status:
        Result<PodStatus, StatusError>)
        ensures
            status matches Ok(patch) && patch.phase == Phase::Succeeded && patch.reason@
                == "Completed"@,
    {
        Ok(make_status(Phase::Succeeded, "Completed"))
    }
}

} // verus!

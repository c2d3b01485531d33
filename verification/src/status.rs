//! The status that the states of a pod report.

use vstd::prelude::*;

verus! {

/// Where a pod is in its lifecycle.
#[derive(Clone, Copy, Debug, PartialEq, Eq, Structural)]
pub enum Phase {
    Pending,
    Running,
    Succeeded,
    Failed,
    Unknown,
}

impl Phase {
    /// The name of the phase as it is written in a status.
    pub open spec fn name_spec(self) -> Seq<char> {
        match self {
            Phase::Pending => "Pending"@,
            Phase::Running => "Running"@,
            Phase::Succeeded => "Succeeded"@,
            Phase::Failed => "Failed"@,
            Phase::Unknown => "Unknown"@,
        }
    }

    /// The name of the phase as it is written in a status.
    pub fn name(&self) -> (name: &'static str)
        ensures
            name@ == self.name_spec(),
    {
        match self {
            Phase::Pending => "Pending",
            Phase::Running => "Running",
            Phase::Succeeded => "Succeeded",
            Phase::Failed => "Failed",
            Phase::Unknown => "Unknown",
        }
    }
}

/// A status patch for a pod: its phase and the reason for it.
#[derive(Debug, PartialEq, Eq)]
pub struct PodStatus {
    pub phase: Phase,
    pub reason: String,
}

/// The status patch that reports `phase` for the reason `reason`.
pub fn make_status(phase: Phase, reason: &str) -> (status: PodStatus)
    ensures
        status.phase == phase,
        status.reason@ == reason@,
{
    PodStatus { phase, reason: reason.to_string() }
}

} // verus!

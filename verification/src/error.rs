//! What can go wrong during a run, one type for each way.

use crate::kind::StateKind;
use vstd::prelude::*;

verus! {

/// A state's work met a condition from which the run cannot recover.
#[derive(Debug, PartialEq, Eq)]
pub struct WorkError {
    pub description: String,
}

/// A state's status patch could not be derived. The run goes on without it.
#[derive(Debug, PartialEq, Eq)]
pub struct StatusError {
    pub description: String,
}

/// The cleanup hook failed. The result of the run stays as decided.
#[derive(Debug, PartialEq, Eq)]
pub struct CleanupError {
    pub description: String,
}

/// Why a run ended in failure.
#[derive(Debug, PartialEq, Eq)]
pub enum RunError {
    /// The work of a state of kind `kind` failed.
    Work { kind: StateKind, error: WorkError },
    /// A state of kind `current` handed over a transition that does not
    /// start at `current`, or whose edge is not declared.
    InvalidTransition { current: StateKind, from: StateKind, to: StateKind },
}

impl WorkError {
    /// A work failure described by `description`.
    pub fn new(description: &str) -> (error: WorkError)
        ensures
            error.description@ == description@,
    {
        WorkError { description: description.to_string() }
    }
}

impl StatusError {
    /// A status failure described by `description`.
    pub fn new(description: &str) -> (error: StatusError)
        ensures
            error.description@ == description@,
    {
        StatusError { description: description.to_string() }
    }
}

impl CleanupError {
    /// A cleanup failure described by `description`.
    pub fn new(description: &str) -> (error: CleanupError)
        ensures
            error.description@ == description@,
    {
        CleanupError { description: description.to_string() }
    }
}

} // verus!

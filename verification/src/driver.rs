//! The driver of one run: what to do next, given what just happened.
//!
//! The states do their work elsewhere. After each piece of outside work the
//! caller tells the driver what came of it, as an [`Event`], and the driver
//! answers with the [`Action`] to perform next:
//!
//! 1. The run starts in the stage [`Stage::Entering`]: the status patch of
//!    the initial state is to be derived.
//! 2. [`Event::Status`] brings the patch or the failure to derive it. The
//!    patch goes to the status sink, the failure is reported; either way the
//!    state's work comes next.
//! 3. [`Event::Work`] brings the state's [`Transition`]. A `Next` along a
//!    declared edge from the current kind is entered (back to step 2, for the
//!    new state). Anything else ends the run: the cleanup hook is due.
//! 4. [`Event::Cleanup`] brings the hook's result. The run is finished, with
//!    the result that was decided in step 3.
//!
//! An event that does not fit the stage is handed back and changes nothing.

use crate::edges::{Edge, EdgeRegistry};
use crate::error::{CleanupError, RunError, StatusError};
use crate::kind::StateKind;
use crate::transition::{StateHolder, Transition};
use vstd::prelude::*;

verus! {

/// Where a run stands.
#[derive(Debug)]
pub enum Stage {
    /// A state was entered; its status patch is awaited.
    Entering,
    /// The status of the current state was dealt with; its work is awaited.
    Working,
    /// The result of the run is decided; the cleanup hook is awaited.
    Cleaning { outcome: Result<(), RunError> },
    /// The cleanup hook has returned. Nothing more happens.
    Finished,
}

/// What came of a piece of outside work.
pub enum Event<N, P> {
    /// The status patch of the current state, or the failure to derive it.
    Status(Result<P, StatusError>),
    /// The transition that the current state's work ended in.
    Work(Transition<N>),
    /// The result of the cleanup hook.
    Cleanup(Result<(), CleanupError>),
}

/// What the caller is to do next.
pub enum Action<N, P> {
    /// Hand `patch`, the status of the state of kind `kind`, to the status
    /// sink; then let that state do its work.
    Deliver { kind: StateKind, patch: P },
    /// Report that the status of the state of kind `kind` could not be
    /// derived; then let that state do its work.
    ReportStatusFailure { kind: StateKind, error: StatusError },
    /// Make `state`, of kind `kind`, the current state and derive its status.
    Enter { kind: StateKind, state: N },
    /// The result of the run is decided: invoke the cleanup hook.
    CleanUp,
    /// The run is over. `outcome` is its result; `cleanup` is what the hook
    /// returned, to be reported if it failed.
    Finish { outcome: Result<(), RunError>, cleanup: Result<(), CleanupError> },
    /// The event did not fit the stage of the run. Nothing changed.
    Rejected { event: Event<N, P> },
}

/// The state of a run as the contracts see it.
pub struct RunState {
    /// The declared edges. They stay as they are for the whole run.
    pub edges: Set<Edge>,
    /// The kind of the current state.
    pub current: StateKind,
    /// Where the run stands.
    pub stage: Stage,
}

impl RunState {
    /// The state of a run that starts in a state of kind `initial`.
    pub open spec fn start(edges: Set<Edge>, initial: StateKind) -> RunState {
        RunState { edges, current: initial, stage: Stage::Entering }
    }

    /// Whether the holder was built for the current state over a declared
    /// edge.
    pub open spec fn admits<N>(self, holder: StateHolder<N>) -> bool {
        &&& holder.origin() == self.current
        &&& self.edges.contains(Edge { from: self.current, to: holder.kind() })
    }

    /// The result that the run ends in when the current state's work ends in
    /// `transition`, or `None` when the run goes on.
    pub open spec fn decides<N>(self, transition: Transition<N>) -> Option<Result<(), RunError>> {
        match transition {
            Transition::Next(holder) => if self.admits(holder) {
                None
            } else {
                Some(
                    Err(
                        RunError::InvalidTransition {
                            current: self.current,
                            from: holder.origin(),
                            to: holder.kind(),
                        },
                    ),
                )
            },
            Transition::Complete(Ok(())) => Some(Ok(())),
            Transition::Complete(Err(error)) => Some(
                Err(RunError::Work { kind: self.current, error }),
            ),
        }
    }

    /// The state after `event`, and the action that answers it.
    pub open spec fn react<N, P>(self, event: Event<N, P>) -> (RunState, Action<N, P>) {
        match (self.stage, event) {
            (Stage::Entering, Event::Status(Ok(patch))) => (
                RunState { stage: Stage::Working, ..self },
                Action::Deliver { kind: self.current, patch },
            ),
            (Stage::Entering, Event::Status(Err(error))) => (
                RunState { stage: Stage::Working, ..self },
                Action::ReportStatusFailure { kind: self.current, error },
            ),
            (Stage::Working, Event::Work(transition)) => match self.decides(transition) {
                Some(outcome) => (
                    RunState { stage: Stage::Cleaning { outcome }, ..self },
                    Action::CleanUp,
                ),
                None => (
                    RunState {
                        current: transition->Next_0.kind(),
                        stage: Stage::Entering,
                        ..self
                    },
                    Action::Enter {
                        kind: transition->Next_0.kind(),
                        state: transition->Next_0.state(),
                    },
                ),
            },
            (Stage::Cleaning { outcome }, Event::Cleanup(cleanup)) => (
                RunState { stage: Stage::Finished, ..self },
                Action::Finish { outcome, cleanup },
            ),
            _ => (self, Action::Rejected { event }),
        }
    }
}

/// Drives one run over a fixed registry of edges.
pub struct Driver {
    registry: EdgeRegistry,
    current: StateKind,
    stage: Stage,
}

impl View for Driver {
    type V = RunState;

    closed spec fn view(&self) -> RunState {
        RunState { edges: self.registry@, current: self.current, stage: self.stage }
    }
}

impl Driver {
    /// The driver of a run that starts in a state of kind `initial`. The
    /// first thing to do is to derive the status of that state.
    pub fn new(registry: EdgeRegistry, initial: StateKind) -> (driver: Driver)
        ensures
            driver@ == RunState::start(registry@, initial),
    {
        Driver { registry, current: initial, stage: Stage::Entering }
    }

    /// The registry that the run is checked against. The states hand it to
    /// [`Transition::next`].
    pub fn registry(&self) -> (registry: &EdgeRegistry)
        ensures
            registry@ == self@.edges,
    {
        &self.registry
    }

    /// The kind of the current state.
    pub fn current(&self) -> (kind: StateKind)
        ensures
            kind == self@.current,
    {
        self.current
    }

    /// Where the run stands.
    pub fn stage(&self) -> (stage: &Stage)
        ensures
            *stage == self@.stage,
    {
        &self.stage
    }

    /// Whether the run is over, cleanup included.
    pub fn is_finished(&self) -> (finished: bool)
        ensures
            finished == (self@.stage is Finished),
    {
        match self.stage {
            Stage::Finished => true,
            _ => false,
        }
    }

    /// Takes in what came of the last piece of outside work and answers with
    /// what to do next, as [`RunState::react`] says.
    pub fn handle<N, P>(&mut self, event: Event<N, P>) -> (action: Action<N, P>)
        ensures
            (final(self)@, action) == old(self)@.react(event),
    {
        match event {
            Event::Status(status) => match self.stage {
                Stage::Entering => {
                    self.stage = Stage::Working;
                    match status {
                        Ok(patch) => Action::Deliver { kind: self.current, patch },
                        Err(error) => Action::ReportStatusFailure { kind: self.current, error },
                    }
                },
                _ => Action::Rejected { event: Event::Status(status) },
            },
            Event::Work(transition) => match self.stage {
                Stage::Working => match transition {
                    Transition::Next(holder) => {
                        let from = holder.origin();
                        let to = holder.kind();
                        if from == self.current && self.registry.is_declared(from, to) {
                            self.current = to;
                            self.stage = Stage::Entering;
                            Action::Enter { kind: to, state: holder.into_state() }
                        } else {
                            self.stage = Stage::Cleaning {
                                outcome: Err(
                                    RunError::InvalidTransition { current: self.current, from, to },
                                ),
                            };
                            Action::CleanUp
                        }
                    },
                    Transition::Complete(Ok(())) => {
                        self.stage = Stage::Cleaning { outcome: Ok(()) };
                        Action::CleanUp
                    },
                    Transition::Complete(Err(error)) => {
                        self.stage = Stage::Cleaning {
                            outcome: Err(RunError::Work { kind: self.current, error }),
                        };
                        Action::CleanUp
                    },
                },
                _ => Action::Rejected { event: Event::Work(transition) },
            },
            Event::Cleanup(cleanup) => {
                let mut stage = Stage::Finished;
                core::mem::swap(&mut self.stage, &mut stage);
                match stage {
                    Stage::Cleaning { outcome } => Action::Finish { outcome, cleanup },
                    other => {
                        self.stage = other;
                        Action::Rejected { event: Event::Cleanup(cleanup) }
                    },
                }
            },
        }
    }
}

} // verus!

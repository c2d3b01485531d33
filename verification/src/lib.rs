//! A lifecycle engine that drives one resource through a declared graph of
//! states.
//!
//! A run starts in a caller-supplied state. On entering a state the engine
//! asks for its status patch and hands it to the status sink; then the state
//! does its work and answers with a [`Transition`]: either the next state to
//! enter or the final result of the run. When the final result is known the
//! cleanup hook of the resource's context is invoked, once.
//!
//! The states themselves do their work outside this crate (they wait on
//! runtimes and networks). The engine sees each state as a [`StateKind`] and
//! carries the state value itself through untouched. What the engine decides
//! is written as a function from the run's state and an incoming [`Event`] to
//! the next state and an [`Action`] for the caller to perform; see
//! [`Driver::handle`].
//!
//! The transition graph is closed: a [`Transition::Next`] can only be built by
//! [`Transition::next`], which consults the [`EdgeRegistry`], and the driver
//! enters a state only along an edge declared from the state it is in.

pub mod completed;
pub mod context;
pub mod driver;
pub mod edges;
pub mod error;
pub mod kind;
pub mod laws;
pub mod status;
pub mod transition;

pub use completed::Completed;
pub use context::ResourceState;
pub use driver::{Action, Driver, Event, RunState, Stage};
pub use edges::{DeclareError, Edge, EdgeRegistry};
pub use error::{CleanupError, RunError, StatusError, WorkError};
pub use kind::StateKind;
pub use status::{make_status, Phase, PodStatus};
pub use transition::{Refusal, StateHolder, Transition, TransitionError};

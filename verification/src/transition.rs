//! The result of one state's work, and the only way to build its `Next`.

use crate::edges::{Edge, EdgeRegistry};
use crate::error::WorkError;
use crate::kind::StateKind;
use vstd::prelude::*;

verus! {

/// Holds the state to enter next, together with the edge it was admitted on.
///
/// The fields are private and nothing but [`Transition::next`] fills them, so
/// a holder always stands for an edge that was declared in the registry it
/// was checked against.
pub struct StateHolder<N> {
    from: StateKind,
    kind: StateKind,
    state: N,
}

/// What a state's work ends in.
pub enum Transition<N> {
    /// Enter the held state next.
    Next(StateHolder<N>),
    /// Stop the run and report this result.
    Complete(Result<(), WorkError>),
}

/// Why [`Transition::next`] refused a transition.
#[derive(Clone, Copy, Debug, PartialEq, Eq, Structural)]
pub enum Refusal {
    /// The two kinds belong to different context types.
    ContextMismatch,
    /// Both kinds share a context, but no edge joins them in this direction.
    UndeclaredEdge,
}

/// A refused transition. The candidate state is handed back untouched.
pub struct TransitionError<N> {
    pub refusal: Refusal,
    pub from: StateKind,
    pub to: StateKind,
    pub state: N,
}

impl<N> StateHolder<N> {
    /// The kind of the state that asked for the transition.
    pub closed spec fn spec_origin(&self) -> StateKind {
        self.from
    }

    /// The kind of the held state.
    pub closed spec fn spec_kind(&self) -> StateKind {
        self.kind
    }

    /// The held state.
    pub closed spec fn state(&self) -> N {
        self.state
    }

    /// The kind of the state that asked for the transition.
    #[verifier::when_used_as_spec(spec_origin)]
    pub fn origin(&self) -> (kind: StateKind)
        ensures
            kind == self.origin(),
    {
        self.from
    }

    /// The kind of the held state.
    #[verifier::when_used_as_spec(spec_kind)]
    pub fn kind(&self) -> (kind: StateKind)
        ensures
            kind == self.kind(),
    {
        self.kind
    }

    /// The holder of `state`, a state of kind `kind`, admitted on the edge
    /// from `from`. Executable code gets one from [`Transition::next`] alone.
    pub closed spec fn sealed(from: StateKind, kind: StateKind, state: N) -> StateHolder<N> {
        StateHolder { from, kind, state }
    }

    /// A sealed holder has the parts it was sealed with.
    pub broadcast proof fn lemma_sealed_parts(from: StateKind, kind: StateKind, state: N)
        ensures
            (#[trigger] Self::sealed(from, kind, state)).origin() == from,
            Self::sealed(from, kind, state).kind() == kind,
            Self::sealed(from, kind, state).state() == state,
    {
    }

    /// Gives up the held state. Only the driver opens a holder.
    pub(crate) fn into_state(self) -> (state: N)
        ensures
            state == self.state(),
    {
        self.state
    }
}

impl<N> Transition<N> {
    /// What [`Transition::next`] answers, over the set of declared edges.
    pub open spec fn next_spec(edges: Set<Edge>, from: StateKind, to: StateKind, state: N) -> Result<
        Transition<N>,
        TransitionError<N>,
    > {
        if edges.contains(Edge { from, to }) {
            Ok(Transition::Next(StateHolder::sealed(from, to, state)))
        } else {
            Err(
                TransitionError {
                    refusal: if from.shares_context(to) {
                        Refusal::UndeclaredEdge
                    } else {
                        Refusal::ContextMismatch
                    },
                    from,
                    to,
                    state,
                },
            )
        }
    }

    /// Builds the transition from a state of kind `from` to `state`, a state
    /// of kind `to`.
    ///
    /// It succeeds exactly when the registry declares the edge from `from` to
    /// `to`, which it only does for kinds of one context. A refusal says which
    /// of the two conditions failed and gives `state` back.
    pub fn next(registry: &EdgeRegistry, from: StateKind, to: StateKind, state: N) -> (result:
        Result<Transition<N>, TransitionError<N>>)
        ensures
            result == Self::next_spec(registry@, from, to, state),
            result is Ok <==> registry.declares(from, to),
            result is Ok ==> from.shares_context(to),
            result matches Ok(transition) ==> {
                &&& transition matches Transition::Next(holder)
                &&& holder.origin() == from
                &&& holder.kind() == to
                &&& holder.state() == state
            },
    {
        if registry.is_declared(from, to) {
            Ok(Transition::Next(StateHolder { from, kind: to, state }))
        } else if from.same_context(&to) {
            Err(TransitionError { refusal: Refusal::UndeclaredEdge, from, to, state })
        } else {
            Err(TransitionError { refusal: Refusal::ContextMismatch, from, to, state })
        }
    }

    /// Whether the transition ends the run.
    pub fn is_complete(&self) -> (complete: bool)
        ensures
            complete == (self is Complete),
    {
        match self {
            Transition::Complete(_) => true,
            Transition::Next(_) => false,
        }
    }
}

} // verus!

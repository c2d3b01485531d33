//! What holds of every registry, every transition and every run.
//!
//! A run is the driver's answer to a sequence of events, any sequence: the
//! laws below make no assumption on what the states do or in which order the
//! caller reports it.

use crate::driver::{Action, Event, RunState, Stage};
use crate::edges::{Edge, EdgeRegistry};
use crate::error::{CleanupError, RunError, StatusError, WorkError};
use crate::kind::StateKind;
use crate::transition::{Refusal, StateHolder, Transition, TransitionError};
use vstd::prelude::*;

verus! {

/// The state that a run is in after `events`, and the actions that the driver
/// answered with, one for each event.
pub open spec fn run<N, P>(start: RunState, events: Seq<Event<N, P>>) -> (RunState, Seq<
    Action<N, P>,
>)
    decreases events.len(),
{
    if events.len() == 0 {
        (start, Seq::empty())
    } else {
        let (before, trace) = run(start, events.drop_last());
        let (after, action) = before.react(events.last());
        (after, trace.push(action))
    }
}

/// The kinds of the states that were entered, in order: the initial one, then
/// one for each `Enter`.
pub open spec fn entered<N, P>(initial: StateKind, trace: Seq<Action<N, P>>) -> Seq<StateKind>
    decreases trace.len(),
{
    if trace.len() == 0 {
        seq![initial]
    } else {
        let earlier = entered(initial, trace.drop_last());
        match trace.last() {
            Action::Enter { kind, .. } => earlier.push(kind),
            _ => earlier,
        }
    }
}

/// The kinds of the states whose status was dealt with, in order: one for
/// each patch delivered and each failure reported.
pub open spec fn status_attempts<N, P>(trace: Seq<Action<N, P>>) -> Seq<StateKind>
    decreases trace.len(),
{
    if trace.len() == 0 {
        Seq::empty()
    } else {
        let earlier = status_attempts(trace.drop_last());
        match trace.last() {
            Action::Deliver { kind, .. } => earlier.push(kind),
            Action::ReportStatusFailure { kind, .. } => earlier.push(kind),
            _ => earlier,
        }
    }
}

/// What became of each status that was dealt with, in order: `true` for a
/// patch delivered, `false` for a failure reported.
pub open spec fn status_results<N, P>(trace: Seq<Action<N, P>>) -> Seq<bool>
    decreases trace.len(),
{
    if trace.len() == 0 {
        Seq::empty()
    } else {
        let earlier = status_results(trace.drop_last());
        match trace.last() {
            Action::Deliver { .. } => earlier.push(true),
            Action::ReportStatusFailure { .. } => earlier.push(false),
            _ => earlier,
        }
    }
}

/// The kinds of the states whose patch was handed to the status sink, in
/// order.
pub open spec fn delivered<N, P>(trace: Seq<Action<N, P>>) -> Seq<StateKind>
    decreases trace.len(),
{
    if trace.len() == 0 {
        Seq::empty()
    } else {
        let earlier = delivered(trace.drop_last());
        match trace.last() {
            Action::Deliver { kind, .. } => earlier.push(kind),
            _ => earlier,
        }
    }
}

/// The kinds that are left, in order, when each kind whose mark is `false`
/// is taken out.
pub open spec fn kept(kinds: Seq<StateKind>, marks: Seq<bool>) -> Seq<StateKind>
    decreases kinds.len(),
{
    if kinds.len() == 0 || marks.len() != kinds.len() {
        Seq::empty()
    } else if marks.last() {
        kept(kinds.drop_last(), marks.drop_last()).push(kinds.last())
    } else {
        kept(kinds.drop_last(), marks.drop_last())
    }
}

/// How often the cleanup hook was asked for.
pub open spec fn cleanups<N, P>(trace: Seq<Action<N, P>>) -> nat
    decreases trace.len(),
{
    if trace.len() == 0 {
        0
    } else {
        let earlier = cleanups(trace.drop_last());
        match trace.last() {
            Action::CleanUp => earlier + 1,
            _ => earlier,
        }
    }
}

/// How often the run was declared over.
pub open spec fn finishes<N, P>(trace: Seq<Action<N, P>>) -> nat
    decreases trace.len(),
{
    if trace.len() == 0 {
        0
    } else {
        let earlier = finishes(trace.drop_last());
        match trace.last() {
            Action::Finish { .. } => earlier + 1,
            _ => earlier,
        }
    }
}

/// Whether each kind in the sequence is joined to the one after it by a
/// declared edge.
pub open spec fn follows_edges(edges: Set<Edge>, kinds: Seq<StateKind>) -> bool {
    forall|i: int|
        0 <= i < kinds.len() - 1 ==> edges.contains(
            Edge { from: #[trigger] kinds[i], to: kinds[i + 1] },
        )
}

/// Whether the result of the run is decided.
pub open spec fn decided(stage: Stage) -> bool {
    stage is Cleaning || stage is Finished
}

/// Unfolds the states entered in a trace by its last action.
proof fn lemma_entered_step<N, P>(
    initial: StateKind,
    earlier: Seq<Action<N, P>>,
    action: Action<N, P>,
)
    ensures
        entered(initial, earlier.push(action)) == match action {
            Action::Enter { kind, .. } => entered(initial, earlier).push(kind),
            _ => entered(initial, earlier),
        },
{
    let trace = earlier.push(action);
    assert(trace.drop_last() == earlier);
    assert(trace.last() == action);
}

/// Unfolds the other readings of a trace by its last action.
proof fn lemma_trace_step<N, P>(earlier: Seq<Action<N, P>>, action: Action<N, P>)
    ensures
        status_attempts(earlier.push(action)) == match action {
            Action::Deliver { kind, .. } => status_attempts(earlier).push(kind),
            Action::ReportStatusFailure { kind, .. } => status_attempts(earlier).push(kind),
            _ => status_attempts(earlier),
        },
        status_results(earlier.push(action)) == match action {
            Action::Deliver { .. } => status_results(earlier).push(true),
            Action::ReportStatusFailure { .. } => status_results(earlier).push(false),
            _ => status_results(earlier),
        },
        delivered(earlier.push(action)) == match action {
            Action::Deliver { kind, .. } => delivered(earlier).push(kind),
            _ => delivered(earlier),
        },
        cleanups(earlier.push(action)) == match action {
            Action::CleanUp => cleanups(earlier) + 1,
            _ => cleanups(earlier),
        },
        finishes(earlier.push(action)) == match action {
            Action::Finish { .. } => finishes(earlier) + 1,
            _ => finishes(earlier),
        },
{
    let trace = earlier.push(action);
    assert(trace.drop_last() == earlier);
    assert(trace.last() == action);
}

/// The first state entered is the initial one.
proof fn lemma_entered_starts<N, P>(initial: StateKind, trace: Seq<Action<N, P>>)
    ensures
        entered(initial, trace).len() > 0,
        entered(initial, trace).first() == initial,
    decreases trace.len(),
{
    if trace.len() > 0 {
        lemma_entered_starts(initial, trace.drop_last());
    }
}

/// A path that is extended along an edge from its end is a path.
proof fn lemma_path_extends(edges: Set<Edge>, kinds: Seq<StateKind>, next: StateKind)
    requires
        kinds.len() > 0,
        follows_edges(edges, kinds),
        edges.contains(Edge { from: kinds.last(), to: next }),
    ensures
        follows_edges(edges, kinds.push(next)),
{
    let longer = kinds.push(next);
    assert forall|i: int| 0 <= i < longer.len() - 1 implies edges.contains(
        Edge { from: #[trigger] longer[i], to: longer[i + 1] },
    ) by {
        if i < kinds.len() - 1 {
            assert(longer[i] == kinds[i]);
            assert(longer[i + 1] == kinds[i + 1]);
        } else {
            assert(longer[i] == kinds.last());
            assert(longer[i + 1] == next);
        }
    }
}

/// What ties the state of a run to the actions taken so far.
spec fn consistent(
    edges: Set<Edge>,
    state: RunState,
    visited: Seq<StateKind>,
    attempts: Seq<StateKind>,
    cleanups: nat,
    finishes: nat,
) -> bool {
    &&& state.edges == edges
    &&& visited.len() > 0
    &&& visited.last() == state.current
    &&& follows_edges(edges, visited)
    &&& attempts == if state.stage is Entering {
        visited.drop_last()
    } else {
        visited
    }
    &&& cleanups == if decided(state.stage) {
        1nat
    } else {
        0nat
    }
    &&& finishes == if state.stage is Finished {
        1nat
    } else {
        0nat
    }
}

/// One event keeps the state of a run and its trace consistent.
proof fn lemma_step_consistent<N, P>(
    edges: Set<Edge>,
    initial: StateKind,
    before: RunState,
    earlier: Seq<Action<N, P>>,
    event: Event<N, P>,
)
    requires
        consistent(
            edges,
            before,
            entered(initial, earlier),
            status_attempts(earlier),
            cleanups(earlier),
            finishes(earlier),
        ),
    ensures
        consistent(
            edges,
            before.react(event).0,
            entered(initial, earlier.push(before.react(event).1)),
            status_attempts(earlier.push(before.react(event).1)),
            cleanups(earlier.push(before.react(event).1)),
            finishes(earlier.push(before.react(event).1)),
        ),
{
    let (after, action) = before.react(event);
    let visited = entered(initial, earlier);
    lemma_entered_step(initial, earlier, action);
    lemma_trace_step(earlier, action);
    match action {
        Action::Enter { kind, state } => {
            assert(visited.push(kind).drop_last() == visited);
            lemma_path_extends(edges, visited, kind);
        },
        Action::Deliver { kind, patch } => {
            assert(visited.drop_last().push(visited.last()) == visited);
        },
        Action::ReportStatusFailure { kind, error } => {
            assert(visited.drop_last().push(visited.last()) == visited);
        },
        _ => {},
    }
}

proof fn lemma_run_consistent<N, P>(edges: Set<Edge>, initial: StateKind, events: Seq<Event<N, P>>)
    ensures
        ({
            let (state, trace) = run(RunState::start(edges, initial), events);
            consistent(
                edges,
                state,
                entered(initial, trace),
                status_attempts(trace),
                cleanups(trace),
                finishes(trace),
            )
        }),
    decreases events.len(),
{
    let start = RunState::start(edges, initial);
    if events.len() == 0 {
        assert(seq![initial].drop_last() == Seq::<StateKind>::empty());
    } else {
        lemma_run_consistent(edges, initial, events.drop_last());
        let (before, earlier) = run(start, events.drop_last());
        lemma_step_consistent(edges, initial, before, earlier, events.last());
    }
}

/// A transition is built for the declared edges and for no others: whatever
/// was declared, the factory succeeds on a pair of kinds exactly when that
/// pair is declared, so it fails on every other pair.
pub proof fn law_next_follows_declarations<N>(
    edges: Set<Edge>,
    from: StateKind,
    to: StateKind,
    state: N,
)
    ensures
        Transition::next_spec(edges, from, to, state) is Ok <==> edges.contains(Edge { from, to }),
        Transition::next_spec(edges, from, to, state) matches Ok(transition) ==> {
            &&& transition matches Transition::Next(holder)
            &&& holder.origin() == from
            &&& holder.kind() == to
            &&& holder.state() == state
        },
{
    broadcast use StateHolder::lemma_sealed_parts;

}

/// A registry never joins kinds of different contexts, so a transition
/// between them is refused as a context mismatch.
pub proof fn law_next_stays_in_context<N>(
    registry: EdgeRegistry,
    from: StateKind,
    to: StateKind,
    state: N,
)
    requires
        !from.shares_context(to),
    ensures
        Transition::next_spec(registry@, from, to, state) matches Err(error) && error.refusal
            == Refusal::ContextMismatch,
{
    registry.lemma_edges_share_context();
}

/// A state may hand over to its own kind only if that self-edge was declared:
/// the edges to and from other kinds do not stand in for it.
pub proof fn law_self_transition_needs_self_edge<N>(edges: Set<Edge>, kind: StateKind, state: N)
    requires
        !edges.contains(Edge { from: kind, to: kind }),
    ensures
        Transition::next_spec(edges, kind, kind, state) == Err::<
            Transition<N>,
            TransitionError<N>,
        >(TransitionError { refusal: Refusal::UndeclaredEdge, from: kind, to: kind, state }),
{
}

/// A refused transition leaves nothing half done: no transition comes out,
/// the error names the two kinds, and the candidate state comes back as it
/// went in. The answer depends on the arguments alone.
pub proof fn law_refusal_changes_nothing<N>(
    edges: Set<Edge>,
    from: StateKind,
    to: StateKind,
    state: N,
)
    requires
        !edges.contains(Edge { from, to }),
    ensures
        Transition::next_spec(edges, from, to, state) matches Err(error) && error.from == from
            && error.to == to && error.state == state,
{
}

/// Declaring an edge declares that ordered pair and nothing else: not the
/// reverse pair, and no pair that would follow by going over two edges.
pub proof fn law_declare_adds_one_edge(
    edges: Set<Edge>,
    from: StateKind,
    to: StateKind,
    other: Edge,
)
    ensures
        EdgeRegistry::declare_spec(edges, from, to).contains(other) <==> edges.contains(other) || (
        from.shares_context(to) && other == (Edge { from, to })),
{
}

/// A state of a kind without outgoing edges cannot hand over to any state.
pub proof fn law_terminal_kind_cannot_advance<N>(
    edges: Set<Edge>,
    kind: StateKind,
    to: StateKind,
    state: N,
)
    requires
        forall|any: StateKind| !edges.contains(Edge { from: kind, to: any }),
    ensures
        Transition::next_spec(edges, kind, to, state) is Err,
{
}

/// The driver answers every event with exactly one action.
pub proof fn law_one_action_per_event<N, P>(
    edges: Set<Edge>,
    initial: StateKind,
    events: Seq<Event<N, P>>,
)
    ensures
        run(RunState::start(edges, initial), events).1.len() == events.len(),
{
    law_run_extends_its_past(RunState::start(edges, initial), events, 0);
}

/// The status sink sees the states in the order in which they were entered.
///
/// At every moment of every run, the states whose status was dealt with (the
/// patch delivered, or the failure to derive it reported) are the states
/// entered so far, in the same order; only the state that was just entered
/// still waits for its turn. No state is passed over, whatever became of the
/// work of the states before it.
pub proof fn law_status_follows_entry<N, P>(
    edges: Set<Edge>,
    initial: StateKind,
    events: Seq<Event<N, P>>,
)
    ensures
        ({
            let (state, trace) = run(RunState::start(edges, initial), events);
            let visited = entered(initial, trace);
            &&& visited.len() > 0
            &&& visited.first() == initial
            &&& visited.last() == state.current
            &&& status_attempts(trace) == if state.stage is Entering {
                visited.drop_last()
            } else {
                visited
            }
        }),
{
    lemma_run_consistent(edges, initial, events);
    lemma_entered_starts(initial, run(RunState::start(edges, initial), events).1);
}

/// The status sink sees the states that were entered, in that order, but for
/// those whose status could not be derived: these and no others are left
/// out. This holds of every trace, so of every run, whatever the work of the
/// states came to.
pub proof fn law_sink_misses_only_failed_statuses<N, P>(trace: Seq<Action<N, P>>)
    ensures
        status_results(trace).len() == status_attempts(trace).len(),
        delivered(trace) == kept(status_attempts(trace), status_results(trace)),
    decreases trace.len(),
{
    if trace.len() > 0 {
        let earlier = trace.drop_last();
        law_sink_misses_only_failed_statuses(earlier);
        assert(trace == earlier.push(trace.last()));
        lemma_trace_step(earlier, trace.last());
        let kinds = status_attempts(earlier);
        let marks = status_results(earlier);
        match trace.last() {
            Action::Deliver { kind, .. } => {
                assert(kinds.push(kind).drop_last() == kinds);
                assert(marks.push(true).drop_last() == marks);
            },
            Action::ReportStatusFailure { kind, .. } => {
                assert(kinds.push(kind).drop_last() == kinds);
                assert(marks.push(false).drop_last() == marks);
            },
            _ => {},
        }
    }
}

/// A patch reaches the sink exactly when it was derived for the state that
/// was just entered, and it is the patch that was derived; a failure to
/// derive it is reported and the run goes on to the state's work.
pub proof fn law_status_is_passed_on<N, P>(state: RunState, event: Event<N, P>)
    ensures
        state.react(event).1 is Deliver <==> state.stage is Entering && event matches Event::Status(
            Ok(_),
        ),
        state.react(event).1 is ReportStatusFailure <==> state.stage is Entering
            && event matches Event::Status(Err(_)),
        state.stage is Entering ==> (event matches Event::Status(Ok(patch)) ==> state.react(
            event,
        ) == (
            RunState { stage: Stage::Working, ..state },
            Action::<N, P>::Deliver { kind: state.current, patch },
        )),
        state.stage is Entering ==> (event matches Event::Status(Err(error)) ==> state.react(
            event,
        ) == (
            RunState { stage: Stage::Working, ..state },
            Action::<N, P>::ReportStatusFailure { kind: state.current, error },
        )),
{
}

/// The cleanup hook is asked for exactly once in a run whose result is
/// decided, and not before that; and such a run is declared over at most
/// once, after the hook has returned.
pub proof fn law_cleanup_exactly_once<N, P>(
    edges: Set<Edge>,
    initial: StateKind,
    events: Seq<Event<N, P>>,
)
    ensures
        ({
            let (state, trace) = run(RunState::start(edges, initial), events);
            &&& cleanups(trace) == if decided(state.stage) {
                1nat
            } else {
                0nat
            }
            &&& finishes(trace) == if state.stage is Finished {
                1nat
            } else {
                0nat
            }
        }),
{
    lemma_run_consistent(edges, initial, events);
}

/// The cleanup hook is asked for in answer to the work that decides the
/// result of the run, be it success or failure, and in answer to nothing
/// else.
pub proof fn law_cleanup_follows_decision<N, P>(state: RunState, event: Event<N, P>)
    ensures
        state.react(event).1 is CleanUp <==> state.stage is Working && (event matches Event::Work(
            transition,
        ) && state.decides(transition) is Some),
        state.stage is Working ==> (event matches Event::Work(Transition::Complete(Ok(())))
            ==> state.react(event).0.stage == (Stage::Cleaning { outcome: Ok(()) })),
        state.stage is Working ==> (event matches Event::Work(Transition::Complete(Err(error)))
            ==> state.react(event).0.stage == (Stage::Cleaning {
            outcome: Err(RunError::Work { kind: state.current, error }),
        })),
{
}

/// Cleanup can always be reached. While the result of a run is not decided, a
/// fatal condition can be reported as failed work, at once or after the
/// status that is still awaited, and the driver asks for the cleanup hook.
pub proof fn law_cleanup_is_reachable<N, P>(state: RunState, status: StatusError, work: WorkError)
    requires
        !decided(state.stage),
    ensures
        state.stage is Working ==> state.react(
            Event::<N, P>::Work(Transition::Complete(Err(work))),
        ).1 is CleanUp,
        state.stage is Entering ==> state.react(Event::<N, P>::Status(Err(status))).0.react(
            Event::<N, P>::Work(Transition::Complete(Err(work))),
        ).1 is CleanUp,
{
}

/// What the cleanup hook returns does not change the result of the run: the
/// run finishes with the result that was decided, and the hook's own result
/// is passed on beside it.
pub proof fn law_cleanup_keeps_outcome<N, P>(
    state: RunState,
    outcome: Result<(), RunError>,
    cleanup: Result<(), CleanupError>,
)
    requires
        state.stage == (Stage::Cleaning { outcome }),
    ensures
        state.react(Event::<N, P>::Cleanup(cleanup)) == (
            RunState { stage: Stage::Finished, ..state },
            Action::<N, P>::Finish { outcome, cleanup },
        ),
{
}

/// Once the result of a run is decided, no state is entered and no status is
/// dealt with any more; once the run is over, every event is handed back.
pub proof fn law_nothing_after_the_end<N, P>(state: RunState, event: Event<N, P>)
    ensures
        decided(state.stage) ==> decided(state.react(event).0.stage) && (state.react(event).1
            is Finish || state.react(event).1 is Rejected),
        state.stage is Finished ==> state.react(event) == (state, Action::Rejected { event }),
{
}

/// What has happened in a run stays as it was: the actions that answer the
/// first `k` events are the same whatever events follow them. So what the
/// other laws say of a whole run, they say of every moment of it.
pub proof fn law_run_extends_its_past<N, P>(start: RunState, events: Seq<Event<N, P>>, k: int)
    requires
        0 <= k <= events.len(),
    ensures
        run(start, events).1.len() == events.len(),
        run(start, events.subrange(0, k)).1 == run(start, events).1.subrange(0, k),
    decreases events.len(),
{
    if events.len() == 0 {
        assert(events.subrange(0, k) == events);
        assert(run(start, events).1.subrange(0, k) == run(start, events).1);
    } else {
        let shorter = events.drop_last();
        let (before, earlier) = run(start, shorter);
        let action = before.react(events.last()).1;
        assert(run(start, events).1 == earlier.push(action));
        if k == events.len() {
            law_run_extends_its_past(start, shorter, k - 1);
            assert(events.subrange(0, k) == events);
            assert(run(start, events).1.subrange(0, k) == run(start, events).1);
        } else {
            law_run_extends_its_past(start, shorter, k);
            assert(shorter.subrange(0, k) == events.subrange(0, k));
            assert(earlier.push(action).subrange(0, k) == earlier.subrange(0, k));
        }
    }
}

/// A run stays with the context type it started in: every state that is
/// entered is of a kind of the initial state's context.
pub proof fn law_run_stays_in_context<N, P>(
    registry: EdgeRegistry,
    initial: StateKind,
    events: Seq<Event<N, P>>,
)
    ensures
        forall|i: int|
            0 <= i < entered(initial, run(RunState::start(registry@, initial), events).1).len()
                ==> initial.shares_context(
                #[trigger] entered(initial, run(RunState::start(registry@, initial), events).1)[i],
            ),
{
    lemma_run_consistent(registry@, initial, events);
    registry.lemma_edges_share_context();
    let visited = entered(initial, run(RunState::start(registry@, initial), events).1);
    lemma_entered_starts(initial, run(RunState::start(registry@, initial), events).1);
    assert forall|i: int| 0 <= i < visited.len() implies initial.shares_context(
        #[trigger] visited[i],
    ) by {
        lemma_path_shares_context(registry@, visited, i);
    }
}

proof fn lemma_path_shares_context(edges: Set<Edge>, kinds: Seq<StateKind>, i: int)
    requires
        follows_edges(edges, kinds),
        forall|edge: Edge| edges.contains(edge) ==> edge.from.shares_context(edge.to),
        0 <= i < kinds.len(),
    ensures
        kinds[0].shares_context(kinds[i]),
    decreases i,
{
    if i > 0 {
        lemma_path_shares_context(edges, kinds, i - 1);
        assert(edges.contains(Edge { from: kinds[i - 1], to: kinds[i - 1 + 1] }));
    }
}

/// A run only ever moves along declared edges: each state that is entered is
/// of a kind to which the kind of the state before it has a declared edge.
pub proof fn law_run_follows_edges<N, P>(
    edges: Set<Edge>,
    initial: StateKind,
    events: Seq<Event<N, P>>,
)
    ensures
        follows_edges(edges, entered(initial, run(RunState::start(edges, initial), events).1)),
        run(RunState::start(edges, initial), events).0.edges == edges,
{
    lemma_run_consistent(edges, initial, events);
}

} // verus!

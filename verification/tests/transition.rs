use kubelet_state::{
    Action, Driver, EdgeRegistry, Event, Refusal, StateKind, Transition, TransitionError,
    WorkError,
};

fn kind(id: u64) -> StateKind {
    StateKind::new(1, id)
}

fn chain() -> EdgeRegistry {
    let mut registry = EdgeRegistry::new();
    assert_eq!(registry.declare(kind(1), kind(2)), Ok(true));
    assert_eq!(registry.declare(kind(2), kind(3)), Ok(true));
    registry
}

fn refused(result: Result<Transition<&'static str>, TransitionError<&'static str>>)
    -> TransitionError<&'static str>
{
    match result {
        Ok(_) => panic!("the transition was built"),
        Err(error) => error,
    }
}

#[test]
fn next_succeeds_on_a_declared_edge() {
    let registry = chain();
    match Transition::next(&registry, kind(1), kind(2), "b") {
        Ok(Transition::Next(holder)) => {
            assert_eq!(holder.origin(), kind(1));
            assert_eq!(holder.kind(), kind(2));
        }
        _ => panic!("a declared edge was refused"),
    }
}

#[test]
fn next_carries_the_state_it_was_given() {
    let registry = chain();
    let mut driver = Driver::new(chain(), kind(1));
    assert!(matches!(
        driver.handle::<String, ()>(Event::Status(Ok(()))),
        Action::Deliver { .. }
    ));
    let transition = match Transition::next(&registry, kind(1), kind(2), String::from("payload")) {
        Ok(transition) => transition,
        Err(_) => panic!("a declared edge was refused"),
    };
    match driver.handle::<String, ()>(Event::Work(transition)) {
        Action::Enter { kind: entered, state } => {
            assert_eq!(entered, kind(2));
            assert_eq!(state, "payload");
        }
        _ => panic!("the state was not entered"),
    }
}

#[test]
fn next_fails_on_every_undeclared_pair() {
    let registry = chain();
    for from in 1..=4u64 {
        for to in 1..=4u64 {
            let declared = (from, to) == (1, 2) || (from, to) == (2, 3);
            let result = Transition::next(&registry, kind(from), kind(to), "s");
            assert_eq!(result.is_ok(), declared, "{} -> {}", from, to);
            assert_eq!(registry.is_declared(kind(from), kind(to)), declared);
        }
    }
}

#[test]
fn undeclared_edge_is_refused_and_the_state_handed_back() {
    let registry = chain();
    let error = refused(Transition::next(&registry, kind(1), kind(3), "c"));
    assert_eq!(error.refusal, Refusal::UndeclaredEdge);
    assert_eq!(error.from, kind(1));
    assert_eq!(error.to, kind(3));
    assert_eq!(error.state, "c");
}

#[test]
fn refusal_is_the_same_every_time_and_changes_nothing() {
    let registry = chain();
    for _ in 0..3 {
        let error = refused(Transition::next(&registry, kind(3), kind(1), "a"));
        assert_eq!(error.refusal, Refusal::UndeclaredEdge);
        assert_eq!(error.from, kind(3));
        assert_eq!(error.to, kind(1));
        assert_eq!(error.state, "a");
        assert_eq!(registry.len(), 2);
        assert!(registry.is_declared(kind(1), kind(2)));
        assert!(registry.is_declared(kind(2), kind(3)));
        assert!(!registry.is_declared(kind(3), kind(1)));
    }
}

#[test]
fn self_transition_is_refused_without_a_self_edge() {
    let registry = chain();
    let error = refused(Transition::next(&registry, kind(1), kind(1), "again"));
    assert_eq!(error.refusal, Refusal::UndeclaredEdge);
    let error = refused(Transition::next(&registry, kind(2), kind(2), "again"));
    assert_eq!(error.refusal, Refusal::UndeclaredEdge);
}

#[test]
fn self_transition_succeeds_once_the_self_edge_is_declared() {
    let mut registry = chain();
    assert_eq!(registry.declare(kind(1), kind(1)), Ok(true));
    assert!(Transition::next(&registry, kind(1), kind(1), "again").is_ok());
    assert!(Transition::next(&registry, kind(2), kind(2), "again").is_err());
}

#[test]
fn kinds_of_different_contexts_are_refused_as_a_mismatch() {
    let registry = chain();
    let foreign = StateKind::new(2, 2);
    let error = refused(Transition::next(&registry, kind(1), foreign, "b"));
    assert_eq!(error.refusal, Refusal::ContextMismatch);
    assert_eq!(error.from, kind(1));
    assert_eq!(error.to, foreign);
    assert_eq!(error.state, "b");
}

#[test]
fn terminal_kind_cannot_build_a_transition() {
    let registry = chain();
    assert!(registry.is_terminal(kind(3)));
    for to in 1..=4u64 {
        assert!(Transition::next(&registry, kind(3), kind(to), "s").is_err());
    }
}

#[test]
fn is_complete_tells_the_variants_apart() {
    let registry = chain();
    let next = Transition::next(&registry, kind(1), kind(2), "b");
    assert!(matches!(next, Ok(ref transition) if !transition.is_complete()));
    assert!(Transition::<&str>::Complete(Ok(())).is_complete());
    assert!(Transition::<&str>::Complete(Err(WorkError::new("boom"))).is_complete());
}

#[test]
fn errors_keep_their_description() {
    assert_eq!(WorkError::new("disk full").description, "disk full");
    assert_eq!(kubelet_state::StatusError::new("no data").description, "no data");
    assert_eq!(kubelet_state::CleanupError::new("busy").description, "busy");
    assert_eq!(WorkError::new("").description, "");
}

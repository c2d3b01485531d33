use kubelet_state::{DeclareError, EdgeRegistry, StateKind};

const POD: u64 = 1;
const VOLUME: u64 = 2;

fn kind(id: u64) -> StateKind {
    StateKind::new(POD, id)
}

#[test]
fn new_registry_declares_nothing() {
    let registry = EdgeRegistry::new();
    assert_eq!(registry.len(), 0);
    assert!(!registry.is_declared(kind(1), kind(2)));
    assert!(!registry.is_declared(kind(1), kind(1)));
    assert!(registry.is_terminal(kind(1)));
    assert!(registry.successors(kind(1)).is_empty());
}

#[test]
fn state_kind_keeps_its_parts() {
    let a = StateKind::new(7, 9);
    assert_eq!(a.context, 7);
    assert_eq!(a.id, 9);
    assert_eq!(a, StateKind { context: 7, id: 9 });
    assert_ne!(a, StateKind { context: 9, id: 7 });
    assert!(a.same_context(&StateKind::new(7, 1)));
    assert!(!a.same_context(&StateKind::new(8, 9)));
}

#[test]
fn declare_makes_the_edge_known() {
    let mut registry = EdgeRegistry::new();
    assert_eq!(registry.declare(kind(1), kind(2)), Ok(true));
    assert!(registry.is_declared(kind(1), kind(2)));
    assert_eq!(registry.len(), 1);
}

#[test]
fn declaring_twice_keeps_one_edge() {
    let mut registry = EdgeRegistry::new();
    assert_eq!(registry.declare(kind(1), kind(2)), Ok(true));
    assert_eq!(registry.declare(kind(1), kind(2)), Ok(false));
    assert_eq!(registry.len(), 1);
    assert_eq!(registry.successors(kind(1)), vec![kind(2)]);
}

#[test]
fn edges_are_not_symmetric() {
    let mut registry = EdgeRegistry::new();
    assert_eq!(registry.declare(kind(1), kind(2)), Ok(true));
    assert!(!registry.is_declared(kind(2), kind(1)));
}

#[test]
fn edges_are_not_transitive() {
    let mut registry = EdgeRegistry::new();
    assert_eq!(registry.declare(kind(1), kind(2)), Ok(true));
    assert_eq!(registry.declare(kind(2), kind(3)), Ok(true));
    assert!(!registry.is_declared(kind(1), kind(3)));
    assert_eq!(registry.len(), 2);
}

#[test]
fn self_loop_needs_its_own_declaration() {
    let mut registry = EdgeRegistry::new();
    assert_eq!(registry.declare(kind(1), kind(2)), Ok(true));
    assert_eq!(registry.declare(kind(2), kind(1)), Ok(true));
    assert!(!registry.is_declared(kind(1), kind(1)));
    assert_eq!(registry.declare(kind(1), kind(1)), Ok(true));
    assert!(registry.is_declared(kind(1), kind(1)));
    assert!(!registry.is_declared(kind(2), kind(2)));
}

#[test]
fn kinds_of_different_contexts_cannot_be_joined() {
    let mut registry = EdgeRegistry::new();
    let pod = StateKind::new(POD, 1);
    let volume = StateKind::new(VOLUME, 1);
    assert_eq!(
        registry.declare(pod, volume),
        Err(DeclareError::ContextMismatch { from: pod, to: volume })
    );
    assert_eq!(registry.len(), 0);
    assert!(!registry.is_declared(pod, volume));
}

#[test]
fn one_registry_keeps_contexts_apart() {
    let mut registry = EdgeRegistry::new();
    assert_eq!(registry.declare(StateKind::new(POD, 1), StateKind::new(POD, 2)), Ok(true));
    assert_eq!(registry.declare(StateKind::new(VOLUME, 1), StateKind::new(VOLUME, 3)), Ok(true));
    assert!(registry.is_declared(StateKind::new(POD, 1), StateKind::new(POD, 2)));
    assert!(!registry.is_declared(StateKind::new(VOLUME, 1), StateKind::new(VOLUME, 2)));
    assert!(!registry.is_declared(StateKind::new(POD, 1), StateKind::new(POD, 3)));
    assert!(registry.is_declared(StateKind::new(VOLUME, 1), StateKind::new(VOLUME, 3)));
}

#[test]
fn successors_lists_each_outgoing_edge_once() {
    let mut registry = EdgeRegistry::new();
    assert_eq!(registry.declare(kind(1), kind(2)), Ok(true));
    assert_eq!(registry.declare(kind(2), kind(3)), Ok(true));
    assert_eq!(registry.declare(kind(1), kind(3)), Ok(true));
    assert_eq!(registry.declare(kind(1), kind(2)), Ok(false));
    assert_eq!(registry.declare(kind(1), kind(1)), Ok(true));
    let mut successors = registry.successors(kind(1));
    successors.sort_by_key(|k| k.id);
    assert_eq!(successors, vec![kind(1), kind(2), kind(3)]);
    assert_eq!(registry.successors(kind(2)), vec![kind(3)]);
    assert!(registry.successors(kind(3)).is_empty());
}

#[test]
fn terminal_kinds_have_no_outgoing_edge() {
    let mut registry = EdgeRegistry::new();
    assert_eq!(registry.declare(kind(1), kind(2)), Ok(true));
    assert!(!registry.is_terminal(kind(1)));
    assert!(registry.is_terminal(kind(2)));
    assert!(registry.is_terminal(kind(3)));
    assert_eq!(registry.declare(kind(2), kind(2)), Ok(true));
    assert!(!registry.is_terminal(kind(2)));
}

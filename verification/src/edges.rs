//! The registry of declared edges between state kinds.

use crate::kind::StateKind;
use vstd::prelude::*;

verus! {

/// A permission for states of kind `from` to hand over to states of kind `to`.
#[derive(Clone, Copy, Debug, PartialEq, Eq, Structural, Hash)]
pub struct Edge {
    pub from: StateKind,
    pub to: StateKind,
}

/// Why an edge could not be declared.
#[derive(Clone, Copy, Debug, PartialEq, Eq, Structural)]
pub enum DeclareError {
    /// The two kinds belong to different context types.
    ContextMismatch { from: StateKind, to: StateKind },
}

/// The declared edges of a state graph.
///
/// Its view is the set of declared edges. Every declared edge joins two kinds
/// of one context, and each ordered pair is held once. The relation is as
/// declared and no more: it is neither closed under symmetry nor under
/// transitivity, and a self-loop needs its own declaration.
pub struct EdgeRegistry {
    edges: Vec<Edge>,
}

impl View for EdgeRegistry {
    type V = Set<Edge>;

    closed spec fn view(&self) -> Set<Edge> {
        Set::new(|edge: Edge| self.edges@.contains(edge) && edge.from.shares_context(edge.to))
    }
}

impl EdgeRegistry {
    /// Each ordered pair is held once, and every edge joins two kinds of one
    /// context.
    #[verifier::type_invariant]
    spec fn well_formed(&self) -> bool {
        &&& self.edges@.no_duplicates()
        &&& forall|i: int|
            0 <= i < self.edges@.len() ==> (#[trigger] self.edges@[i]).from.shares_context(
                self.edges@[i].to,
            )
    }

    /// Whether the edge from `from` to `to` is declared.
    pub open spec fn declares(&self, from: StateKind, to: StateKind) -> bool {
        self@.contains(Edge { from, to })
    }

    /// The edges that are declared once the edge from `from` to `to` has been
    /// asked for: kinds of different contexts are not joined.
    pub open spec fn declare_spec(edges: Set<Edge>, from: StateKind, to: StateKind) -> Set<Edge> {
        if from.shares_context(to) {
            edges.insert(Edge { from, to })
        } else {
            edges
        }
    }

    /// Every declared edge joins two kinds of one context.
    pub proof fn lemma_edges_share_context(self)
        ensures
            forall|edge: Edge| self@.contains(edge) ==> edge.from.shares_context(edge.to),
    {
    }

    /// A registry with no edges.
    pub fn new() -> (registry: EdgeRegistry)
        ensures
            registry@ == Set::<Edge>::empty(),
    {
        let registry = EdgeRegistry { edges: Vec::new() };
        assert(registry@ =~= Set::<Edge>::empty());
        registry
    }

    /// The position of the edge in the list, if it is declared.
    fn position(&self, from: StateKind, to: StateKind) -> (found: Option<usize>)
        ensures
            match found {
                Some(i) => i < self.edges@.len() && self.edges@[i as int] == (Edge { from, to }),
                None => !self.edges@.contains(Edge { from, to }),
            },
    {
        let mut i: usize = 0;
        while i < self.edges.len()
            invariant
                i <= self.edges@.len(),
                forall|j: int| 0 <= j < i ==> self.edges@[j] != (Edge { from, to }),
            decreases self.edges@.len() - i,
        {
            let edge = self.edges[i];
            if edge.from == from && edge.to == to {
                return Some(i);
            }
            i += 1;
        }
        None
    }

    /// Whether the edge from `from` to `to` is declared. A declared edge joins
    /// two kinds of one context.
    pub fn is_declared(&self, from: StateKind, to: StateKind) -> (declared: bool)
        ensures
            declared == self.declares(from, to),
            declared ==> from.shares_context(to),
    {
        proof {
            use_type_invariant(self);
        }
        match self.position(from, to) {
            Some(i) => {
                assert(self.edges@.contains(self.edges@[i as int]));
                true
            },
            None => false,
        }
    }

    /// Declares the edge from `from` to `to`.
    ///
    /// Kinds of different contexts cannot be joined: the registry is left as
    /// it was. Otherwise the edge is declared from now on, and the result says
    /// whether this call was the one that declared it.
    pub fn declare(&mut self, from: StateKind, to: StateKind) -> (result: Result<
        bool,
        DeclareError,
    >)
        ensures
            final(self)@ == Self::declare_spec(old(self)@, from, to),
            result == if from.shares_context(to) {
                Ok::<bool, DeclareError>(!old(self).declares(from, to))
            } else {
                Err::<bool, DeclareError>(DeclareError::ContextMismatch { from, to })
            },
    {
        proof {
            use_type_invariant(&*self);
        }
        if from.context != to.context {
            return Err(DeclareError::ContextMismatch { from, to });
        }
        match self.position(from, to) {
            Some(i) => {
                assert(self.edges@.contains(self.edges@[i as int]));
                assert(self@ =~= self@.insert(Edge { from, to }));
                Ok(false)
            },
            None => {
                let ghost before = *self;
                // The list leaves the registry while it grows and comes back
                // whole.
                let mut edges: Vec<Edge> = Vec::new();
                core::mem::swap(&mut self.edges, &mut edges);
                edges.push(Edge { from, to });
                self.edges = edges;
                assert(self@ =~= before@.insert(Edge { from, to })) by {
                    assert forall|edge: Edge| self@.contains(edge) <==> before@.insert(
                        Edge { from, to },
                    ).contains(edge) by {
                        if self.edges@.contains(edge) {
                            let k = choose|k: int|
                                0 <= k < self.edges@.len() && self.edges@[k] == edge;
                            if k < before.edges@.len() {
                                assert(before.edges@[k] == edge);
                            }
                        }
                        if before.edges@.contains(edge) {
                            let k = choose|k: int|
                                0 <= k < before.edges@.len() && before.edges@[k] == edge;
                            assert(self.edges@[k] == edge);
                        }
                        if edge == (Edge { from, to }) {
                            assert(self.edges@[before.edges@.len() as int] == edge);
                        }
                    }
                }
                Ok(true)
            },
        }
    }

    /// The kinds that states of kind `from` may hand over to: its outgoing
    /// edges, each successor once.
    pub fn successors(&self, from: StateKind) -> (kinds: Vec<StateKind>)
        ensures
            kinds@.no_duplicates(),
            forall|to: StateKind| kinds@.contains(to) <==> self.declares(from, to),
    {
        proof {
            use_type_invariant(self);
        }
        let mut kinds: Vec<StateKind> = Vec::new();
        let mut i: usize = 0;
        while i < self.edges.len()
            invariant
                self.edges@.no_duplicates(),
                forall|j: int|
                    0 <= j < self.edges@.len() ==> (#[trigger] self.edges@[j]).from.shares_context(
                        self.edges@[j].to,
                    ),
                i <= self.edges@.len(),
                kinds@.no_duplicates(),
                forall|to: StateKind|
                    kinds@.contains(to) <==> exists|j: int|
                        0 <= j < i && self.edges@[j] == (Edge { from, to }),
            decreases self.edges@.len() - i,
        {
            let edge = self.edges[i];
            if edge.from == from {
                let ghost before = kinds@;
                kinds.push(edge.to);
                proof {
                    if before.contains(edge.to) {
                        let j = choose|j: int|
                            0 <= j < i && self.edges@[j] == (Edge { from, to: edge.to });
                        assert(self.edges@[j] == self.edges@[i as int]);
                    }
                    assert forall|to: StateKind|
                        kinds@.contains(to) <==> exists|j: int|
                            0 <= j < i + 1 && self.edges@[j] == (Edge { from, to }) by {
                        if kinds@.contains(to) {
                            let k = choose|k: int| 0 <= k < kinds@.len() && kinds@[k] == to;
                            if k < before.len() {
                                assert(before.contains(before[k]));
                                let j = choose|j: int|
                                    0 <= j < i && self.edges@[j] == (Edge { from, to });
                                assert(0 <= j < i + 1 && self.edges@[j] == (Edge { from, to }));
                            } else {
                                assert(self.edges@[i as int] == (Edge { from, to }));
                            }
                        }
                        if exists|j: int| 0 <= j < i + 1 && self.edges@[j] == (Edge { from, to }) {
                            let j = choose|j: int|
                                0 <= j < i + 1 && self.edges@[j] == (Edge { from, to });
                            if j < i {
                                assert(before.contains(to));
                                let k = choose|k: int| 0 <= k < before.len() && before[k] == to;
                                assert(kinds@[k] == to);
                            } else {
                                assert(kinds@[before.len() as int] == to);
                            }
                        }
                    }
                }
            } else {
                proof {
                    assert forall|to: StateKind|
                        kinds@.contains(to) implies exists|j: int|
                            0 <= j < i + 1 && self.edges@[j] == (Edge { from, to }) by {
                        let j = choose|j: int| 0 <= j < i && self.edges@[j] == (Edge { from, to });
                        assert(0 <= j < i + 1 && self.edges@[j] == (Edge { from, to }));
                    }
                }
            }
            i += 1;
        }
        proof {
            assert forall|to: StateKind| kinds@.contains(to) <==> self.declares(from, to) by {
                if kinds@.contains(to) {
                    let j = choose|j: int| 0 <= j < i && self.edges@[j] == (Edge { from, to });
                    assert(self.edges@.contains(self.edges@[j]));
                }
                if self.declares(from, to) {
                    let j = choose|j: int|
                        0 <= j < self.edges@.len() && self.edges@[j] == (Edge { from, to });
                    assert(0 <= j < i && self.edges@[j] == (Edge { from, to }));
                }
            }
        }
        kinds
    }

    /// Whether `kind` has no outgoing edge, so that a state of this kind can
    /// only end the run.
    pub fn is_terminal(&self, kind: StateKind) -> (terminal: bool)
        ensures
            terminal == (forall|to: StateKind| !self.declares(kind, to)),
    {
        proof {
            use_type_invariant(self);
        }
        let mut i: usize = 0;
        while i < self.edges.len()
            invariant
                forall|j: int|
                    0 <= j < self.edges@.len() ==> (#[trigger] self.edges@[j]).from.shares_context(
                        self.edges@[j].to,
                    ),
                i <= self.edges@.len(),
                forall|j: int| 0 <= j < i ==> (#[trigger] self.edges@[j]).from != kind,
            decreases self.edges@.len() - i,
        {
            let edge = self.edges[i];
            if edge.from == kind {
                proof {
                    assert(self.edges@.contains(self.edges@[i as int]));
                    assert(self.declares(kind, edge.to));
                }
                return false;
            }
            i += 1;
        }
        proof {
            assert forall|to: StateKind| !self.declares(kind, to) by {
                if self.declares(kind, to) {
                    let j = choose|j: int|
                        0 <= j < self.edges@.len() && self.edges@[j] == (Edge { from: kind, to });
                    assert(self.edges@[j].from == kind);
                }
            }
        }
        true
    }

    /// How many edges are declared.
    pub fn len(&self) -> (count: usize)
        ensures
            count == self@.len(),
            self@.finite(),
    {
        proof {
            use_type_invariant(self);
            self.edges@.unique_seq_to_set();
            assert(self@ =~= self.edges@.to_set());
        }
        self.edges.len()
    }
}

} // verus!

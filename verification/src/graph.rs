//! The graph model: nodes carrying physical state, typed edges, and
//! construction-time validation of edge endpoints.
//!
//! A graph is built once from a list of node identifiers and a list of
//! `(source, target, kind)` triples.  Construction fails if an
//! identifier repeats or an edge names an unknown identifier; after
//! construction only node positions and displacements ever change.

use vstd::prelude::*;

verus! {

use std::collections::HashMap;
use crate::geom::Vec2;
use crate::num::{COORD_LIMIT, DISP_LIMIT};

broadcast use vstd::std_specs::hash::group_hash_axioms;

/// Selects the render color of an edge downstream; it has no effect on
/// force computation.
#[derive(Clone, Copy, Debug, PartialEq, Eq, Structural)]
pub enum EdgeKind {
    Standard,
    Overlay,
}

/// A node: a unique identifier plus its physical simulation state.
/// `displacement` is the per-iteration force accumulator; it is reset
/// at the start of every simulation step.
#[derive(Clone, Copy, Debug, PartialEq, Eq, Structural)]
pub struct Node {
    pub id: u64,
    pub position: Vec2,
    pub displacement: Vec2,
}

/// An edge, stored as indices into the graph's node sequence after the
/// identifiers it was declared with have been resolved.
#[derive(Clone, Copy, Debug, PartialEq, Eq, Structural)]
pub struct Edge {
    pub source: usize,
    pub target: usize,
    pub kind: EdgeKind,
}

/// Why graph construction was rejected.
#[derive(Clone, Copy, Debug, PartialEq, Eq, Structural)]
pub enum GraphError {
    /// An edge names a node identifier that does not exist.
    InvalidEdgeReference,
    /// A node identifier occurs more than once.
    DuplicateNodeId,
}

/// A node's physical state stays inside the engine's saturation bounds.
pub open spec fn node_state_bounded(n: Node) -> bool {
    n.position.bounded(COORD_LIMIT as int) && n.displacement.bounded(DISP_LIMIT as int)
}

/// No identifier occurs twice.
pub open spec fn ids_distinct(ids: Seq<u64>) -> bool {
    forall|i: int, j: int| 0 <= i < j < ids.len() ==> ids[i] != ids[j]
}

/// `id` occurs in `ids`.
pub open spec fn has_id(ids: Seq<u64>, id: u64) -> bool {
    exists|i: int| 0 <= i < ids.len() && ids[i] == id
}

/// Every link's endpoints name existing identifiers.
pub open spec fn links_resolvable(ids: Seq<u64>, links: Seq<(u64, u64, EdgeKind)>) -> bool {
    forall|j: int| 0 <= j < links.len()
        ==> has_id(ids, (#[trigger] links[j]).0) && has_id(ids, links[j].1)
}

/// A set of nodes keyed by identifier and a sequence of typed edges.
pub struct Graph {
    nodes: Vec<Node>,
    edges: Vec<Edge>,
}

impl Graph {
    pub closed spec fn spec_nodes(self) -> Seq<Node> {
        self.nodes@
    }

    pub closed spec fn spec_edges(self) -> Seq<Edge> {
        self.edges@
    }

    pub open spec fn edge_in_range(self, e: Edge) -> bool {
        e.source < self.spec_nodes().len() && e.target < self.spec_nodes().len()
    }

    /// Structural invariant: edges point at existing nodes, identifiers
    /// are unique, and all physical state is inside the engine's bounds.
    pub open spec fn wf(self) -> bool {
        &&& forall|j: int|
            0 <= j < self.spec_edges().len()
                ==> self.edge_in_range(#[trigger] self.spec_edges()[j])
        &&& forall|i: int, j: int|
            0 <= i < j < self.spec_nodes().len()
                ==> self.spec_nodes()[i].id != self.spec_nodes()[j].id
        &&& forall|i: int|
            0 <= i < self.spec_nodes().len()
                ==> node_state_bounded(#[trigger] self.spec_nodes()[i])
    }

    /// Build a graph from node identifiers and `(source, target, kind)`
    /// triples.  All positions and displacements start at the origin;
    /// the caller chooses an initial placement afterwards.
    pub fn new(ids: Vec<u64>, links: Vec<(u64, u64, EdgeKind)>) -> (r: Result<Graph, GraphError>)
        ensures
            match r {
                Ok(g) => {
                    &&& ids_distinct(ids@)
                    &&& links_resolvable(ids@, links@)
                    &&& g.wf()
                    &&& g.spec_nodes().len() == ids@.len()
                    &&& forall|i: int|
                        0 <= i < ids@.len() ==> {
                            let n = #[trigger] g.spec_nodes()[i];
                            n.id == ids@[i] && n.position == Vec2::spec_zero()
                                && n.displacement == Vec2::spec_zero()
                        }
                    &&& g.spec_edges().len() == links@.len()
                    &&& forall|j: int|
                        0 <= j < links@.len() ==> {
                            let e = #[trigger] g.spec_edges()[j];
                            &&& e.source < ids@.len()
                            &&& e.target < ids@.len()
                            &&& ids@[e.source as int] == links@[j].0
                            &&& ids@[e.target as int] == links@[j].1
                            &&& e.kind == links@[j].2
                        }
                },
                Err(GraphError::DuplicateNodeId) => !ids_distinct(ids@),
                Err(GraphError::InvalidEdgeReference) => ids_distinct(ids@) && !links_resolvable(
                    ids@,
                    links@,
                ),
            },
    {
        let n = ids.len();
        let mut index_of: HashMap<u64, usize> = HashMap::new();
        let mut nodes: Vec<Node> = Vec::new();
        let mut k: usize = 0;
        while k < n
            invariant
                n == ids@.len(),
                k <= n,
                nodes@.len() == k,
                forall|i: int, j: int| 0 <= i < j < k ==> ids@[i] != ids@[j],
                forall|i: int|
                    0 <= i < k ==> index_of@.contains_key(#[trigger] ids@[i])
                        && index_of@[ids@[i]] == i,
                forall|id: u64| #[trigger]
                    index_of@.contains_key(id) ==> has_id(ids@.take(k as int), id),
                forall|i: int|
                    0 <= i < k ==> {
                        let nd = #[trigger] nodes@[i];
                        nd.id == ids@[i] && nd.position == Vec2::spec_zero()
                            && nd.displacement == Vec2::spec_zero()
                    },
            decreases n - k,
        {
            let id = ids[k];
            if index_of.contains_key(&id) {
                proof {
                    let w = choose|i: int| 0 <= i < k && ids@.take(k as int)[i] == id;
                    assert(ids@[w] == ids@[k as int]);
                }
                return Err(GraphError::DuplicateNodeId);
            }
            index_of.insert(id, k);
            nodes.push(Node { id, position: Vec2::zero(), displacement: Vec2::zero() });
            k += 1;
            proof {
                assert forall|id2: u64| #[trigger]
                    index_of@.contains_key(id2) implies has_id(ids@.take(k as int), id2) by {
                    if id2 == id {
                        assert(ids@.take(k as int)[k - 1] == id2);
                    } else {
                        let w = choose|i: int|
                            0 <= i < k - 1 && #[trigger] ids@.take(k as int - 1)[i] == id2;
                        assert(ids@.take(k as int)[w] == id2);
                    }
                }
            }
        }
        proof {
            assert(ids@.take(n as int) =~= ids@);
        }
        let mut edges: Vec<Edge> = Vec::new();
        let mut j: usize = 0;
        while j < links.len()
            invariant
                n == ids@.len(),
                nodes@.len() == n,
                ids_distinct(ids@),
                forall|i: int|
                    0 <= i < n ==> index_of@.contains_key(#[trigger] ids@[i])
                        && index_of@[ids@[i]] == i,
                forall|id: u64| #[trigger] index_of@.contains_key(id) ==> has_id(ids@, id),
                j <= links@.len(),
                edges@.len() == j,
                forall|t: int|
                    0 <= t < j ==> {
                        let e = #[trigger] edges@[t];
                        &&& e.source < n
                        &&& e.target < n
                        &&& ids@[e.source as int] == links@[t].0
                        &&& ids@[e.target as int] == links@[t].1
                        &&& e.kind == links@[t].2
                    },
            decreases links@.len() - j,
        {
            let link = links[j];
            let source = match index_of.get(&link.0) {
                Some(s) => *s,
                None => {
                    return Err(GraphError::InvalidEdgeReference);
                },
            };
            let target = match index_of.get(&link.1) {
                Some(t) => *t,
                None => {
                    return Err(GraphError::InvalidEdgeReference);
                },
            };
            proof {
                let ws = choose|i: int| 0 <= i < n && ids@[i] == link.0;
                assert(index_of@[ids@[ws]] == ws);
                let wt = choose|i: int| 0 <= i < n && ids@[i] == link.1;
                assert(index_of@[ids@[wt]] == wt);
            }
            edges.push(Edge { source, target, kind: link.2 });
            j += 1;
        }
        let g = Graph { nodes, edges };
        proof {
            assert(forall|t: int|
                0 <= t < links@.len() ==> has_id(ids@, (#[trigger] links@[t]).0) && has_id(
                    ids@,
                    links@[t].1,
                )) by {
                assert forall|t: int| 0 <= t < links@.len() implies has_id(
                    ids@,
                    (#[trigger] links@[t]).0,
                ) && has_id(ids@, links@[t].1) by {
                    let e = g.spec_edges()[t];
                    assert(ids@[e.source as int] == links@[t].0);
                    assert(ids@[e.target as int] == links@[t].1);
                }
            }
        }
        Ok(g)
    }

    pub fn node_count(&self) -> (c: usize)
        ensures
            c == self.spec_nodes().len(),
    {
        self.nodes.len()
    }

    pub fn edge_count(&self) -> (c: usize)
        ensures
            c == self.spec_edges().len(),
    {
        self.edges.len()
    }

    pub fn node_at(&self, i: usize) -> (nd: Node)
        requires
            i < self.spec_nodes().len(),
        ensures
            nd == self.spec_nodes()[i as int],
    {
        self.nodes[i]
    }

    pub fn edge_at(&self, j: usize) -> (e: Edge)
        requires
            j < self.spec_edges().len(),
        ensures
            e == self.spec_edges()[j as int],
    {
        self.edges[j]
    }

    /// Move one node; the only mutation of a node the model allows
    /// besides the displacement accumulator.
    pub fn set_position(&mut self, i: usize, position: Vec2)
        requires
            i < old(self).spec_nodes().len(),
            position.bounded(COORD_LIMIT as int),
        ensures
            final(self).spec_edges() == old(self).spec_edges(),
            final(self).spec_nodes() == old(self).spec_nodes().update(
                i as int,
                (Node {
                    id: old(self).spec_nodes()[i as int].id,
                    position: position,
                    displacement: old(self).spec_nodes()[i as int].displacement,
                }),
            ),
    {
        let mut nd = self.nodes[i];
        nd.position = position;
        self.nodes.set(i, nd);
    }

    /// Overwrite one node's force accumulator.
    pub fn set_displacement(&mut self, i: usize, displacement: Vec2)
        requires
            i < old(self).spec_nodes().len(),
            displacement.bounded(DISP_LIMIT as int),
        ensures
            final(self).spec_edges() == old(self).spec_edges(),
            final(self).spec_nodes() == old(self).spec_nodes().update(
                i as int,
                (Node {
                    id: old(self).spec_nodes()[i as int].id,
                    position: old(self).spec_nodes()[i as int].position,
                    displacement: displacement,
                }),
            ),
    {
        let mut nd = self.nodes[i];
        nd.displacement = displacement;
        self.nodes.set(i, nd);
    }

    /// Scatter every node uniformly at random over the square
    /// `[lo, hi] x [lo, hi]`; the engine itself stays deterministic,
    /// only this initial placement is randomized.
    pub fn randomize_positions(&mut self, lo: i64, hi: i64)
        requires
            old(self).wf(),
            -COORD_LIMIT <= lo <= hi <= COORD_LIMIT,
        ensures
            final(self).wf(),
            final(self).spec_edges() == old(self).spec_edges(),
            final(self).spec_nodes().len() == old(self).spec_nodes().len(),
            forall|i: int|
                0 <= i < old(self).spec_nodes().len() ==> {
                    let nd = #[trigger] final(self).spec_nodes()[i];
                    &&& nd.id == old(self).spec_nodes()[i].id
                    &&& nd.displacement == old(self).spec_nodes()[i].displacement
                    &&& lo <= nd.position.x <= hi
                    &&& lo <= nd.position.y <= hi
                },
    {
        let n = self.node_count();
        let mut i: usize = 0;
        while i < n
            invariant
                self.wf(),
                n == self.spec_nodes().len(),
                i <= n,
                -COORD_LIMIT <= lo <= hi <= COORD_LIMIT,
                self.spec_edges() == old(self).spec_edges(),
                n == old(self).spec_nodes().len(),
                forall|t: int|
                    0 <= t < n ==> {
                        let nd = #[trigger] self.spec_nodes()[t];
                        nd.id == old(self).spec_nodes()[t].id && nd.displacement == old(
                            self,
                        ).spec_nodes()[t].displacement
                    },
                forall|t: int|
                    0 <= t < i ==> {
                        let nd = #[trigger] self.spec_nodes()[t];
                        lo <= nd.position.x <= hi && lo <= nd.position.y <= hi
                    },
            decreases n - i,
        {
            let x = random_in_range(lo, hi);
            let y = random_in_range(lo, hi);
            self.set_position(i, Vec2 { x, y });
            i += 1;
        }
    }
}

/// Relies on `rand::random_range`: a sample from a non-empty inclusive
/// integer range lies within that range.
#[verifier::external_body]
fn random_in_range(lo: i64, hi: i64) -> (r: i64)
    requires
        lo <= hi,
    ensures
        lo <= r <= hi,
{
    rand::random_range(lo..=hi)
}

} // verus!

//! The in-memory link graph: a `petgraph` directed graph over node
//! positions, with the memory id of each node beside it.
use vstd::prelude::*;
use petgraph::graph::NodeIndex;
use petgraph::{Directed, Direction, Graph};
use crate::types::MemoryId;

verus! {

/// `petgraph::Graph`.
#[verifier::external_type_specification]
#[verifier::external_body]
#[verifier::reject_recursive_types(N)]
#[verifier::reject_recursive_types(E)]
#[verifier::reject_recursive_types(Ty)]
#[verifier::reject_recursive_types(Ix)]
pub struct ExGraph<N, E, Ty, Ix>(Graph<N, E, Ty, Ix>);

/// `petgraph::Directed`, the marker of directed graphs.
#[verifier::external_type_specification]
#[verifier::external_body]
pub struct ExDirected(Directed);

/// The directed edges a graph holds, as pairs of node positions.
pub uninterp spec fn graph_edges(g: Graph<(), (), Directed, u32>) -> Set<(int, int)>;

/// The number of nodes a graph holds.
pub uninterp spec fn graph_node_count(g: Graph<(), (), Directed, u32>) -> nat;

/// The number of edges a graph holds (parallel edges counted apart).
pub uninterp spec fn graph_edge_count(g: Graph<(), (), Directed, u32>) -> nat;

/// The targets of the edges from node `a`, one per edge, in the order
/// `Graph::neighbors_directed(a, Outgoing)` walks them.
pub uninterp spec fn graph_out_list(g: Graph<(), (), Directed, u32>, a: int) -> Seq<int>;

/// `Graph::new`: no nodes, no edges.
#[verifier::external_body]
fn graph_new() -> (g: Graph<(), (), Directed, u32>)
    ensures
        graph_edges(g) == Set::<(int, int)>::empty(),
        graph_node_count(g) == 0,
        graph_edge_count(g) == 0,
{
    Graph::new()
}

/// `Graph::add_node`: one more node, at the next position; the edges are
/// kept. (It panics when the position would be the index type's maximum.)
#[verifier::external_body]
fn graph_add_node(g: &mut Graph<(), (), Directed, u32>) -> (i: usize)
    requires
        graph_node_count(*old(g)) + 1 < u32::MAX,
    ensures
        i == graph_node_count(*old(g)),
        graph_node_count(*final(g)) == graph_node_count(*old(g)) + 1,
        graph_edges(*final(g)) == graph_edges(*old(g)),
        graph_edge_count(*final(g)) == graph_edge_count(*old(g)),
{
    g.add_node(()).index()
}

/// `Graph::add_edge`: the edge from `a` to `b` added. (It panics when a
/// node does not exist or the edge count reaches the index type's maximum.)
#[verifier::external_body]
fn graph_add_edge(g: &mut Graph<(), (), Directed, u32>, a: usize, b: usize)
    requires
        a < graph_node_count(*old(g)),
        b < graph_node_count(*old(g)),
        graph_edge_count(*old(g)) + 1 < u32::MAX,
    ensures
        graph_edges(*final(g)) == graph_edges(*old(g)).insert((a as int, b as int)),
        graph_node_count(*final(g)) == graph_node_count(*old(g)),
        graph_edge_count(*final(g)) == graph_edge_count(*old(g)) + 1,
{
    g.add_edge(NodeIndex::new(a), NodeIndex::new(b), ());
}

/// `Graph::neighbors_directed(a, Outgoing)`: the targets of the edges from
/// `a` (each edge once, so a target may repeat).
#[verifier::external_body]
fn graph_successors(g: &Graph<(), (), Directed, u32>, a: usize) -> (r: Vec<usize>)
    requires
        a < graph_node_count(*g),
    ensures
        r@.len() == graph_out_list(*g, a as int).len(),
        forall|j: int| 0 <= j < r@.len() ==> r@[j] as int == graph_out_list(*g, a as int)[j],
        forall|j: int| 0 <= j < r@.len() ==> graph_edges(*g).contains((a as int, r@[j] as int)),
        forall|b: int| graph_edges(*g).contains((a as int, b)) ==> exists|j: int|
            0 <= j < r@.len() && r@[j] == b,
{
    g.neighbors_directed(NodeIndex::new(a), Direction::Outgoing).map(|n| n.index()).collect()
}

/// `Graph::neighbors_directed(a, Incoming)`: the sources of the edges into
/// `a` (each edge once).
#[verifier::external_body]
fn graph_predecessors(g: &Graph<(), (), Directed, u32>, a: usize) -> (r: Vec<usize>)
    requires
        a < graph_node_count(*g),
    ensures
        forall|j: int| 0 <= j < r@.len() ==> graph_edges(*g).contains((r@[j] as int, a as int)),
        forall|b: int| graph_edges(*g).contains((b, a as int)) ==> exists|j: int|
            0 <= j < r@.len() && r@[j] == b,
{
    g.neighbors_directed(NodeIndex::new(a), Direction::Incoming).map(|n| n.index()).collect()
}

/// The graph of memory links: the edges between node positions, and the
/// memory id of each position.
pub struct GraphStore {
    graph: Graph<(), (), Directed, u32>,
    ids: Vec<MemoryId>,
}

/// The ids of a list of memories, as plain values.
pub open spec fn id_views(ids: Seq<MemoryId>) -> Seq<Seq<char>> {
    ids.map_values(|m: MemoryId| m@)
}

/// The position a memory id is registered at: its last registration.
pub open spec fn position_of(ids: Seq<Seq<char>>, id: Seq<char>) -> Option<int>
    decreases ids.len(),
{
    if ids.len() == 0 {
        None
    } else if ids.last() == id {
        Some(ids.len() - 1)
    } else {
        position_of(ids.drop_last(), id)
    }
}

impl Default for GraphStore {
    /// An empty graph.
    fn default() -> (r: Self)
        ensures
            r.wf(),
            r.edges() == Set::<(int, int)>::empty(),
            r.node_ids() == Seq::<Seq<char>>::empty(),
            r.node_total() == 0,
            r.edge_total() == 0,
    {
        GraphStore::new()
    }
}

impl GraphStore {
    /// The edges, by node position.
    pub closed spec fn edges(&self) -> Set<(int, int)> {
        graph_edges(self.graph)
    }

    /// The memory id of each node position.
    pub closed spec fn node_ids(&self) -> Seq<Seq<char>> {
        id_views(self.ids@)
    }

    /// Every edge joins registered positions, and the counts stay below the
    /// index type's limit.
    pub closed spec fn wf(&self) -> bool {
        &&& graph_node_count(self.graph) == self.ids@.len()
        &&& graph_node_count(self.graph) < u32::MAX
        &&& graph_edge_count(self.graph) < u32::MAX
        &&& forall|e: (int, int)|
            #[trigger] graph_edges(self.graph).contains(e) ==> 0 <= e.0 < self.ids@.len() && 0
                <= e.1 < self.ids@.len()
    }

    /// Whether the node at position `p` has an edge to a node named `id`.
    pub open spec fn links_to(&self, p: int, id: Seq<char>) -> bool {
        exists|b: int|
            #![trigger self.edges().contains((p, b))]
            self.edges().contains((p, b)) && 0 <= b < self.node_ids().len() && self.node_ids()[b] == id
    }

    /// The targets of the edges from position `a`, one per edge, in the
    /// graph's own walking order.
    pub closed spec fn out_targets(&self, a: int) -> Seq<int> {
        graph_out_list(self.graph, a)
    }

    /// The number of nodes.
    pub closed spec fn node_total(&self) -> nat {
        self.ids@.len()
    }

    /// The number of edges.
    pub closed spec fn edge_total(&self) -> nat {
        graph_edge_count(self.graph)
    }

    /// An empty graph.
    pub fn new() -> (r: Self)
        ensures
            r.wf(),
            r.edges() == Set::<(int, int)>::empty(),
            r.node_ids() == Seq::<Seq<char>>::empty(),
            r.node_total() == 0,
            r.edge_total() == 0,
    {
        let g = GraphStore { graph: graph_new(), ids: Vec::new() };
        assert(id_views(g.ids@) =~= Seq::<Seq<char>>::empty());
        g
    }

    /// Register a memory as a new node; its position is returned. A memory
    /// registered again gets a new node, which its id then names.
    pub fn add_node(&mut self, id: MemoryId) -> (i: usize)
        requires
            old(self).wf(),
            old(self).node_total() + 2 < u32::MAX,
        ensures
            final(self).wf(),
            i == old(self).node_ids().len(),
            final(self).node_ids() == old(self).node_ids().push(id@),
            final(self).node_total() == old(self).node_total() + 1,
            final(self).edges() == old(self).edges(),
            final(self).edge_total() == old(self).edge_total(),
    {
        let i = graph_add_node(&mut self.graph);
        let ghost before = self.ids@;
        self.ids.push(id);
        assert(id_views(self.ids@) =~= id_views(before).push(id@));
        i
    }

    /// Position of a memory id.
    pub fn index_of(&self, id: &MemoryId) -> (r: Option<usize>)
        ensures
            match r {
                Some(i) => position_of(self.node_ids(), id@) == Some(i as int) && i
                    < self.node_ids().len(),
                None => position_of(self.node_ids(), id@) is None,
            },
    {
        let mut k: usize = self.ids.len();
        assert(id_views(self.ids@).subrange(0, self.ids.len() as int) =~= id_views(self.ids@));
        while k > 0
            invariant
                k <= self.ids.len(),
                position_of(id_views(self.ids@), id@) == position_of(
                    id_views(self.ids@).subrange(0, k as int),
                    id@,
                ),
            decreases k,
        {
            let ghost pre = id_views(self.ids@).subrange(0, k as int);
            assert(pre.drop_last() =~= id_views(self.ids@).subrange(0, k - 1));
            assert(pre.last() == self.ids@[k - 1]@);
            if crate::text::str_eq(self.ids[k - 1].0.as_str(), id.0.as_str()) {
                return Some(k - 1);
            }
            k = k - 1;
        }
        None
    }

    /// The memory id at a position.
    pub fn id_at(&self, i: usize) -> (r: &MemoryId)
        requires
            i < self.node_ids().len(),
        ensures
            r@ == self.node_ids()[i as int],
    {
        &self.ids[i]
    }

    /// Add the edge from `source` to `target`; refused, naming the missing
    /// end, when either id is not registered.
    pub fn add_edge(&mut self, source: &MemoryId, target: &MemoryId) -> (r: Result<(), GraphError>)
        requires
            old(self).wf(),
            old(self).edge_total() + 2 < u32::MAX,
        ensures
            final(self).wf(),
            final(self).node_ids() == old(self).node_ids(),
            final(self).node_total() == old(self).node_total(),
            match (position_of(old(self).node_ids(), source@), position_of(
                old(self).node_ids(),
                target@,
            )) {
                (Some(a), Some(b)) => r is Ok && final(self).edges() == old(self).edges().insert(
                    (a, b),
                ) && final(self).edge_total() == old(self).edge_total() + 1,
                (None, _) => r == Err::<(), GraphError>(GraphError::MissingSource)
                    && final(self).edges() == old(self).edges() && final(self).edge_total()
                    == old(self).edge_total(),
                (Some(_), None) => r == Err::<(), GraphError>(GraphError::MissingTarget)
                    && final(self).edges() == old(self).edges() && final(self).edge_total()
                    == old(self).edge_total(),
            },
    {
        let a = match self.index_of(source) {
            Some(a) => a,
            None => return Err(GraphError::MissingSource),
        };
        let b = match self.index_of(target) {
            Some(b) => b,
            None => return Err(GraphError::MissingTarget),
        };
        graph_add_edge(&mut self.graph, a, b);
        Ok(())
    }

    /// Positions reached by one edge from `a`.
    pub fn successors(&self, a: usize) -> (r: Vec<usize>)
        requires
            self.wf(),
            a < self.node_ids().len(),
        ensures
            r@.len() == self.out_targets(a as int).len(),
            forall|j: int| 0 <= j < r@.len() ==> r@[j] as int == self.out_targets(a as int)[j],
            forall|j: int|
                0 <= j < r@.len() ==> self.edges().contains((a as int, r@[j] as int)) && r@[j]
                    < self.node_ids().len(),
            forall|b: int| self.edges().contains((a as int, b)) ==> exists|j: int|
                0 <= j < r@.len() && r@[j] == b,
    {
        let r = graph_successors(&self.graph, a);
        assert forall|j: int| 0 <= j < r@.len() implies r@[j] < self.node_ids().len() by {
            assert(graph_edges(self.graph).contains((a as int, r@[j] as int)));
        }
        r
    }

    /// The ids of the nodes that `id`'s node has an edge to (one entry per
    /// edge); none when `id` is not registered.
    pub fn neighbors(&self, id: &MemoryId) -> (r: Vec<&MemoryId>)
        requires
            self.wf(),
        ensures
            match position_of(self.node_ids(), id@) {
                None => r@.len() == 0,
                Some(p) => r@.len() == self.out_targets(p).len() && forall|j: int|
                    0 <= j < r@.len() ==> 0 <= #[trigger] self.out_targets(p)[j] < self.node_ids().len()
                        && r@[j]@ == self.node_ids()[self.out_targets(p)[j]],
            },
            match position_of(self.node_ids(), id@) {
                None => true,
                Some(p) => (forall|j: int| 0 <= j < r@.len() ==> self.links_to(p, #[trigger] r@[j]@))
                    && (forall|b: int| #[trigger] self.edges().contains((p, b)) ==> exists|j: int|
                    0 <= j < r@.len() && r@[j]@ == self.node_ids()[b]),
            },
    {
        let mut out: Vec<&MemoryId> = Vec::new();
        let p = match self.index_of(id) {
            Some(p) => p,
            None => return out,
        };
        let succ = self.successors(p);
        let mut k: usize = 0;
        while k < succ.len()
            invariant
                self.wf(),
                p < self.node_ids().len(),
                k <= succ.len(),
                out@.len() == k,
                forall|j: int|
                    0 <= j < succ@.len() ==> self.edges().contains((p as int, succ@[j] as int))
                        && succ@[j] < self.node_ids().len(),
                forall|j: int| 0 <= j < k ==> out@[j]@ == self.node_ids()[succ@[j] as int],
                succ@.len() == self.out_targets(p as int).len(),
                forall|j: int| 0 <= j < succ@.len() ==> succ@[j] as int == self.out_targets(p as int)[j],
            decreases succ.len() - k,
        {
            out.push(&self.ids[succ[k]]);
            k = k + 1;
        }
        assert forall|j: int| 0 <= j < out@.len() implies 0 <= #[trigger] self.out_targets(p as int)[j]
            < self.node_ids().len() && out@[j]@ == self.node_ids()[self.out_targets(p as int)[j]] by {
            assert(succ@[j] as int == self.out_targets(p as int)[j]);
        }
        assert forall|j: int| 0 <= j < out@.len() implies self.links_to(p as int, #[trigger] out@[j]@) by {
            assert(self.edges().contains((p as int, succ@[j] as int)));
        }
        assert forall|b: int| #[trigger] self.edges().contains((p as int, b)) implies exists|j: int|
            0 <= j < out@.len() && out@[j]@ == self.node_ids()[b] by {
            let j = choose|j: int| 0 <= j < succ@.len() && succ@[j] == b;
            assert(out@[j]@ == self.node_ids()[b]);
        }
        out
    }

    /// Positions with an edge into `a`.
    pub fn predecessors(&self, a: usize) -> (r: Vec<usize>)
        requires
            self.wf(),
            a < self.node_ids().len(),
        ensures
            forall|j: int|
                0 <= j < r@.len() ==> self.edges().contains((r@[j] as int, a as int)) && r@[j]
                    < self.node_ids().len(),
            forall|b: int| self.edges().contains((b, a as int)) ==> exists|j: int|
                0 <= j < r@.len() && r@[j] == b,
    {
        let r = graph_predecessors(&self.graph, a);
        assert forall|j: int| 0 <= j < r@.len() implies r@[j] < self.node_ids().len() by {
            assert(graph_edges(self.graph).contains((r@[j] as int, a as int)));
        }
        r
    }

    /// Edges join registered positions.
    pub proof fn lemma_edges_in_range(&self)
        requires
            self.wf(),
        ensures
            forall|a: int, b: int|
                #[trigger] self.edges().contains((a, b)) ==> 0 <= a < self.node_ids().len() && 0 <= b
                    < self.node_ids().len(),
    {
        assert forall|a: int, b: int| #[trigger] self.edges().contains((a, b)) implies 0 <= a
            < self.node_ids().len() && 0 <= b < self.node_ids().len() by {
            assert(graph_edges(self.graph).contains((a, b)));
        }
    }

    /// Number of nodes.
    pub fn node_count(&self) -> (r: usize)
        ensures
            r == self.node_ids().len(),
    {
        self.ids.len()
    }
}

/// Why an edge could not be added.
#[derive(Debug, Clone, Copy, PartialEq, Eq, Structural)]
pub enum GraphError {
    /// The source memory is not in the graph.
    MissingSource,
    /// The target memory is not in the graph.
    MissingTarget,
}

impl GraphError {
    /// The message of a refused edge from `source` to `target`: the missing
    /// end named by its id.
    pub fn message(&self, source: &MemoryId, target: &MemoryId) -> (r: String)
        ensures
            r@ == match self {
                GraphError::MissingSource => "source "@ + source@ + " not in graph"@,
                GraphError::MissingTarget => "target "@ + target@ + " not in graph"@,
            },
    {
        proof {
            reveal_strlit("source ");
            reveal_strlit("target ");
            reveal_strlit(" not in graph");
        }
        match self {
            GraphError::MissingSource => {
                let a = crate::text::concat("source ", source.0.as_str());
                crate::text::concat(a.as_str(), " not in graph")
            },
            GraphError::MissingTarget => {
                let a = crate::text::concat("target ", target.0.as_str());
                crate::text::concat(a.as_str(), " not in graph")
            },
        }
    }
}

} // verus!

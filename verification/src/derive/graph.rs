//! The directed graph of states in which the regions of a machine are found, kept in a
//! `petgraph` graph. Node `i` is the `i`-th node added; an edge leads from a transition's
//! source state to its target state.

use vstd::prelude::*;
use petgraph::Graph;
use petgraph::graph::NodeIndex;
use petgraph::visit::Dfs;

verus! {

/// `petgraph::Graph`, declared so that it can be held; its nodes and edges are seen only
/// through `graph_nodes` and `graph_edges`.
#[verifier::external_type_specification]
#[verifier::external_body]
#[verifier::reject_recursive_types(N)]
#[verifier::reject_recursive_types(E)]
#[verifier::reject_recursive_types(Ty)]
#[verifier::reject_recursive_types(Ix)]
pub struct ExGraph<N, E, Ty, Ix>(Graph<N, E, Ty, Ix>);

/// `petgraph::Directed`, the marker of directed graphs.
#[verifier::external_type_specification]
#[verifier::external_body]
pub struct ExDirected(petgraph::Directed);

/// The weights of the graph's nodes, in the order of their indices.
pub uninterp spec fn graph_nodes(g: Graph<usize, i32>) -> Seq<usize>;

/// The graph's edges, as pairs of node indices, in the order they were added.
pub uninterp spec fn graph_edges(g: Graph<usize, i32>) -> Seq<(usize, usize)>;

/// `p` is a walk along the edges: every step follows an edge.
pub open spec fn is_path(edges: Seq<(usize, usize)>, p: Seq<usize>) -> bool {
    &&& p.len() >= 1
    &&& forall|i: int| 0 <= i < p.len() - 1 ==> edges.contains((#[trigger] p[i], p[i + 1]))
}

/// Node `b` can be reached from node `a` by following edges (every node reaches itself).
#[verifier::opaque]
pub open spec fn reachable(edges: Seq<(usize, usize)>, a: usize, b: usize) -> bool {
    exists|p: Seq<usize>| #[trigger] is_path(edges, p) && p[0] == a && p.last() == b
}

/// Calls `Graph::new`: a graph with no nodes and no edges.
#[verifier::external_body]
pub(crate) fn graph_new() -> (g: Graph<usize, i32>)
    ensures
        graph_nodes(g) == Seq::<usize>::empty(),
        graph_edges(g) == Seq::<(usize, usize)>::empty(),
{
    Graph::new()
}

/// Calls `Graph::add_node`: appends a node with the given weight and returns its index. The
/// graph's 32-bit indices leave room for fewer than `u32::MAX` nodes.
#[verifier::external_body]
pub(crate) fn graph_add_node(g: &mut Graph<usize, i32>, weight: usize) -> (r: usize)
    requires
        graph_nodes(*old(g)).len() < u32::MAX,
    ensures
        r == graph_nodes(*old(g)).len(),
        graph_nodes(*final(g)) == graph_nodes(*old(g)).push(weight),
        graph_edges(*final(g)) == graph_edges(*old(g)),
{
    g.add_node(weight).index()
}

/// Calls `Graph::add_edge`: appends an edge between two existing nodes. The graph's 32-bit
/// indices leave room for fewer than `u32::MAX` edges.
#[verifier::external_body]
pub(crate) fn graph_add_edge(g: &mut Graph<usize, i32>, a: usize, b: usize)
    requires
        a < graph_nodes(*old(g)).len(),
        b < graph_nodes(*old(g)).len(),
        graph_edges(*old(g)).len() < u32::MAX,
    ensures
        graph_nodes(*final(g)) == graph_nodes(*old(g)),
        graph_edges(*final(g)) == graph_edges(*old(g)).push((a, b)),
{
    g.add_edge(NodeIndex::new(a), NodeIndex::new(b), 0);
}

/// Walks the graph with `petgraph::visit::Dfs` from `start` and returns the nodes in the order
/// the walk emits them: `start` first, then every node reachable from it, each once. The order
/// of the other nodes is not stated.
#[verifier::external_body]
pub(crate) fn graph_dfs(g: &Graph<usize, i32>, start: usize) -> (r: Vec<usize>)
    requires
        start < graph_nodes(*g).len(),
    ensures
        r@.len() > 0,
        r@[0] == start,
        r@.no_duplicates(),
        forall|x: usize| r@.contains(x) <==> reachable(graph_edges(*g), start, x),
{
    let mut dfs = Dfs::new(g, NodeIndex::new(start));
    let mut out = Vec::new();
    while let Some(n) = dfs.next(g) {
        out.push(n.index());
    }
    out
}

/// Following one more edge from a reachable node reaches its target.
pub proof fn lemma_reachable_step(edges: Seq<(usize, usize)>, a: usize, b: usize, c: usize)
    requires
        reachable(edges, a, b),
        edges.contains((b, c)),
    ensures
        reachable(edges, a, c),
{
    reveal(reachable);
    let p = choose|p: Seq<usize>| #[trigger] is_path(edges, p) && p[0] == a && p.last() == b;
    let q = p.push(c);
    assert forall|i: int| 0 <= i < q.len() - 1 implies edges.contains((#[trigger] q[i], q[i + 1])) by {
        if i < p.len() - 1 {
            assert(q[i] == p[i] && q[i + 1] == p[i + 1]);
            assert(edges.contains((p[i], p[i + 1])));
        } else {
            assert(q[i] == b && q[i + 1] == c);
        }
    }
    assert(is_path(edges, q));
    assert(q[0] == a);
    assert(q.last() == c);
}

} // verus!

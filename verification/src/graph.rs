//! The adjacency structure, kept in a `petgraph` graph.
//!
//! Nothing in this file is proved. It declares the outside types, names what
//! a graph holds, and gives each `petgraph` method that the store calls a
//! contract over those names.

use vstd::prelude::*;
use petgraph::graph::{EdgeIndex, Graph, NodeIndex};
use petgraph::Undirected;
use crate::link::{Link, LinkView};

verus! {

/// `petgraph::graph::Graph`, as a type whose values are only handed on.
#[verifier::external_type_specification]
#[verifier::external_body]
#[verifier::reject_recursive_types(N)]
#[verifier::reject_recursive_types(E)]
#[verifier::reject_recursive_types(Ty)]
#[verifier::reject_recursive_types(Ix)]
pub struct ExGraph<N, E, Ty, Ix>(Graph<N, E, Ty, Ix>);

/// `petgraph::Undirected`, the marker of graphs whose edges have no
/// direction.
#[verifier::external_type_specification]
#[verifier::external_body]
pub struct ExUndirected(Undirected);

/// One edge of the graph: the indices of its two end nodes, in the order in
/// which the edge was created, and the record it carries.
pub struct EdgeView {
    pub source: int,
    pub destination: int,
    pub link: LinkView,
}

/// The node weights of a graph, by node index.
pub uninterp spec fn graph_nodes(g: Graph<String, Link, Undirected, u32>) -> Seq<Seq<char>>;

/// The edges of a graph, by edge index.
pub uninterp spec fn graph_edges(g: Graph<String, Link, Undirected, u32>) -> Seq<EdgeView>;

/// The largest number of nodes, and of edges, that a graph indexed by `u32`
/// takes: the index `u32::MAX` is reserved.
pub open spec fn graph_limit() -> int {
    0xffff_ffff
}

/// `Graph::default`: a graph without nodes or edges.
#[verifier::external_body]
pub(crate) fn graph_new() -> (g: Graph<String, Link, Undirected, u32>)
    ensures
        graph_nodes(g) == Seq::<Seq<char>>::empty(),
        graph_edges(g) == Seq::<EdgeView>::empty(),
{
    Graph::default()
}

/// `Graph::node_count`: the number of nodes.
#[verifier::external_body]
pub(crate) fn graph_node_count(g: &Graph<String, Link, Undirected, u32>) -> (n: usize)
    ensures
        n == graph_nodes(*g).len(),
{
    g.node_count()
}

/// `Graph::edge_count`: the number of edges.
#[verifier::external_body]
pub(crate) fn graph_edge_count(g: &Graph<String, Link, Undirected, u32>) -> (n: usize)
    ensures
        n == graph_edges(*g).len(),
{
    g.edge_count()
}

/// `Graph::add_node`: appends a node with the given weight and returns its
/// index, the former node count. Existing nodes keep their indices, and no
/// edge changes. The method panics on a full graph, which the precondition
/// leaves out.
#[verifier::external_body]
pub(crate) fn graph_add_node(
    g: &mut Graph<String, Link, Undirected, u32>,
    id: String,
) -> (index: usize)
    requires
        graph_nodes(*old(g)).len() < graph_limit(),
    ensures
        index == graph_nodes(*old(g)).len(),
        graph_nodes(*final(g)) == graph_nodes(*old(g)).push(id@),
        graph_edges(*final(g)) == graph_edges(*old(g)),
{
    g.add_node(id).index()
}

/// `Graph::add_edge`: appends an edge from node `a` to node `b` carrying
/// `link`, also when the two are one node or already joined. Existing edges
/// keep their indices, and no node changes. The method panics on a full
/// graph and on an index that names no node, which the precondition leaves
/// out.
#[verifier::external_body]
pub(crate) fn graph_add_edge(
    g: &mut Graph<String, Link, Undirected, u32>,
    a: usize,
    b: usize,
    link: Link,
)
    requires
        a < graph_nodes(*old(g)).len() <= graph_limit(),
        b < graph_nodes(*old(g)).len(),
        graph_edges(*old(g)).len() < graph_limit(),
    ensures
        graph_nodes(*final(g)) == graph_nodes(*old(g)),
        graph_edges(*final(g)) == graph_edges(*old(g)).push(
            EdgeView { source: a as int, destination: b as int, link: link@ },
        ),
{
    g.add_edge(NodeIndex::new(a), NodeIndex::new(b), link);
}

/// `Graph::node_weight`: the weight of node `index`, and `None` past the last
/// node.
#[verifier::external_body]
pub(crate) fn graph_node_weight(
    g: &Graph<String, Link, Undirected, u32>,
    index: usize,
) -> (w: Option<&String>)
    requires
        index <= graph_limit(),
    ensures
        index < graph_nodes(*g).len() ==> w.is_some() && w.unwrap()@ == graph_nodes(
            *g,
        )[index as int],
        index >= graph_nodes(*g).len() ==> w.is_none(),
{
    g.node_weight(NodeIndex::new(index))
}

/// `Graph::edge_weight`: the record of edge `index`, and `None` past the last
/// edge.
#[verifier::external_body]
pub(crate) fn graph_edge_weight(
    g: &Graph<String, Link, Undirected, u32>,
    index: usize,
) -> (w: Option<&Link>)
    requires
        index <= graph_limit(),
    ensures
        index < graph_edges(*g).len() ==> w.is_some() && w.unwrap()@ == graph_edges(
            *g,
        )[index as int].link,
        index >= graph_edges(*g).len() ==> w.is_none(),
{
    g.edge_weight(EdgeIndex::new(index))
}

/// `Graph::edge_endpoints`: the source and the target of edge `index`, and
/// `None` past the last edge.
#[verifier::external_body]
pub(crate) fn graph_edge_endpoints(
    g: &Graph<String, Link, Undirected, u32>,
    index: usize,
) -> (ends: Option<(usize, usize)>)
    requires
        index <= graph_limit(),
    ensures
        index < graph_edges(*g).len() ==> ends.is_some()
            && ends.unwrap().0 == graph_edges(*g)[index as int].source
            && ends.unwrap().1 == graph_edges(*g)[index as int].destination,
        index >= graph_edges(*g).len() ==> ends.is_none(),
{
    g.edge_endpoints(EdgeIndex::new(index)).map(|(a, b)| (a.index(), b.index()))
}

/// Whether an edge joins nodes `a` and `b`, in either order.
pub open spec fn joins(e: EdgeView, a: int, b: int) -> bool {
    (e.source == a && e.destination == b) || (e.source == b && e.destination == a)
}

/// `Graph::find_edge` on an undirected graph: the index of some edge that
/// joins `a` and `b`, in either order, and `None` exactly when there is none.
/// Which one of several parallel edges is found is left open.
#[verifier::external_body]
pub(crate) fn graph_find_edge(
    g: &Graph<String, Link, Undirected, u32>,
    a: usize,
    b: usize,
) -> (found: Option<usize>)
    requires
        a <= graph_limit(),
        b <= graph_limit(),
    ensures
        match found {
            Some(e) => e < graph_edges(*g).len() && joins(
                graph_edges(*g)[e as int],
                a as int,
                b as int,
            ),
            None => forall|e: int|
                0 <= e < graph_edges(*g).len() ==> !joins(
                    #[trigger] graph_edges(*g)[e],
                    a as int,
                    b as int,
                ),
        },
{
    g.find_edge(NodeIndex::new(a), NodeIndex::new(b)).map(|e| e.index())
}

} // verus!

//! The graph store: nodes known by their ids, and the links between them.

use vstd::prelude::*;
use vstd::hash_map::StringHashMap;
use petgraph::graph::Graph;
use petgraph::Undirected;
use crate::error::NetworkError;
use crate::graph::{
    graph_add_edge, graph_add_node, graph_edge_count, graph_edge_endpoints, graph_edge_weight,
    graph_edges, graph_find_edge, graph_limit, graph_new, graph_node_count, graph_node_weight,
    graph_nodes, joins, EdgeView,
};
use crate::link::{Link, LinkView};
use crate::node::{Node, NodeView};

verus! {

/// The mathematical value of a [`Network`]: its nodes in the order in which
/// they were added, and its links in the order in which they were added.
pub struct NetworkView<S> {
    pub nodes: Seq<NodeView<S>>,
    pub links: Seq<EdgeView>,
}

impl<S> NetworkView<S> {
    /// The network without nodes or links.
    pub open spec fn empty() -> Self {
        NetworkView { nodes: Seq::empty(), links: Seq::empty() }
    }

    /// Whether a node carries the id.
    pub open spec fn has_id(self, id: Seq<char>) -> bool {
        exists|i: int| 0 <= i < self.nodes.len() && (#[trigger] self.nodes[i]).id == id
    }

    /// The index of a node that carries the id.
    pub open spec fn index_of(self, id: Seq<char>) -> int {
        choose|i: int| 0 <= i < self.nodes.len() && (#[trigger] self.nodes[i]).id == id
    }

    /// No two nodes carry one id.
    pub open spec fn ids_distinct(self) -> bool {
        forall|i: int, j: int|
            0 <= i < self.nodes.len() && 0 <= j < self.nodes.len()
                && (#[trigger] self.nodes[i]).id == (#[trigger] self.nodes[j]).id ==> i == j
    }

    /// Each link joins two nodes of the network, and they carry the two ids
    /// that the link's record names.
    pub open spec fn links_resolved(self) -> bool {
        forall|e: int|
            0 <= e < self.links.len() ==> {
                let edge = #[trigger] self.links[e];
                &&& 0 <= edge.source < self.nodes.len()
                &&& 0 <= edge.destination < self.nodes.len()
                &&& self.nodes[edge.source].id == edge.link.source_node
                &&& self.nodes[edge.destination].id == edge.link.destination_node
            }
    }

    /// The index under which a node with the id is known once it has been
    /// added: that of the node that carries the id, or, if none does, the
    /// next free one.
    pub open spec fn slot_of(self, id: Seq<char>) -> int {
        if self.has_id(id) {
            self.index_of(id)
        } else {
            self.nodes.len() as int
        }
    }

    /// The network after `node` has been added: as before, if a node carries
    /// its id already, and else with `node` behind the other nodes.
    pub open spec fn with_node(self, node: NodeView<S>) -> Self {
        if self.has_id(node.id) {
            self
        } else {
            NetworkView { nodes: self.nodes.push(node), links: self.links }
        }
    }

    /// Whether the network takes the link: it holds both nodes that the
    /// record names.
    pub open spec fn accepts(self, link: LinkView) -> bool {
        self.has_id(link.source_node) && self.has_id(link.destination_node)
    }

    /// The id that a refused link is refused for: its source if that is
    /// unknown, else its destination.
    pub open spec fn missing_end(self, link: LinkView) -> Seq<char> {
        if !self.has_id(link.source_node) {
            link.source_node
        } else {
            link.destination_node
        }
    }

    /// The network after `link` has been added: as before, if the link is
    /// refused, and else with the link behind the other links, between the
    /// nodes that carry the two ids.
    pub open spec fn with_link(self, link: LinkView) -> Self {
        if self.accepts(link) {
            NetworkView {
                nodes: self.nodes,
                links: self.links.push(
                    EdgeView {
                        source: self.index_of(link.source_node),
                        destination: self.index_of(link.destination_node),
                        link,
                    },
                ),
            }
        } else {
            self
        }
    }
}

/// The network: nodes with their positions, the links between them, and an
/// index from node id to node index.
pub struct Network<S> {
    graph: Graph<String, Link, Undirected, u32>,
    node_indices: StringHashMap<usize>,
    points: Vec<(S, S)>,
}

impl<S> View for Network<S> {
    type V = NetworkView<S>;

    closed spec fn view(&self) -> NetworkView<S> {
        NetworkView {
            nodes: Seq::new(
                graph_nodes(self.graph).len(),
                |i: int| NodeView { id: graph_nodes(self.graph)[i], point: self.points@[i] },
            ),
            links: graph_edges(self.graph),
        }
    }
}

impl<S: Copy> Network<S> {
    /// The representation is consistent: one position per node, and the index
    /// holds exactly the ids of the nodes, each with its node's index.
    pub closed spec fn inv(&self) -> bool {
        &&& self.points@.len() == graph_nodes(self.graph).len()
        &&& forall|i: int|
            0 <= i < graph_nodes(self.graph).len() ==> {
                &&& self.node_indices@.contains_key(#[trigger] graph_nodes(self.graph)[i])
                &&& self.node_indices@[graph_nodes(self.graph)[i]] == i
            }
        &&& forall|id: Seq<char>| #[trigger]
            self.node_indices@.contains_key(id) ==> {
                &&& self.node_indices@[id] < graph_nodes(self.graph).len()
                &&& graph_nodes(self.graph)[self.node_indices@[id] as int] == id
            }
    }

    /// The network is well formed: node ids are unique, every link joins two
    /// nodes of the network under the ids that its record names, and neither
    /// the nodes nor the links outnumber what the graph can index.
    pub open spec fn wf(&self) -> bool {
        &&& self.inv()
        &&& self@.ids_distinct()
        &&& self@.links_resolved()
        &&& self@.nodes.len() <= graph_limit()
        &&& self@.links.len() <= graph_limit()
    }

    /// An empty network.
    pub fn new() -> (network: Self)
        ensures
            network.wf(),
            network@ == NetworkView::<S>::empty(),
    {
        let network = Network {
            graph: graph_new(),
            node_indices: StringHashMap::new(),
            points: Vec::new(),
        };
        proof {
            assert(network@.nodes =~= NetworkView::<S>::empty().nodes);
        }
        network
    }

    /// Adds a node, unless a node with its id is there already.
    ///
    /// A new node gets the next index, the former node count. For an id that
    /// is already present the network stays as it is, the position of the
    /// node that carries the id included, and that node's index is returned.
    pub fn add_node(&mut self, node: Node<S>) -> (index: usize)
        requires
            old(self).wf(),
            !old(self)@.has_id(node.id@) ==> old(self)@.nodes.len() < graph_limit(),
        ensures
            final(self).wf(),
            final(self)@ == old(self)@.with_node(node@),
            index == old(self)@.slot_of(node.id@),
    {
        match self.node_indices.get(node.id.as_str()) {
            Some(index) => {
                proof {
                    assert(self@.nodes[*index as int].id == node.id@);
                }
                *index
            },
            None => {
                proof {
                    assert(!self@.has_id(node.id@)) by {
                        if self@.has_id(node.id@) {
                            let i = self@.index_of(node.id@);
                            assert(self.node_indices@.contains_key(graph_nodes(self.graph)[i]));
                        }
                    }
                }
                let index = graph_add_node(&mut self.graph, node.id.clone());
                self.points.push(node.point);
                self.node_indices.insert(node.id, index);
                proof {
                    assert(self@.nodes =~= old(self)@.nodes.push(node@));
                    assert(self@ == old(self)@.with_node(node@));
                }
                index
            },
        }
    }

    /// Adds a link between the two nodes whose ids its record names.
    ///
    /// The link is refused, and the network stays as it is, when either id is
    /// unknown: the error names the source id if that one is unknown, else the
    /// destination id. A link from a node to itself is accepted, and so is a
    /// second link between two nodes.
    pub fn add_link(&mut self, link: Link) -> (outcome: Result<(), NetworkError>)
        requires
            old(self).wf(),
            old(self)@.accepts(link@) ==> old(self)@.links.len() < graph_limit(),
        ensures
            final(self).wf(),
            final(self)@ == old(self)@.with_link(link@),
            outcome.is_ok() <==> old(self)@.accepts(link@),
            outcome.is_err() ==> outcome.unwrap_err().missing_id() == old(self)@.missing_end(link@),
    {
        let source = match self.node_indices.get(link.source_node.as_str()) {
            Some(index) => *index,
            None => {
                proof {
                    self.lemma_absent(link.source_node@);
                }
                return Err(NetworkError::NodeNotFound(link.source_node.clone()));
            },
        };
        let destination = match self.node_indices.get(link.destination_node.as_str()) {
            Some(index) => *index,
            None => {
                proof {
                    self.lemma_absent(link.destination_node@);
                    self.lemma_present(link.source_node@);
                }
                return Err(NetworkError::NodeNotFound(link.destination_node.clone()));
            },
        };
        proof {
            self.lemma_present(link.source_node@);
            self.lemma_present(link.destination_node@);
        }
        graph_add_edge(&mut self.graph, source, destination, link);
        proof {
            assert(self@.nodes =~= old(self)@.nodes);
            assert(self@ == old(self)@.with_link(link@));
        }
        Ok(())
    }

    /// The number of nodes.
    pub fn node_count(&self) -> (count: usize)
        requires
            self.wf(),
        ensures
            count == self@.nodes.len(),
    {
        graph_node_count(&self.graph)
    }

    /// The number of links.
    pub fn edge_count(&self) -> (count: usize)
        requires
            self.wf(),
        ensures
            count == self@.links.len(),
    {
        graph_edge_count(&self.graph)
    }

    /// The position of the node at `index`.
    pub fn position(&self, index: usize) -> (point: (S, S))
        requires
            self.wf(),
            index < self@.nodes.len(),
        ensures
            point == self@.nodes[index as int].point,
    {
        self.points[index]
    }

    /// Moves the node at `index` to `point`. Nothing else changes.
    pub fn set_position(&mut self, index: usize, point: (S, S))
        requires
            old(self).wf(),
            index < old(self)@.nodes.len(),
        ensures
            final(self).wf(),
            final(self)@.links == old(self)@.links,
            final(self)@.nodes == old(self)@.nodes.update(
                index as int,
                NodeView { id: old(self)@.nodes[index as int].id, point },
            ),
    {
        self.points.set(index, point);
        proof {
            assert(self@.nodes =~= old(self)@.nodes.update(
                index as int,
                NodeView { id: old(self)@.nodes[index as int].id, point },
            ));
        }
    }

    /// The node at `index`, and `None` past the last node.
    pub fn node(&self, index: usize) -> (node: Option<Node<S>>)
        requires
            self.wf(),
        ensures
            index < self@.nodes.len() ==> node.is_some() && node.unwrap()@
                == self@.nodes[index as int],
            index >= self@.nodes.len() ==> node.is_none(),
    {
        if index >= self.points.len() {
            return None;
        }
        let id = graph_node_weight(&self.graph, index).unwrap();
        Some(Node { id: id.clone(), point: self.points[index] })
    }

    /// The link at `index`, and `None` past the last link.
    pub fn link(&self, index: usize) -> (link: Option<Link>)
        requires
            self.wf(),
        ensures
            index < self@.links.len() ==> link.is_some() && link.unwrap()@
                == self@.links[index as int].link,
            index >= self@.links.len() ==> link.is_none(),
    {
        if index >= graph_edge_count(&self.graph) {
            return None;
        }
        let link = graph_edge_weight(&self.graph, index).unwrap();
        Some(link.clone())
    }

    /// The index of the node that carries `id`, and `None` if none does.
    pub fn index_of(&self, id: &str) -> (index: Option<usize>)
        requires
            self.wf(),
        ensures
            index.is_some() <==> self@.has_id(id@),
            index.is_some() ==> index.unwrap() == self@.index_of(id@),
    {
        match self.node_indices.get(id) {
            Some(index) => {
                proof {
                    self.lemma_present(id@);
                }
                Some(*index)
            },
            None => {
                proof {
                    self.lemma_absent(id@);
                }
                None
            },
        }
    }

    /// The index of a link that joins the nodes at `a` and `b`, in either
    /// order, and `None` exactly when there is none. Where several links join
    /// the two, any of them may be the one.
    pub fn find_link(&self, a: usize, b: usize) -> (found: Option<usize>)
        requires
            self.wf(),
        ensures
            match found {
                Some(e) => e < self@.links.len() && joins(self@.links[e as int], a as int, b as int),
                None => forall|e: int|
                    0 <= e < self@.links.len() ==> !joins(#[trigger] self@.links[e], a as int, b as int),
            },
    {
        let count = graph_node_count(&self.graph);
        if a >= count || b >= count {
            return None;
        }
        graph_find_edge(&self.graph, a, b)
    }

    /// The nodes, in the order in which they were added.
    pub fn nodes(&self) -> (nodes: Vec<Node<S>>)
        requires
            self.wf(),
        ensures
            nodes@.len() == self@.nodes.len(),
            forall|i: int| 0 <= i < nodes@.len() ==> (#[trigger] nodes@[i])@ == self@.nodes[i],
    {
        let count = graph_node_count(&self.graph);
        let mut nodes: Vec<Node<S>> = Vec::new();
        let mut i: usize = 0;
        while i < count
            invariant
                self.wf(),
                count == self@.nodes.len(),
                i <= count,
                nodes@.len() == i,
                forall|j: int| 0 <= j < i ==> (#[trigger] nodes@[j])@ == self@.nodes[j],
            decreases count - i,
        {
            nodes.push(self.node(i).unwrap());
            i += 1;
        }
        nodes
    }

    /// The links, in the order in which they were added, each with the node
    /// that its record names as source and the one that it names as
    /// destination.
    pub fn links(&self) -> (links: Vec<(Link, Node<S>, Node<S>)>)
        requires
            self.wf(),
        ensures
            links@.len() == self@.links.len(),
            forall|e: int|
                0 <= e < links@.len() ==> {
                    let entry = #[trigger] links@[e];
                    &&& entry.0@ == self@.links[e].link
                    &&& entry.1@ == self@.nodes[self@.links[e].source]
                    &&& entry.2@ == self@.nodes[self@.links[e].destination]
                },
    {
        let count = graph_edge_count(&self.graph);
        let mut links: Vec<(Link, Node<S>, Node<S>)> = Vec::new();
        let mut e: usize = 0;
        while e < count
            invariant
                self.wf(),
                count == self@.links.len(),
                e <= count,
                links@.len() == e,
                forall|f: int|
                    0 <= f < e ==> {
                        let entry = #[trigger] links@[f];
                        &&& entry.0@ == self@.links[f].link
                        &&& entry.1@ == self@.nodes[self@.links[f].source]
                        &&& entry.2@ == self@.nodes[self@.links[f].destination]
                    },
            decreases count - e,
        {
            let (source, destination) = self.endpoints(e);
            let link = self.link(e).unwrap();
            let from = self.node(source).unwrap();
            let to = self.node(destination).unwrap();
            links.push((link, from, to));
            e += 1;
        }
        links
    }

    /// The indices of the two nodes that the link at `index` joins: first the
    /// one that its record names as source, then the destination.
    pub fn endpoints(&self, index: usize) -> (ends: (usize, usize))
        requires
            self.wf(),
            index < self@.links.len(),
        ensures
            ends.0 == self@.links[index as int].source,
            ends.1 == self@.links[index as int].destination,
            ends.0 < self@.nodes.len(),
            ends.1 < self@.nodes.len(),
    {
        graph_edge_endpoints(&self.graph, index).unwrap()
    }

    /// An id that the index lacks is carried by no node.
    proof fn lemma_absent(&self, id: Seq<char>)
        requires
            self.inv(),
            !self.node_indices@.contains_key(id),
        ensures
            !self@.has_id(id),
    {
        if self@.has_id(id) {
            let i = self@.index_of(id);
            assert(self.node_indices@.contains_key(graph_nodes(self.graph)[i]));
        }
    }

    /// An id that the index holds is carried by the node at the index's entry,
    /// and by no other.
    proof fn lemma_present(&self, id: Seq<char>)
        requires
            self.inv(),
            self.node_indices@.contains_key(id),
        ensures
            self@.has_id(id),
            self@.index_of(id) == self.node_indices@[id],
    {
        let k = self.node_indices@[id] as int;
        assert(self@.nodes[k].id == id);
        let i = self@.index_of(id);
        assert(graph_nodes(self.graph)[i] == id);
    }
}

} // verus!

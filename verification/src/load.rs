//! Building a network from link records.

use vstd::prelude::*;
use crate::graph::graph_limit;
use crate::link::{Link, LinkView};
use crate::network::{Network, NetworkView};
use crate::node::{Node, NodeView};
use crate::scalar::{is_ratio, Scalar};

verus! {

/// The two positions that come with a link record: one for the node that it
/// names as source, one for the destination. A position is used only where
/// the record is the first to name the node.
pub type Places<S> = ((S, S), (S, S));

/// The mathematical values of the records.
pub open spec fn records(links: Seq<Link>) -> Seq<LinkView> {
    links.map_values(|link: Link| link@)
}

impl<S> NetworkView<S> {
    /// The network after the two ends of each link, record by record and the
    /// source before the destination, have been added as nodes.
    pub open spec fn with_ends(self, links: Seq<LinkView>, places: Seq<Places<S>>) -> Self
        decreases links.len(),
    {
        if links.len() == 0 {
            self
        } else {
            self.with_ends(links.drop_last(), places.drop_last()).with_node(
                NodeView { id: links.last().source_node, point: places.last().0 },
            ).with_node(NodeView { id: links.last().destination_node, point: places.last().1 })
        }
    }

    /// The network after the links have been added, one after the other.
    pub open spec fn with_links(self, links: Seq<LinkView>) -> Self
        decreases links.len(),
    {
        if links.len() == 0 {
            self
        } else {
            self.with_links(links.drop_last()).with_link(links.last())
        }
    }

    /// The network that the records describe: first the nodes that they name,
    /// each where the first record that names it places it, then the links.
    pub open spec fn loaded(links: Seq<LinkView>, places: Seq<Places<S>>) -> Self {
        Self::empty().with_ends(links, places).with_links(links)
    }

    /// Whether the network holds both ends of each of the links.
    pub open spec fn has_ends(self, links: Seq<LinkView>) -> bool {
        forall|k: int| 0 <= k < links.len() ==> self.accepts(#[trigger] links[k])
    }
}

/// A node that is added does not remove an id.
pub proof fn lemma_with_node_keeps_ids<S>(network: NetworkView<S>, node: NodeView<S>, id: Seq<char>)
    ensures
        network.has_id(id) ==> network.with_node(node).has_id(id),
        network.with_node(node).has_id(node.id),
{
    let after = network.with_node(node);
    if network.has_id(id) {
        let i = network.index_of(id);
        assert(after.nodes[i].id == id);
    }
    if !network.has_id(node.id) {
        assert(after.nodes[network.nodes.len() as int].id == node.id);
    }
}

/// After the ends of the links have been added as nodes, the network holds
/// both ends of each of them, and at most two more nodes per link than
/// before.
pub proof fn lemma_with_ends<S>(network: NetworkView<S>, links: Seq<LinkView>, places: Seq<Places<S>>)
    ensures
        network.with_ends(links, places).has_ends(links),
        network.with_ends(links, places).links == network.links,
        network.nodes.len() <= network.with_ends(links, places).nodes.len() <= network.nodes.len() + 2
            * links.len(),
    decreases links.len(),
{
    if links.len() > 0 {
        let before = network.with_ends(links.drop_last(), places.drop_last());
        lemma_with_ends(network, links.drop_last(), places.drop_last());
        let source = NodeView { id: links.last().source_node, point: places.last().0 };
        let destination = NodeView { id: links.last().destination_node, point: places.last().1 };
        let between = before.with_node(source);
        let after = between.with_node(destination);
        assert forall|k: int| 0 <= k < links.len() implies after.accepts(#[trigger] links[k]) by {
            if k < links.len() - 1 {
                assert(links[k] == links.drop_last()[k]);
                assert(before.accepts(links.drop_last()[k]));
            }
            lemma_with_node_keeps_ids(before, source, links[k].source_node);
            lemma_with_node_keeps_ids(before, source, links[k].destination_node);
            lemma_with_node_keeps_ids(between, destination, links[k].source_node);
            lemma_with_node_keeps_ids(between, destination, links[k].destination_node);
        }
    }
}

/// A network that holds both ends of each of the links takes them all, and
/// keeps its nodes.
pub proof fn lemma_with_links<S>(network: NetworkView<S>, links: Seq<LinkView>)
    requires
        network.has_ends(links),
    ensures
        network.with_links(links).nodes == network.nodes,
        network.with_links(links).links.len() == network.links.len() + links.len(),
        forall|k: int|
            0 <= k < links.len() ==> (#[trigger] network.with_links(links).links[network.links.len()
                + k]).link == links[k],
    decreases links.len(),
{
    if links.len() > 0 {
        let front = links.drop_last();
        assert forall|k: int| 0 <= k < front.len() implies network.accepts(#[trigger] front[k]) by {
            assert(front[k] == links[k]);
        }
        lemma_with_links(network, front);
        let before = network.with_links(front);
        assert(network.accepts(links[links.len() - 1]));
        assert(before.accepts(links.last()));
        let after = before.with_link(links.last());
        assert forall|k: int| 0 <= k < links.len() implies (#[trigger] after.links[network.links.len()
            + k]).link == links[k] by {
            if k < links.len() - 1 {
                assert(after.links[network.links.len() + k] == before.links[network.links.len() + k]);
                assert(front[k] == links[k]);
            }
        }
    }
}

/// `rand::random_range` on the half-open range from `low` to `high`: some
/// value of the range, drawn from the thread's generator. The function panics
/// on an empty range, which the precondition leaves out.
#[verifier::external_body]
fn random_between(low: u64, high: u64) -> (value: u64)
    requires
        low < high,
    ensures
        low <= value < high,
{
    rand::random_range(low..high)
}

/// The rectangle that random positions are drawn from: `left <= x < right`
/// and `top <= y < bottom`, in whole units.
#[derive(Debug, Clone, Copy)]
pub struct Area {
    pub left: u64,
    pub right: u64,
    pub top: u64,
    pub bottom: u64,
}

impl Area {
    /// Whether the rectangle holds a point.
    pub open spec fn wf(&self) -> bool {
        self.left < self.right && self.top < self.bottom
    }

    /// Whether the whole coordinates lie in the rectangle.
    pub open spec fn holds(&self, x: u64, y: u64) -> bool {
        self.left <= x < self.right && self.top <= y < self.bottom
    }

    /// Whole coordinates drawn at random from the rectangle.
    pub fn random_cell(&self) -> (cell: (u64, u64))
        requires
            self.wf(),
        ensures
            self.holds(cell.0, cell.1),
    {
        let x = random_between(self.left, self.right);
        let y = random_between(self.top, self.bottom);
        (x, y)
    }

    /// Whether `point` is a position of the rectangle: the scalars of whole
    /// coordinates that lie in it.
    pub open spec fn is_spot<S: Scalar>(&self, point: (S, S)) -> bool {
        exists|x: u64, y: u64| self.holds(x, y) && is_ratio(x, 1, point.0) && is_ratio(y, 1, point.1)
    }

    /// A position drawn at random from the rectangle: the scalars of the
    /// whole coordinates of [`Area::random_cell`].
    pub fn random_point<S: Scalar>(&self) -> (point: (S, S))
        requires
            self.wf(),
        ensures
            self.is_spot(point),
    {
        let (x, y) = self.random_cell();
        let point = (S::ratio(x, 1), S::ratio(y, 1));
        assert(self.holds(x, y) && is_ratio(x, 1, point.0) && is_ratio(y, 1, point.1));
        point
    }
}

impl<S: Scalar> NetworkView<S> {
    /// Whether `self` is the network that the records describe, with places
    /// that are positions of `area`.
    pub open spec fn is_scattered(self, links: Seq<LinkView>, area: Area) -> bool {
        exists|places: Seq<Places<S>>|
            {
                &&& places.len() == links.len()
                &&& forall|m: int|
                    0 <= m < places.len() ==> area.is_spot((#[trigger] places[m]).0) && area.is_spot(
                        places[m].1,
                    )
                &&& self == NetworkView::loaded(links, places)
            }
    }
}

impl<S: Scalar> Network<S> {
    /// The network that the records describe, with every node at a position
    /// drawn at random from `area`: [`Network::from_links`] on random places.
    pub fn scattered(links: &Vec<Link>, area: Area) -> (network: Self)
        requires
            area.wf(),
            2 * links@.len() <= graph_limit(),
        ensures
            network.wf(),
            network@.is_scattered(records(links@), area),
            network@.links.len() == links@.len(),
    {
        let mut places: Vec<Places<S>> = Vec::new();
        let mut k: usize = 0;
        while k < links.len()
            invariant
                area.wf(),
                k <= links@.len(),
                places@.len() == k,
                forall|m: int|
                    0 <= m < k ==> area.is_spot((#[trigger] places@[m]).0) && area.is_spot(places@[m].1),
            decreases links@.len() - k,
        {
            let source = area.random_point::<S>();
            let destination = area.random_point::<S>();
            places.push((source, destination));
            k += 1;
        }
        let network = Network::from_links(links, &places);
        proof {
            assert(places@.len() == links@.len() && (forall|m: int|
                0 <= m < places@.len() ==> area.is_spot((#[trigger] places@[m]).0) && area.is_spot(
                    places@[m].1,
                )) && network@ == NetworkView::loaded(records(links@), places@));
        }
        network
    }
}

impl<S: Copy> Network<S> {
    /// The network that the records describe.
    ///
    /// First every node that a record names is added, record by record and
    /// the source before the destination: a node lies where the first record
    /// that names it places it. Then the links are added in their order. Every
    /// link finds both its ends, so none is refused.
    pub fn from_links(links: &Vec<Link>, places: &Vec<Places<S>>) -> (network: Self)
        requires
            places@.len() == links@.len(),
            2 * links@.len() <= graph_limit(),
        ensures
            network.wf(),
            network@ == NetworkView::loaded(records(links@), places@),
            network@.links.len() == links@.len(),
    {
        let mut network = Network::new();
        let ghost all = records(links@);
        let mut k: usize = 0;
        while k < links.len()
            invariant
                network.wf(),
                all == records(links@),
                places@.len() == links@.len(),
                2 * links@.len() <= graph_limit(),
                k <= links@.len(),
                network@ == NetworkView::<S>::empty().with_ends(
                    all.take(k as int),
                    places@.take(k as int),
                ),
            decreases links@.len() - k,
        {
            proof {
                lemma_with_ends(NetworkView::<S>::empty(), all.take(k as int), places@.take(k as int));
            }
            let link = &links[k];
            let place = places[k];
            network.add_node(Node { id: link.source_node.clone(), point: place.0 });
            network.add_node(Node { id: link.destination_node.clone(), point: place.1 });
            proof {
                let front = all.take(k + 1);
                let spots = places@.take(k + 1);
                assert(front.drop_last() =~= all.take(k as int));
                assert(spots.drop_last() =~= places@.take(k as int));
                assert(front.last() == link@);
                assert(spots.last() == place);
            }
            k += 1;
        }
        proof {
            assert(all.take(k as int) =~= all);
            assert(places@.take(k as int) =~= places@);
            lemma_with_ends(NetworkView::<S>::empty(), all, places@);
        }
        let ghost ends = network@;
        let mut k: usize = 0;
        while k < links.len()
            invariant
                network.wf(),
                all == records(links@),
                2 * links@.len() <= graph_limit(),
                k <= links@.len(),
                ends.has_ends(all),
                ends.links.len() == 0,
                network@ == ends.with_links(all.take(k as int)),
            decreases links@.len() - k,
        {
            proof {
                assert forall|j: int| 0 <= j < k implies ends.accepts(
                    #[trigger] all.take(k as int)[j],
                ) by {
                    assert(all.take(k as int)[j] == all[j]);
                }
                lemma_with_links(ends, all.take(k as int));
            }
            let added = network.add_link(links[k].clone());
            proof {
                assert(ends.accepts(all[k as int]));
                assert(added.is_ok());
                let front = all.take(k + 1);
                assert(front.drop_last() =~= all.take(k as int));
                assert(front.last() == links@[k as int]@);
            }
            k += 1;
        }
        proof {
            assert(all.take(k as int) =~= all);
            lemma_with_links(ends, all);
        }
        network
    }
}

} // verus!

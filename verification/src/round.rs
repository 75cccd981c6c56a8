//! What a layout is: the relations that follow a layout round by round, and
//! within a round pair by pair, link by link and node by node.
//!
//! All magnitudes are computed through [`Scalar`], so a relation says which
//! computation a value came out of, not how large it is.

use vstd::prelude::*;
use crate::forces::{is_attraction, is_gauge, is_repulsion, is_target, Gauge};
use crate::graph::EdgeView;
use crate::network::NetworkView;
use crate::node::NodeView;
use crate::scalar::{is_larger, is_product, Scalar};
use crate::vector::{is_added, is_taken};

verus! {

/// Whether a link from node `source` to node `destination` touches the pinned
/// node.
pub open spec fn touches(pinned_node: Option<usize>, source: int, destination: int) -> bool {
    pinned_node == Some(source as usize) || pinned_node == Some(destination as usize)
}

/// `count` displacements of nothing.
pub open spec fn at_rest<S>(displacements: Seq<(S, S)>, count: nat, zero: S) -> bool {
    &&& displacements.len() == count
    &&& forall|i: int| 0 <= i < count ==> #[trigger] displacements[i] == (zero, zero)
}

/// `after` is `before` with the repulsion between the nodes `i` and `j`
/// added: the force that pushes `j` away from `i` is taken from the
/// displacement of `i` and added to that of `j`. The displacement of the
/// pinned node stays as it is; the other node is pushed all the same.
pub open spec fn pair_repelled<S: Scalar>(
    points: Seq<(S, S)>,
    gauge: Gauge<S>,
    pinned_node: Option<usize>,
    before: Seq<(S, S)>,
    i: int,
    j: int,
    after: Seq<(S, S)>,
) -> bool {
    &&& after.len() == before.len()
    &&& forall|m: int| 0 <= m < before.len() && m != i && m != j ==> #[trigger] after[m] == before[m]
    &&& exists|f: (S, S)|
        {
            &&& is_repulsion(points[i], points[j], gauge, f)
            &&& if pinned_node == Some(i as usize) {
                after[i] == before[i]
            } else {
                is_taken(before[i], f, after[i])
            }
            &&& if pinned_node == Some(j as usize) {
                after[j] == before[j]
            } else {
                is_added(before[j], f, after[j])
            }
        }
}

/// `after` is `before` with the repulsion between node `i` and each node
/// from `i + 1` up to, and without, `j` added, in that order.
pub open spec fn row_repelled<S: Scalar>(
    points: Seq<(S, S)>,
    gauge: Gauge<S>,
    pinned_node: Option<usize>,
    before: Seq<(S, S)>,
    i: int,
    j: int,
    after: Seq<(S, S)>,
) -> bool
    decreases j - i,
{
    if j <= i + 1 {
        after == before
    } else {
        let last = j - 1;
        exists|between: Seq<(S, S)>|
            row_repelled(points, gauge, pinned_node, before, i, last, between) && #[trigger] pair_repelled(
                points,
                gauge,
                pinned_node,
                between,
                i,
                last,
                after,
            )
    }
}

/// `after` is `before` with the repulsion between every two distinct nodes
/// of which the first has an index below `rows` added: pair by pair, the
/// pairs in the order of their first and then of their second node.
pub open spec fn rows_repelled<S: Scalar>(
    points: Seq<(S, S)>,
    gauge: Gauge<S>,
    pinned_node: Option<usize>,
    before: Seq<(S, S)>,
    rows: int,
    after: Seq<(S, S)>,
) -> bool
    decreases rows,
{
    if rows <= 0 {
        after == before
    } else {
        let last = rows - 1;
        exists|between: Seq<(S, S)>|
            rows_repelled(points, gauge, pinned_node, before, last, between) && #[trigger] row_repelled(
                points,
                gauge,
                pinned_node,
                between,
                last,
                points.len() as int,
                after,
            )
    }
}

/// `after` is `before` with the attraction along the link added: the force
/// that pulls the source towards the destination is added to the
/// displacement of the source and then taken from that of the destination.
/// A link that touches the pinned node adds nothing.
pub open spec fn link_attracted<S: Scalar>(
    points: Seq<(S, S)>,
    link: EdgeView,
    gauge: Gauge<S>,
    pinned_node: Option<usize>,
    before: Seq<(S, S)>,
    after: Seq<(S, S)>,
) -> bool {
    if touches(pinned_node, link.source, link.destination) {
        after == before
    } else {
        exists|f: (S, S), drawn: (S, S), held: (S, S)|
            #![trigger is_added(before[link.source], f, drawn), is_taken(before.update(link.source, drawn)[link.destination], f, held)]
            {
                &&& is_attraction(points[link.source], points[link.destination], gauge, f)
                &&& is_added(before[link.source], f, drawn)
                &&& is_taken(before.update(link.source, drawn)[link.destination], f, held)
                &&& after == before.update(link.source, drawn).update(link.destination, held)
            }
    }
}

/// `after` is `before` with the attraction along each of the first `count`
/// links added, in their order.
pub open spec fn links_attracted<S: Scalar>(
    points: Seq<(S, S)>,
    links: Seq<EdgeView>,
    gauge: Gauge<S>,
    pinned_node: Option<usize>,
    before: Seq<(S, S)>,
    count: int,
    after: Seq<(S, S)>,
) -> bool
    decreases count,
{
    if count <= 0 {
        after == before
    } else {
        let last = count - 1;
        exists|between: Seq<(S, S)>|
            links_attracted(points, links, gauge, pinned_node, before, last, between)
                && #[trigger] link_attracted(points, links[last], gauge, pinned_node, between, after)
    }
}

/// `largest` is the larger of `prior` and the entry of `spans` at `index`,
/// or `prior` itself if the node at `index` is the pinned one.
pub open spec fn is_next_largest<S: Scalar>(
    spans: Seq<S>,
    pinned_node: Option<usize>,
    index: int,
    prior: S,
    largest: S,
) -> bool {
    if pinned_node == Some(index as usize) {
        largest == prior
    } else {
        is_larger(prior, spans[index], largest)
    }
}

/// `largest` is the largest of the first `count` entries of `spans`, the
/// pinned node's left out, and `zero` where no entry is left: the entries are
/// taken in their order, each compared with the largest before it.
pub open spec fn is_largest<S: Scalar>(
    spans: Seq<S>,
    pinned_node: Option<usize>,
    zero: S,
    count: int,
    largest: S,
) -> bool
    decreases count,
{
    if count <= 0 {
        largest == zero
    } else {
        let last = count - 1;
        exists|prior: S|
            is_largest(spans, pinned_node, zero, last, prior) && #[trigger] is_next_largest(
                spans,
                pinned_node,
                last,
                prior,
                largest,
            )
    }
}

/// `targets` holds, for each node but the pinned one, where the node comes
/// to lie under its displacement at the temperature `temp`, and `largest` is
/// the largest length among the displacements of these nodes.
pub open spec fn are_targets<S: Scalar>(
    points: Seq<(S, S)>,
    displacements: Seq<(S, S)>,
    temp: S,
    gauge: Gauge<S>,
    pinned_node: Option<usize>,
    targets: Seq<(S, S)>,
    largest: S,
) -> bool {
    &&& targets.len() == points.len()
    &&& exists|spans: Seq<S>|
        {
            &&& spans.len() == points.len()
            &&& forall|i: int|
                0 <= i < points.len() && pinned_node != Some(i as usize) ==> is_target(
                    points[i],
                    displacements[i],
                    temp,
                    gauge,
                    #[trigger] targets[i],
                    spans[i],
                )
            &&& is_largest(spans, pinned_node, gauge.zero, points.len() as int, largest)
        }
}

impl<S> NetworkView<S> {
    /// The positions of the nodes, by node index.
    pub open spec fn points(self) -> Seq<(S, S)> {
        Seq::new(self.nodes.len(), |i: int| self.nodes[i].point)
    }

    /// The network with every node but the pinned one moved to its entry in
    /// `targets`. Ids, order and links are as before, and so is the pinned
    /// node, if `pinned_node` names a node.
    pub open spec fn moved_to(self, targets: Seq<(S, S)>, pinned_node: Option<usize>) -> Self {
        NetworkView {
            nodes: Seq::new(
                self.nodes.len(),
                |i: int|
                    NodeView {
                        id: self.nodes[i].id,
                        point: if pinned_node == Some(i as usize) {
                            self.nodes[i].point
                        } else {
                            targets[i]
                        },
                    },
            ),
            links: self.links,
        }
    }

    /// Whether `self` is `before` but for the positions of nodes that are not
    /// pinned: the same links, the same ids in the same order, and the pinned
    /// node, if `pinned_node` names a node, where it was.
    pub open spec fn relaxed_from(self, before: Self, pinned_node: Option<usize>) -> bool {
        &&& self.links == before.links
        &&& self.nodes.len() == before.nodes.len()
        &&& forall|i: int|
            0 <= i < self.nodes.len() ==> (#[trigger] self.nodes[i]).id == before.nodes[i].id
        &&& forall|i: int|
            0 <= i < self.nodes.len() && pinned_node == Some(i as usize)
                ==> #[trigger] self.nodes[i] == before.nodes[i]
    }
}

impl<S: Scalar> NetworkView<S> {
    /// Whether `self` is `before` after one round at the temperature `temp`
    /// that went through the given displacements, and `largest` the largest
    /// displacement of the round. From the displacements of nothing, `rest`,
    /// the repulsion between every two distinct nodes gives `pushed`, and the
    /// attraction along every link then `pulled`; every node but the pinned
    /// one moves to where its displacement in `pulled` takes it, which is
    /// its entry in `targets`.
    pub open spec fn is_round_of(
        self,
        before: Self,
        gauge: Gauge<S>,
        temp: S,
        pinned_node: Option<usize>,
        largest: S,
        rest: Seq<(S, S)>,
        pushed: Seq<(S, S)>,
        pulled: Seq<(S, S)>,
        targets: Seq<(S, S)>,
    ) -> bool {
        &&& at_rest(rest, before.nodes.len(), gauge.zero)
        &&& rows_repelled(before.points(), gauge, pinned_node, rest, before.nodes.len() as int, pushed)
        &&& links_attracted(
            before.points(),
            before.links,
            gauge,
            pinned_node,
            pushed,
            before.links.len() as int,
            pulled,
        )
        &&& are_targets(before.points(), pulled, temp, gauge, pinned_node, targets, largest)
        &&& self == before.moved_to(targets, pinned_node)
    }

    /// Whether `self` is `before` after one round at the temperature `temp`,
    /// and `largest` the largest displacement of the round: a round as
    /// [`NetworkView::is_round_of`] describes it, through some displacements.
    pub open spec fn is_round_from(
        self,
        before: Self,
        gauge: Gauge<S>,
        temp: S,
        pinned_node: Option<usize>,
        largest: S,
    ) -> bool {
        exists|rest: Seq<(S, S)>, pushed: Seq<(S, S)>, pulled: Seq<(S, S)>, targets: Seq<(S, S)>|
            self.is_round_of(before, gauge, temp, pinned_node, largest, rest, pushed, pulled, targets)
    }

    /// Whether `self` is `before` after `rounds` rounds, and `temp` the
    /// temperature that the rounds leave behind. The first round runs at the
    /// gauge's starting temperature, and each round leaves the temperature of
    /// its own times the gauge's cooling factor.
    pub open spec fn is_rounds_from(
        self,
        before: Self,
        gauge: Gauge<S>,
        pinned_node: Option<usize>,
        rounds: nat,
        temp: S,
    ) -> bool
        decreases rounds,
    {
        if rounds == 0 {
            self == before && temp == gauge.start
        } else {
            let earlier = (rounds - 1) as nat;
            exists|between: Self, warm: S, largest: S|
                between.is_rounds_from(before, gauge, pinned_node, earlier, warm)
                    && #[trigger] self.is_round_from(between, gauge, warm, pinned_node, largest)
                    && is_product(warm, gauge.cooling, temp)
        }
    }

    /// Whether `self` is `before` after `rounds` rounds, the last of which
    /// had `largest` for its largest displacement. After no round the
    /// network is as before, and the largest displacement nothing.
    pub open spec fn is_settled_from(
        self,
        before: Self,
        gauge: Gauge<S>,
        pinned_node: Option<usize>,
        rounds: nat,
        largest: S,
    ) -> bool {
        if rounds == 0 {
            self == before && largest == gauge.zero
        } else {
            let earlier = (rounds - 1) as nat;
            exists|between: Self, warm: S|
                between.is_rounds_from(before, gauge, pinned_node, earlier, warm)
                    && #[trigger] self.is_round_from(between, gauge, warm, pinned_node, largest)
        }
    }

    /// Whether `self` is `before` laid out on a canvas of `width` by `height`
    /// in `iterations` rounds, and `largest` the largest displacement of the
    /// last round.
    pub open spec fn is_layout_of(
        self,
        before: Self,
        width: S,
        height: S,
        iterations: nat,
        pinned_node: Option<usize>,
        largest: S,
    ) -> bool {
        exists|gauge: Gauge<S>|
            is_gauge(width, height, before.nodes.len(), gauge) && #[trigger] self.is_settled_from(
                before,
                gauge,
                pinned_node,
                iterations,
                largest,
            )
    }
}

/// A row that has come to node `j` takes the pair of `i` and `j` next.
pub proof fn lemma_row_goes_on<S: Scalar>(
    points: Seq<(S, S)>,
    gauge: Gauge<S>,
    pinned_node: Option<usize>,
    before: Seq<(S, S)>,
    i: int,
    j: int,
    between: Seq<(S, S)>,
    after: Seq<(S, S)>,
)
    requires
        i < j,
        row_repelled(points, gauge, pinned_node, before, i, j, between),
        pair_repelled(points, gauge, pinned_node, between, i, j, after),
    ensures
        row_repelled(points, gauge, pinned_node, before, i, j + 1, after),
{
    assert(row_repelled(points, gauge, pinned_node, before, i, (j + 1) - 1, between));
    assert(pair_repelled(points, gauge, pinned_node, between, i, (j + 1) - 1, after));
}

/// The rows that have come to node `i` take the row of `i` next.
pub proof fn lemma_rows_go_on<S: Scalar>(
    points: Seq<(S, S)>,
    gauge: Gauge<S>,
    pinned_node: Option<usize>,
    before: Seq<(S, S)>,
    i: int,
    between: Seq<(S, S)>,
    after: Seq<(S, S)>,
)
    requires
        0 <= i,
        rows_repelled(points, gauge, pinned_node, before, i, between),
        row_repelled(points, gauge, pinned_node, between, i, points.len() as int, after),
    ensures
        rows_repelled(points, gauge, pinned_node, before, i + 1, after),
{
    assert(rows_repelled(points, gauge, pinned_node, before, (i + 1) - 1, between));
    assert(row_repelled(points, gauge, pinned_node, between, (i + 1) - 1, points.len() as int, after));
}

/// The links that have come to the link at `count` take that link next.
pub proof fn lemma_links_go_on<S: Scalar>(
    points: Seq<(S, S)>,
    links: Seq<EdgeView>,
    gauge: Gauge<S>,
    pinned_node: Option<usize>,
    before: Seq<(S, S)>,
    count: int,
    between: Seq<(S, S)>,
    after: Seq<(S, S)>,
)
    requires
        0 <= count,
        links_attracted(points, links, gauge, pinned_node, before, count, between),
        link_attracted(points, links[count], gauge, pinned_node, between, after),
    ensures
        links_attracted(points, links, gauge, pinned_node, before, count + 1, after),
{
    assert(links_attracted(points, links, gauge, pinned_node, before, (count + 1) - 1, between));
    assert(link_attracted(points, links[(count + 1) - 1], gauge, pinned_node, between, after));
}

/// The largest of the first `count` spans takes the span at `count` next.
pub proof fn lemma_largest_goes_on<S: Scalar>(
    spans: Seq<S>,
    pinned_node: Option<usize>,
    zero: S,
    count: int,
    prior: S,
    largest: S,
)
    requires
        0 <= count,
        is_largest(spans, pinned_node, zero, count, prior),
        is_next_largest(spans, pinned_node, count, prior, largest),
    ensures
        is_largest(spans, pinned_node, zero, count + 1, largest),
{
    assert(is_largest(spans, pinned_node, zero, (count + 1) - 1, prior));
    assert(is_next_largest(spans, pinned_node, (count + 1) - 1, prior, largest));
}

/// The largest of some spans depends on these spans alone.
pub proof fn lemma_largest_of_prefix<S: Scalar>(
    spans: Seq<S>,
    others: Seq<S>,
    pinned_node: Option<usize>,
    zero: S,
    count: int,
    largest: S,
)
    requires
        is_largest(spans, pinned_node, zero, count, largest),
        count <= spans.len(),
        count <= others.len(),
        forall|m: int| 0 <= m < count ==> spans[m] == others[m],
    ensures
        is_largest(others, pinned_node, zero, count, largest),
    decreases count,
{
    if count > 0 {
        let last = count - 1;
        let prior = choose|prior: S|
            is_largest(spans, pinned_node, zero, last, prior) && #[trigger] is_next_largest(
                spans,
                pinned_node,
                last,
                prior,
                largest,
            );
        lemma_largest_of_prefix(spans, others, pinned_node, zero, last, prior);
        assert(is_next_largest(others, pinned_node, last, prior, largest));
    }
}

impl<S: Scalar> NetworkView<S> {
    /// Rounds and one more round are rounds, one more in number.
    pub proof fn lemma_rounds_go_on(
        self,
        between: Self,
        before: Self,
        gauge: Gauge<S>,
        pinned_node: Option<usize>,
        rounds: nat,
        warm: S,
        temp: S,
        largest: S,
    )
        requires
            between.is_rounds_from(before, gauge, pinned_node, rounds, warm),
            self.is_round_from(between, gauge, warm, pinned_node, largest),
            is_product(warm, gauge.cooling, temp),
        ensures
            self.is_rounds_from(before, gauge, pinned_node, rounds + 1, temp),
            self.is_settled_from(before, gauge, pinned_node, rounds + 1, largest),
    {
        assert(between.is_rounds_from(before, gauge, pinned_node, ((rounds + 1) - 1) as nat, warm));
    }
}

} // verus!

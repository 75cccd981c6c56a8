//! What holds of the store and of the layout across calls.

use vstd::prelude::*;
use crate::forces::{is_gauge, is_target, Gauge};
use crate::round::is_largest;
use crate::link::LinkView;
use crate::network::NetworkView;
use crate::node::NodeView;
use crate::scalar::{is_difference, is_product, is_ratio, is_within, Scalar};

verus! {

impl<S> NetworkView<S> {
    /// What the store keeps true of its contents: no two nodes carry one id,
    /// and every link joins two nodes of the network under the ids that its
    /// record names.
    pub open spec fn valid(self) -> bool {
        self.ids_distinct() && self.links_resolved()
    }
}

/// Adding a node is idempotent. A second node under the id of the first gets
/// the index that the first got and changes nothing, so the node that carries
/// the id stays where the first insertion left it: where it already was, or,
/// if the id was new, at the first node's position.
pub proof fn lemma_add_node_twice<S>(network: NetworkView<S>, first: NodeView<S>, second: NodeView<S>)
    requires
        first.id == second.id,
    ensures
        network.with_node(first).slot_of(second.id) == network.slot_of(first.id),
        network.with_node(first).with_node(second) == network.with_node(first),
        0 <= network.slot_of(first.id) < network.with_node(first).nodes.len(),
        network.with_node(first).nodes[network.slot_of(first.id)].id == first.id,
        network.with_node(first).nodes[network.slot_of(first.id)].point == if network.has_id(first.id) {
            network.nodes[network.slot_of(first.id)].point
        } else {
            first.point
        },
{
    let once = network.with_node(first);
    if !network.has_id(first.id) {
        let last = network.nodes.len() as int;
        assert(once.nodes[last].id == first.id);
        assert(once.has_id(first.id));
        let found = once.index_of(first.id);
        if found < last {
            assert(network.nodes[found].id == first.id);
        }
    }
}

/// Adding a node keeps the contents valid, and keeps every node that was
/// there at its index.
pub proof fn lemma_with_node_valid<S>(network: NetworkView<S>, node: NodeView<S>)
    requires
        network.valid(),
    ensures
        network.with_node(node).valid(),
        network.with_node(node).links == network.links,
        network.nodes.len() <= network.with_node(node).nodes.len() <= network.nodes.len() + 1,
        forall|i: int|
            0 <= i < network.nodes.len() ==> #[trigger] network.with_node(node).nodes[i]
                == network.nodes[i],
{
    let after = network.with_node(node);
    if !network.has_id(node.id) {
        assert forall|i: int, j: int|
            0 <= i < after.nodes.len() && 0 <= j < after.nodes.len() && (#[trigger] after.nodes[i]).id
                == (#[trigger] after.nodes[j]).id implies i == j by {
            if i < network.nodes.len() {
                assert(network.nodes[i].id == after.nodes[i].id);
            }
            if j < network.nodes.len() {
                assert(network.nodes[j].id == after.nodes[j].id);
            }
        }
        assert forall|e: int| 0 <= e < after.links.len() implies {
            let edge = #[trigger] after.links[e];
            &&& 0 <= edge.source < after.nodes.len()
            &&& 0 <= edge.destination < after.nodes.len()
            &&& after.nodes[edge.source].id == edge.link.source_node
            &&& after.nodes[edge.destination].id == edge.link.destination_node
        } by {
            assert(after.links[e] == network.links[e]);
        }
    }
}

/// Adding a link keeps the contents valid and the nodes as they are. A link
/// that is taken comes last, between the nodes that carry its two ids.
pub proof fn lemma_with_link_valid<S>(network: NetworkView<S>, link: LinkView)
    requires
        network.valid(),
    ensures
        network.with_link(link).valid(),
        network.with_link(link).nodes == network.nodes,
        network.accepts(link) ==> {
            let after = network.with_link(link);
            &&& after.links.len() == network.links.len() + 1
            &&& after.links.last().link == link
            &&& network.nodes[after.links.last().source].id == link.source_node
            &&& network.nodes[after.links.last().destination].id == link.destination_node
        },
{
    let after = network.with_link(link);
    if network.accepts(link) {
        assert forall|e: int| 0 <= e < after.links.len() implies {
            let edge = #[trigger] after.links[e];
            &&& 0 <= edge.source < after.nodes.len()
            &&& 0 <= edge.destination < after.nodes.len()
            &&& after.nodes[edge.source].id == edge.link.source_node
            &&& after.nodes[edge.destination].id == edge.link.destination_node
        } by {
            if e < network.links.len() {
                assert(after.links[e] == network.links[e]);
            }
        }
    }
}

/// A link with an end that the network does not hold is refused: the network
/// stays as it is, the number of its links included, and the id that the
/// refusal names is the missing end, the source before the destination.
pub proof fn lemma_unknown_end_refused<S>(network: NetworkView<S>, link: LinkView)
    requires
        !network.has_id(link.source_node) || !network.has_id(link.destination_node),
    ensures
        !network.accepts(link),
        network.with_link(link) == network,
        network.with_link(link).links.len() == network.links.len(),
        !network.has_id(network.missing_end(link)),
        network.has_id(link.source_node) ==> network.missing_end(link) == link.destination_node,
{
}

/// A move of the nodes that are not pinned is a change of their positions
/// alone.
pub proof fn lemma_moved_is_relaxed<S>(
    network: NetworkView<S>,
    targets: Seq<(S, S)>,
    pinned_node: Option<usize>,
)
    ensures
        network.moved_to(targets, pinned_node).relaxed_from(network, pinned_node),
{
}

/// The pinned node stays where it is through any number of layout passes: a
/// change of unpinned positions after another is one again.
pub proof fn lemma_relaxed_again<S>(
    last: NetworkView<S>,
    middle: NetworkView<S>,
    first: NetworkView<S>,
    pinned_node: Option<usize>,
)
    requires
        last.relaxed_from(middle, pinned_node),
        middle.relaxed_from(first, pinned_node),
    ensures
        last.relaxed_from(first, pinned_node),
{
    assert forall|i: int| 0 <= i < last.nodes.len() implies (#[trigger] last.nodes[i]).id
        == first.nodes[i].id by {
        assert(middle.nodes[i].id == first.nodes[i].id);
    }
    assert forall|i: int|
        0 <= i < last.nodes.len() && pinned_node == Some(i as usize) implies #[trigger] last.nodes[i]
        == first.nodes[i] by {
        assert(middle.nodes[i] == first.nodes[i]);
    }
}

/// A layout pass keeps the contents valid.
pub proof fn lemma_relaxed_valid<S>(
    after: NetworkView<S>,
    before: NetworkView<S>,
    pinned_node: Option<usize>,
)
    requires
        before.valid(),
        after.relaxed_from(before, pinned_node),
    ensures
        after.valid(),
{
    assert forall|i: int, j: int|
        0 <= i < after.nodes.len() && 0 <= j < after.nodes.len() && (#[trigger] after.nodes[i]).id
            == (#[trigger] after.nodes[j]).id implies i == j by {
        assert(before.nodes[i].id == before.nodes[j].id);
    }
    assert forall|e: int| 0 <= e < after.links.len() implies {
        let edge = #[trigger] after.links[e];
        &&& 0 <= edge.source < after.nodes.len()
        &&& 0 <= edge.destination < after.nodes.len()
        &&& after.nodes[edge.source].id == edge.link.source_node
        &&& after.nodes[edge.destination].id == edge.link.destination_node
    } by {
        let edge = before.links[e];
        assert(after.nodes[edge.source].id == before.nodes[edge.source].id);
        assert(after.nodes[edge.destination].id == before.nodes[edge.destination].id);
    }
}

/// A round of the layout changes the positions of unpinned nodes alone.
pub proof fn lemma_round_relaxed<S: Scalar>(
    after: NetworkView<S>,
    before: NetworkView<S>,
    gauge: Gauge<S>,
    temp: S,
    pinned_node: Option<usize>,
    largest: S,
)
    requires
        after.is_round_from(before, gauge, temp, pinned_node, largest),
    ensures
        after.relaxed_from(before, pinned_node),
{
}

/// Any number of rounds changes the positions of unpinned nodes alone.
pub proof fn lemma_rounds_relaxed<S: Scalar>(
    after: NetworkView<S>,
    before: NetworkView<S>,
    gauge: Gauge<S>,
    pinned_node: Option<usize>,
    rounds: nat,
    temp: S,
)
    requires
        after.is_rounds_from(before, gauge, pinned_node, rounds, temp),
    ensures
        after.relaxed_from(before, pinned_node),
    decreases rounds,
{
    if rounds > 0 {
        let earlier = (rounds - 1) as nat;
        let (between, warm, largest) = choose|between: NetworkView<S>, warm: S, largest: S|
            between.is_rounds_from(before, gauge, pinned_node, earlier, warm)
                && #[trigger] after.is_round_from(between, gauge, warm, pinned_node, largest) && is_product(
                warm,
                gauge.cooling,
                temp,
            );
        lemma_rounds_relaxed(between, before, gauge, pinned_node, earlier, warm);
        lemma_round_relaxed(after, between, gauge, warm, pinned_node, largest);
        lemma_relaxed_again(after, between, before, pinned_node);
    }
}

/// The pinned node stays where it is, to the last bit of its position,
/// through a layout of any number of rounds; and so do all ids and links.
pub proof fn lemma_layout_keeps_pinned<S: Scalar>(
    after: NetworkView<S>,
    before: NetworkView<S>,
    width: S,
    height: S,
    iterations: nat,
    pinned_node: Option<usize>,
    largest: S,
)
    requires
        after.is_layout_of(before, width, height, iterations, pinned_node, largest),
    ensures
        after.relaxed_from(before, pinned_node),
        forall|index: usize|
            pinned_node == Some(index) && index < before.nodes.len() ==> after.nodes[index as int].point
                == before.nodes[index as int].point,
{
    let gauge = choose|gauge: Gauge<S>|
        is_gauge(width, height, before.nodes.len(), gauge) && #[trigger] after.is_settled_from(
            before,
            gauge,
            pinned_node,
            iterations,
            largest,
        );
    if iterations > 0 {
        let earlier = (iterations - 1) as nat;
        let (between, warm) = choose|between: NetworkView<S>, warm: S|
            between.is_rounds_from(before, gauge, pinned_node, earlier, warm)
                && #[trigger] after.is_round_from(between, gauge, warm, pinned_node, largest);
        lemma_rounds_relaxed(between, before, gauge, pinned_node, earlier, warm);
        lemma_round_relaxed(after, between, gauge, warm, pinned_node, largest);
        lemma_relaxed_again(after, between, before, pinned_node);
    }
}

/// `point` has come out of the canvas bounds: its first coordinate is an
/// answer of `within` for the interval from `low` to `right`, its second for
/// the interval from `low` to `bottom`.
pub open spec fn is_kept_within<S: Scalar>(point: (S, S), low: S, right: S, bottom: S) -> bool {
    exists|x: S, y: S| is_within(x, low, right, point.0) && is_within(y, low, bottom, point.1)
}

/// After a layout of at least one round, every node but the pinned one lies
/// where `within` has put it for the canvas bounds: the interval from `50`
/// to `width - 50` for the first coordinate, and from `50` to `height - 50`
/// for the second.
pub proof fn lemma_layout_keeps_within<S: Scalar>(
    after: NetworkView<S>,
    before: NetworkView<S>,
    width: S,
    height: S,
    iterations: nat,
    pinned_node: Option<usize>,
    largest: S,
)
    requires
        after.is_layout_of(before, width, height, iterations, pinned_node, largest),
        iterations > 0,
    ensures
        exists|low: S, right: S, bottom: S|
            {
                &&& is_ratio(50, 1, low)
                &&& is_difference(width, low, right)
                &&& is_difference(height, low, bottom)
                &&& forall|i: int|
                    0 <= i < after.nodes.len() && pinned_node != Some(i as usize) ==> is_kept_within(
                        (#[trigger] after.nodes[i]).point,
                        low,
                        right,
                        bottom,
                    )
            },
{
    let gauge = choose|gauge: Gauge<S>|
        is_gauge(width, height, before.nodes.len(), gauge) && #[trigger] after.is_settled_from(
            before,
            gauge,
            pinned_node,
            iterations,
            largest,
        );
    let earlier = (iterations - 1) as nat;
    let (between, warm) = choose|between: NetworkView<S>, warm: S|
        between.is_rounds_from(before, gauge, pinned_node, earlier, warm) && #[trigger] after.is_round_from(
            between,
            gauge,
            warm,
            pinned_node,
            largest,
        );
    lemma_round_keeps_within(after, between, gauge, warm, pinned_node, largest);
    assert(is_ratio(50, 1, gauge.low) && is_difference(width, gauge.low, gauge.right) && is_difference(
        height,
        gauge.low,
        gauge.bottom,
    ) && forall|i: int|
        0 <= i < after.nodes.len() && pinned_node != Some(i as usize) ==> is_kept_within(
            (#[trigger] after.nodes[i]).point,
            gauge.low,
            gauge.right,
            gauge.bottom,
        ));
}

/// Under an arithmetic whose `within` keeps to its interval, in the order
/// `no_more`, every node but the pinned one lies inside the canvas after a
/// layout of at least one round: between `50` and `width - 50` in its first
/// coordinate, and between `50` and `height - 50` in its second.
pub proof fn lemma_layout_bounded<S: Scalar>(
    after: NetworkView<S>,
    before: NetworkView<S>,
    width: S,
    height: S,
    iterations: nat,
    pinned_node: Option<usize>,
    largest: S,
    no_more: spec_fn(S, S) -> bool,
)
    requires
        after.is_layout_of(before, width, height, iterations, pinned_node, largest),
        iterations > 0,
        forall|a: S, low: S, high: S, r: S| #[trigger]
            is_within(a, low, high, r) ==> no_more(low, r) && no_more(r, high),
    ensures
        exists|low: S, right: S, bottom: S|
            {
                &&& is_ratio(50, 1, low)
                &&& is_difference(width, low, right)
                &&& is_difference(height, low, bottom)
                &&& forall|i: int|
                    0 <= i < after.nodes.len() && pinned_node != Some(i as usize) ==> {
                        let point = (#[trigger] after.nodes[i]).point;
                        &&& no_more(low, point.0)
                        &&& no_more(point.0, right)
                        &&& no_more(low, point.1)
                        &&& no_more(point.1, bottom)
                    }
            },
{
    lemma_layout_keeps_within(after, before, width, height, iterations, pinned_node, largest);
    let (low, right, bottom) = choose|low: S, right: S, bottom: S|
        {
            &&& is_ratio(50, 1, low)
            &&& is_difference(width, low, right)
            &&& is_difference(height, low, bottom)
            &&& forall|i: int|
                0 <= i < after.nodes.len() && pinned_node != Some(i as usize) ==> is_kept_within(
                    (#[trigger] after.nodes[i]).point,
                    low,
                    right,
                    bottom,
                )
        };
    assert forall|i: int| 0 <= i < after.nodes.len() && pinned_node != Some(i as usize) implies {
        let point = (#[trigger] after.nodes[i]).point;
        &&& no_more(low, point.0)
        &&& no_more(point.0, right)
        &&& no_more(low, point.1)
        &&& no_more(point.1, bottom)
    } by {
        assert(is_kept_within(after.nodes[i].point, low, right, bottom));
    }
}

/// After a round, every node but the pinned one lies where `within` has put
/// it for the bounds of the gauge.
pub proof fn lemma_round_keeps_within<S: Scalar>(
    after: NetworkView<S>,
    before: NetworkView<S>,
    gauge: Gauge<S>,
    temp: S,
    pinned_node: Option<usize>,
    largest: S,
)
    requires
        after.is_round_from(before, gauge, temp, pinned_node, largest),
    ensures
        forall|i: int|
            0 <= i < after.nodes.len() && pinned_node != Some(i as usize) ==> is_kept_within(
                (#[trigger] after.nodes[i]).point,
                gauge.low,
                gauge.right,
                gauge.bottom,
            ),
{
    let (rest, pushed, pulled, targets) = choose|
        rest: Seq<(S, S)>,
        pushed: Seq<(S, S)>,
        pulled: Seq<(S, S)>,
        targets: Seq<(S, S)>,
    |
        after.is_round_of(before, gauge, temp, pinned_node, largest, rest, pushed, pulled, targets);
    let points = before.points();
    let spans = choose|spans: Seq<S>|
        {
            &&& spans.len() == points.len()
            &&& forall|i: int|
                0 <= i < points.len() && pinned_node != Some(i as usize) ==> is_target(
                    points[i],
                    pulled[i],
                    temp,
                    gauge,
                    #[trigger] targets[i],
                    spans[i],
                )
            &&& is_largest(spans, pinned_node, gauge.zero, points.len() as int, largest)
        };
    assert forall|i: int| 0 <= i < after.nodes.len() && pinned_node != Some(i as usize) implies is_kept_within(
        (#[trigger] after.nodes[i]).point,
        gauge.low,
        gauge.right,
        gauge.bottom,
    ) by {
        assert(after.nodes[i].point == targets[i]);
        assert(is_target(points[i], pulled[i], temp, gauge, targets[i], spans[i]));
    }
}

/// `temp` is what `rounds` rounds of cooling leave of the temperature
/// `start`: the product with `cooling`, taken once for each round.
pub open spec fn is_cooled<S: Scalar>(start: S, cooling: S, rounds: nat, temp: S) -> bool
    decreases rounds,
{
    if rounds == 0 {
        temp == start
    } else {
        let earlier = (rounds - 1) as nat;
        exists|warm: S|
            is_cooled(start, cooling, earlier, warm) && #[trigger] is_product(warm, cooling, temp)
    }
}

/// The temperature falls by the cooling factor in every round, whatever the
/// forces are: after any number of rounds it is what as many rounds of
/// cooling leave of the starting temperature.
pub proof fn lemma_rounds_cool<S: Scalar>(
    after: NetworkView<S>,
    before: NetworkView<S>,
    gauge: Gauge<S>,
    pinned_node: Option<usize>,
    rounds: nat,
    temp: S,
)
    requires
        after.is_rounds_from(before, gauge, pinned_node, rounds, temp),
    ensures
        is_cooled(gauge.start, gauge.cooling, rounds, temp),
    decreases rounds,
{
    if rounds > 0 {
        let earlier = (rounds - 1) as nat;
        let (between, warm, largest) = choose|between: NetworkView<S>, warm: S, largest: S|
            between.is_rounds_from(before, gauge, pinned_node, earlier, warm)
                && #[trigger] after.is_round_from(between, gauge, warm, pinned_node, largest) && is_product(
                warm,
                gauge.cooling,
                temp,
            );
        lemma_rounds_cool(between, before, gauge, pinned_node, earlier, warm);
        assert(is_cooled(gauge.start, gauge.cooling, earlier, warm) && is_product(
            warm,
            gauge.cooling,
            temp,
        ));
    }
}

} // verus!

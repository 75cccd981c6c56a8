//! Under a single-valued arithmetic every computation of the library has one
//! outcome: the relations that the contracts are stated in determine their
//! results.

use vstd::prelude::*;
use crate::forces::{
    is_along, is_attraction, is_gauge, is_ideal_length, is_repulsion, is_separation, is_target, Gauge,
};
use crate::graph::EdgeView;
use crate::hit::is_reach;
use crate::network::NetworkView;
use crate::round::{
    are_targets, at_rest, is_largest, is_next_largest, link_attracted, links_attracted, pair_repelled,
    row_repelled, rows_repelled, touches,
};
use crate::scalar::{
    is_difference, is_larger, is_no_more, is_product, is_quotient, is_ratio, is_root, is_sum, is_within,
    single_valued, Scalar,
};
use crate::vector::{is_added, is_length, is_offset, is_taken};

verus! {

/// A vector has one length.
pub proof fn lemma_one_length<S: Scalar>(v: (S, S), r: S, s: S)
    requires
        single_valued::<S>(),
        is_length(v, r),
        is_length(v, s),
    ensures
        r == s,
{
    let (xx, yy, sum) = choose|xx: S, yy: S, sum: S|
        is_product(v.0, v.0, xx) && is_product(v.1, v.1, yy) && is_sum(xx, yy, sum) && is_root(sum, r);
    let (xx2, yy2, sum2) = choose|xx: S, yy: S, sum: S|
        is_product(v.0, v.0, xx) && is_product(v.1, v.1, yy) && is_sum(xx, yy, sum) && is_root(sum, s);
    assert(xx == xx2);
    assert(yy == yy2);
    assert(sum == sum2);
}

/// Two points have one separation.
pub proof fn lemma_one_separation<S: Scalar>(
    a: (S, S),
    b: (S, S),
    floor: S,
    d: (S, S),
    distance: S,
    d2: (S, S),
    distance2: S,
)
    requires
        single_valued::<S>(),
        is_separation(a, b, floor, d, distance),
        is_separation(a, b, floor, d2, distance2),
    ensures
        d == d2,
        distance == distance2,
{
    assert(d.0 == d2.0 && d.1 == d2.1);
    let span = choose|span: S| is_length(d, span) && is_larger(span, floor, distance);
    let span2 = choose|span: S| is_length(d2, span) && is_larger(span, floor, distance2);
    lemma_one_length(d, span, span2);
}

/// A force of a given size along a given step is one force.
pub proof fn lemma_one_along<S: Scalar>(d: (S, S), force: S, distance: S, f: (S, S), f2: (S, S))
    requires
        single_valued::<S>(),
        is_along(d, force, distance, f),
        is_along(d, force, distance, f2),
    ensures
        f == f2,
{
    let (x, y) = choose|x: S, y: S|
        is_product(force, d.0, x) && is_quotient(x, distance, f.0) && is_product(force, d.1, y)
            && is_quotient(y, distance, f.1);
    let (x2, y2) = choose|x: S, y: S|
        is_product(force, d.0, x) && is_quotient(x, distance, f2.0) && is_product(force, d.1, y)
            && is_quotient(y, distance, f2.1);
    assert(x == x2 && y == y2);
    assert(f.0 == f2.0 && f.1 == f2.1);
}

/// Two points repel each other with one force.
pub proof fn lemma_one_repulsion<S: Scalar>(
    a: (S, S),
    b: (S, S),
    gauge: Gauge<S>,
    f: (S, S),
    f2: (S, S),
)
    requires
        single_valued::<S>(),
        is_repulsion(a, b, gauge, f),
        is_repulsion(a, b, gauge, f2),
    ensures
        f == f2,
{
    let (d, distance, square, force) = choose|d: (S, S), distance: S, square: S, force: S|
        is_separation(a, b, gauge.floor, d, distance) && is_product(gauge.k, gauge.k, square)
            && is_quotient(square, distance, force) && is_along(d, force, distance, f);
    let (d2, distance2, square2, force2) = choose|d: (S, S), distance: S, square: S, force: S|
        is_separation(a, b, gauge.floor, d, distance) && is_product(gauge.k, gauge.k, square)
            && is_quotient(square, distance, force) && is_along(d, force, distance, f2);
    lemma_one_separation(a, b, gauge.floor, d, distance, d2, distance2);
    assert(square == square2);
    assert(force == force2);
    lemma_one_along(d, force, distance, f, f2);
}

/// Two points attract each other with one force.
pub proof fn lemma_one_attraction<S: Scalar>(
    a: (S, S),
    b: (S, S),
    gauge: Gauge<S>,
    f: (S, S),
    f2: (S, S),
)
    requires
        single_valued::<S>(),
        is_attraction(a, b, gauge, f),
        is_attraction(a, b, gauge, f2),
    ensures
        f == f2,
{
    let (d, distance, square, force) = choose|d: (S, S), distance: S, square: S, force: S|
        is_separation(a, b, gauge.floor, d, distance) && is_product(distance, distance, square)
            && is_quotient(square, gauge.k, force) && is_along(d, force, distance, f);
    let (d2, distance2, square2, force2) = choose|d: (S, S), distance: S, square: S, force: S|
        is_separation(a, b, gauge.floor, d, distance) && is_product(distance, distance, square)
            && is_quotient(square, gauge.k, force) && is_along(d, force, distance, f2);
    lemma_one_separation(a, b, gauge.floor, d, distance, d2, distance2);
    assert(square == square2);
    assert(force == force2);
    lemma_one_along(d, force, distance, f, f2);
}

/// A displaced node has one target, and its displacement one length.
pub proof fn lemma_one_target<S: Scalar>(
    point: (S, S),
    d: (S, S),
    temp: S,
    gauge: Gauge<S>,
    target: (S, S),
    span: S,
    target2: (S, S),
    span2: S,
)
    requires
        single_valued::<S>(),
        is_target(point, d, temp, gauge, target, span),
        is_target(point, d, temp, gauge, target2, span2),
    ensures
        target == target2,
        span == span2,
{
    let (reach, factor, dx, dy, x, y) = choose|reach: S, factor: S, dx: S, dy: S, x: S, y: S|
        is_length(d, span) && is_larger(span, gauge.floor, reach) && is_quotient(temp, reach, factor)
            && is_product(d.0, factor, dx) && is_product(d.1, factor, dy) && is_sum(point.0, dx, x)
            && is_sum(point.1, dy, y) && is_within(x, gauge.low, gauge.right, target.0) && is_within(
            y,
            gauge.low,
            gauge.bottom,
            target.1,
        );
    let (reach2, factor2, dx2, dy2, x2, y2) = choose|reach: S, factor: S, dx: S, dy: S, x: S, y: S|
        is_length(d, span2) && is_larger(span2, gauge.floor, reach) && is_quotient(temp, reach, factor)
            && is_product(d.0, factor, dx) && is_product(d.1, factor, dy) && is_sum(point.0, dx, x)
            && is_sum(point.1, dy, y) && is_within(x, gauge.low, gauge.right, target2.0) && is_within(
            y,
            gauge.low,
            gauge.bottom,
            target2.1,
        );
    lemma_one_length(d, span, span2);
    assert(reach == reach2);
    assert(factor == factor2);
    assert(dx == dx2 && dy == dy2);
    assert(x == x2 && y == y2);
    assert(target.0 == target2.0 && target.1 == target2.1);
}

/// A canvas and a number of nodes have one gauge.
pub proof fn lemma_one_gauge<S: Scalar>(
    width: S,
    height: S,
    count: nat,
    gauge: Gauge<S>,
    gauge2: Gauge<S>,
)
    requires
        single_valued::<S>(),
        is_gauge(width, height, count, gauge),
        is_gauge(width, height, count, gauge2),
    ensures
        gauge == gauge2,
{
    let (area, n, share, side, stretch) = choose|area: S, n: S, share: S, side: S, stretch: S|
        is_product(width, height, area) && is_ratio(crate::forces::sharers(count), 1, n) && is_quotient(
            area,
            n,
            share,
        ) && is_root(share, side) && is_ratio(3, 2, stretch) && is_product(side, stretch, gauge.k);
    let (area2, n2, share2, side2, stretch2) = choose|area: S, n: S, share: S, side: S, stretch: S|
        is_product(width, height, area) && is_ratio(crate::forces::sharers(count), 1, n) && is_quotient(
            area,
            n,
            share,
        ) && is_root(share, side) && is_ratio(3, 2, stretch) && is_product(side, stretch, gauge2.k);
    assert(area == area2 && n == n2);
    assert(share == share2);
    assert(side == side2 && stretch == stretch2);
    assert(gauge.k == gauge2.k);
    let five = choose|five: S| is_ratio(5, 1, five) && is_quotient(width, five, gauge.start);
    let five2 = choose|five: S| is_ratio(5, 1, five) && is_quotient(width, five, gauge2.start);
    assert(five == five2);
    assert(gauge.start == gauge2.start);
    assert(gauge.low == gauge2.low);
    assert(gauge.right == gauge2.right);
    assert(gauge.bottom == gauge2.bottom);
}

/// The repulsion between two distinct nodes changes the displacements in
/// one way.
pub proof fn lemma_one_pair<S: Scalar>(
    points: Seq<(S, S)>,
    gauge: Gauge<S>,
    pinned_node: Option<usize>,
    before: Seq<(S, S)>,
    i: int,
    j: int,
    after: Seq<(S, S)>,
    after2: Seq<(S, S)>,
)
    requires
        single_valued::<S>(),
        i != j,
        pair_repelled(points, gauge, pinned_node, before, i, j, after),
        pair_repelled(points, gauge, pinned_node, before, i, j, after2),
    ensures
        after == after2,
{
    let f = choose|f: (S, S)|
        {
            &&& is_repulsion(points[i], points[j], gauge, f)
            &&& if pinned_node == Some(i as usize) {
                after[i] == before[i]
            } else {
                is_taken(before[i], f, after[i])
            }
            &&& if pinned_node == Some(j as usize) {
                after[j] == before[j]
            } else {
                is_added(before[j], f, after[j])
            }
        };
    let f2 = choose|f: (S, S)|
        {
            &&& is_repulsion(points[i], points[j], gauge, f)
            &&& if pinned_node == Some(i as usize) {
                after2[i] == before[i]
            } else {
                is_taken(before[i], f, after2[i])
            }
            &&& if pinned_node == Some(j as usize) {
                after2[j] == before[j]
            } else {
                is_added(before[j], f, after2[j])
            }
        };
    lemma_one_repulsion(points[i], points[j], gauge, f, f2);
    assert forall|m: int| 0 <= m < after.len() implies after[m] == after2[m] by {
        if m == i {
            assert(after[i].0 == after2[i].0 && after[i].1 == after2[i].1);
        } else if m == j {
            assert(after[j].0 == after2[j].0 && after[j].1 == after2[j].1);
        } else {
            assert(after[m] == before[m]);
            assert(after2[m] == before[m]);
        }
    }
    assert(after =~= after2);
}

/// The repulsion between a node and those behind it changes the
/// displacements in one way.
pub proof fn lemma_one_row<S: Scalar>(
    points: Seq<(S, S)>,
    gauge: Gauge<S>,
    pinned_node: Option<usize>,
    before: Seq<(S, S)>,
    i: int,
    j: int,
    after: Seq<(S, S)>,
    after2: Seq<(S, S)>,
)
    requires
        single_valued::<S>(),
        row_repelled(points, gauge, pinned_node, before, i, j, after),
        row_repelled(points, gauge, pinned_node, before, i, j, after2),
    ensures
        after == after2,
    decreases j - i,
{
    if j > i + 1 {
        let last = j - 1;
        let between = choose|between: Seq<(S, S)>|
            row_repelled(points, gauge, pinned_node, before, i, last, between) && #[trigger] pair_repelled(
                points,
                gauge,
                pinned_node,
                between,
                i,
                last,
                after,
            );
        let between2 = choose|between: Seq<(S, S)>|
            row_repelled(points, gauge, pinned_node, before, i, last, between) && #[trigger] pair_repelled(
                points,
                gauge,
                pinned_node,
                between,
                i,
                last,
                after2,
            );
        lemma_one_row(points, gauge, pinned_node, before, i, last, between, between2);
        lemma_one_pair(points, gauge, pinned_node, between, i, last, after, after2);
    }
}

/// The repulsion between all nodes changes the displacements in one way.
pub proof fn lemma_one_repelling<S: Scalar>(
    points: Seq<(S, S)>,
    gauge: Gauge<S>,
    pinned_node: Option<usize>,
    before: Seq<(S, S)>,
    rows: int,
    after: Seq<(S, S)>,
    after2: Seq<(S, S)>,
)
    requires
        single_valued::<S>(),
        rows_repelled(points, gauge, pinned_node, before, rows, after),
        rows_repelled(points, gauge, pinned_node, before, rows, after2),
    ensures
        after == after2,
    decreases rows,
{
    if rows > 0 {
        let last = rows - 1;
        let between = choose|between: Seq<(S, S)>|
            rows_repelled(points, gauge, pinned_node, before, last, between) && #[trigger] row_repelled(
                points,
                gauge,
                pinned_node,
                between,
                last,
                points.len() as int,
                after,
            );
        let between2 = choose|between: Seq<(S, S)>|
            rows_repelled(points, gauge, pinned_node, before, last, between) && #[trigger] row_repelled(
                points,
                gauge,
                pinned_node,
                between,
                last,
                points.len() as int,
                after2,
            );
        lemma_one_repelling(points, gauge, pinned_node, before, last, between, between2);
        lemma_one_row(points, gauge, pinned_node, between, last, points.len() as int, after, after2);
    }
}

/// The attraction along a link changes the displacements in one way.
pub proof fn lemma_one_link<S: Scalar>(
    points: Seq<(S, S)>,
    link: EdgeView,
    gauge: Gauge<S>,
    pinned_node: Option<usize>,
    before: Seq<(S, S)>,
    after: Seq<(S, S)>,
    after2: Seq<(S, S)>,
)
    requires
        single_valued::<S>(),
        link_attracted(points, link, gauge, pinned_node, before, after),
        link_attracted(points, link, gauge, pinned_node, before, after2),
    ensures
        after == after2,
{
    if !touches(pinned_node, link.source, link.destination) {
        let (f, drawn, held) = choose|f: (S, S), drawn: (S, S), held: (S, S)|
            #![trigger is_added(before[link.source], f, drawn), is_taken(before.update(link.source, drawn)[link.destination], f, held)]
            {
                &&& is_attraction(points[link.source], points[link.destination], gauge, f)
                &&& is_added(before[link.source], f, drawn)
                &&& is_taken(before.update(link.source, drawn)[link.destination], f, held)
                &&& after == before.update(link.source, drawn).update(link.destination, held)
            };
        let (f2, drawn2, held2) = choose|f: (S, S), drawn: (S, S), held: (S, S)|
            #![trigger is_added(before[link.source], f, drawn), is_taken(before.update(link.source, drawn)[link.destination], f, held)]
            {
                &&& is_attraction(points[link.source], points[link.destination], gauge, f)
                &&& is_added(before[link.source], f, drawn)
                &&& is_taken(before.update(link.source, drawn)[link.destination], f, held)
                &&& after2 == before.update(link.source, drawn).update(link.destination, held)
            };
        lemma_one_attraction(points[link.source], points[link.destination], gauge, f, f2);
        assert(drawn.0 == drawn2.0 && drawn.1 == drawn2.1);
        assert(held.0 == held2.0 && held.1 == held2.1);
    }
}

/// The attraction along the links changes the displacements in one way.
pub proof fn lemma_one_attracting<S: Scalar>(
    points: Seq<(S, S)>,
    links: Seq<EdgeView>,
    gauge: Gauge<S>,
    pinned_node: Option<usize>,
    before: Seq<(S, S)>,
    count: int,
    after: Seq<(S, S)>,
    after2: Seq<(S, S)>,
)
    requires
        single_valued::<S>(),
        links_attracted(points, links, gauge, pinned_node, before, count, after),
        links_attracted(points, links, gauge, pinned_node, before, count, after2),
    ensures
        after == after2,
    decreases count,
{
    if count > 0 {
        let last = count - 1;
        let between = choose|between: Seq<(S, S)>|
            links_attracted(points, links, gauge, pinned_node, before, last, between)
                && #[trigger] link_attracted(points, links[last], gauge, pinned_node, between, after);
        let between2 = choose|between: Seq<(S, S)>|
            links_attracted(points, links, gauge, pinned_node, before, last, between)
                && #[trigger] link_attracted(points, links[last], gauge, pinned_node, between, after2);
        lemma_one_attracting(points, links, gauge, pinned_node, before, last, between, between2);
        lemma_one_link(points, links[last], gauge, pinned_node, between, after, after2);
    }
}

/// Lengths that agree but for the pinned node's have one largest.
pub proof fn lemma_one_largest<S: Scalar>(
    spans: Seq<S>,
    spans2: Seq<S>,
    pinned_node: Option<usize>,
    zero: S,
    count: int,
    largest: S,
    largest2: S,
)
    requires
        single_valued::<S>(),
        forall|m: int| 0 <= m < count && pinned_node != Some(m as usize) ==> spans[m] == spans2[m],
        is_largest(spans, pinned_node, zero, count, largest),
        is_largest(spans2, pinned_node, zero, count, largest2),
    ensures
        largest == largest2,
    decreases count,
{
    if count > 0 {
        let last = count - 1;
        let prior = choose|prior: S|
            is_largest(spans, pinned_node, zero, last, prior) && #[trigger] is_next_largest(
                spans,
                pinned_node,
                last,
                prior,
                largest,
            );
        let prior2 = choose|prior: S|
            is_largest(spans2, pinned_node, zero, last, prior) && #[trigger] is_next_largest(
                spans2,
                pinned_node,
                last,
                prior,
                largest2,
            );
        lemma_one_largest(spans, spans2, pinned_node, zero, last, prior, prior2);
    }
}

/// A round has one outcome.
pub proof fn lemma_one_round<S: Scalar>(
    before: NetworkView<S>,
    gauge: Gauge<S>,
    temp: S,
    pinned_node: Option<usize>,
    after: NetworkView<S>,
    largest: S,
    after2: NetworkView<S>,
    largest2: S,
)
    requires
        single_valued::<S>(),
        after.is_round_from(before, gauge, temp, pinned_node, largest),
        after2.is_round_from(before, gauge, temp, pinned_node, largest2),
    ensures
        after == after2,
        largest == largest2,
{
    let points = before.points();
    let count = before.nodes.len() as int;
    let (rest, pushed, pulled, targets) = choose|
        rest: Seq<(S, S)>,
        pushed: Seq<(S, S)>,
        pulled: Seq<(S, S)>,
        targets: Seq<(S, S)>,
    |
        after.is_round_of(before, gauge, temp, pinned_node, largest, rest, pushed, pulled, targets);
    let (rest2, pushed2, pulled2, targets2) = choose|
        rest: Seq<(S, S)>,
        pushed: Seq<(S, S)>,
        pulled: Seq<(S, S)>,
        targets: Seq<(S, S)>,
    |
        after2.is_round_of(before, gauge, temp, pinned_node, largest2, rest, pushed, pulled, targets);
    assert(rest =~= rest2);
    lemma_one_repelling(points, gauge, pinned_node, rest, count, pushed, pushed2);
    lemma_one_attracting(
        points,
        before.links,
        gauge,
        pinned_node,
        pushed,
        before.links.len() as int,
        pulled,
        pulled2,
    );
    let spans = choose|spans: Seq<S>|
        {
            &&& spans.len() == points.len()
            &&& forall|i: int|
                0 <= i < points.len() && pinned_node != Some(i as usize) ==> is_target(
                    points[i],
                    pulled[i],
                    temp,
                    gauge,
                    #[trigger] targets[i],
                    spans[i],
                )
            &&& is_largest(spans, pinned_node, gauge.zero, points.len() as int, largest)
        };
    let spans2 = choose|spans: Seq<S>|
        {
            &&& spans.len() == points.len()
            &&& forall|i: int|
                0 <= i < points.len() && pinned_node != Some(i as usize) ==> is_target(
                    points[i],
                    pulled2[i],
                    temp,
                    gauge,
                    #[trigger] targets2[i],
                    spans[i],
                )
            &&& is_largest(spans, pinned_node, gauge.zero, points.len() as int, largest2)
        };
    assert forall|i: int| 0 <= i < count && pinned_node != Some(i as usize) implies targets[i]
        == targets2[i] && spans[i] == spans2[i] by {
        assert(is_target(points[i], pulled[i], temp, gauge, targets[i], spans[i]));
        assert(is_target(points[i], pulled2[i], temp, gauge, targets2[i], spans2[i]));
        lemma_one_target(
            points[i],
            pulled[i],
            temp,
            gauge,
            targets[i],
            spans[i],
            targets2[i],
            spans2[i],
        );
    }
    lemma_one_largest(spans, spans2, pinned_node, gauge.zero, count, largest, largest2);
    assert(after.nodes =~= after2.nodes);
}

/// Any number of rounds has one outcome, and leaves one temperature.
pub proof fn lemma_one_outcome_of_rounds<S: Scalar>(
    before: NetworkView<S>,
    gauge: Gauge<S>,
    pinned_node: Option<usize>,
    rounds: nat,
    after: NetworkView<S>,
    temp: S,
    after2: NetworkView<S>,
    temp2: S,
)
    requires
        single_valued::<S>(),
        after.is_rounds_from(before, gauge, pinned_node, rounds, temp),
        after2.is_rounds_from(before, gauge, pinned_node, rounds, temp2),
    ensures
        after == after2,
        temp == temp2,
    decreases rounds,
{
    if rounds > 0 {
        let earlier = (rounds - 1) as nat;
        let (between, warm, largest) = choose|between: NetworkView<S>, warm: S, largest: S|
            between.is_rounds_from(before, gauge, pinned_node, earlier, warm)
                && #[trigger] after.is_round_from(between, gauge, warm, pinned_node, largest) && is_product(
                warm,
                gauge.cooling,
                temp,
            );
        let (between2, warm2, largest2) = choose|between: NetworkView<S>, warm: S, largest: S|
            between.is_rounds_from(before, gauge, pinned_node, earlier, warm)
                && #[trigger] after2.is_round_from(between, gauge, warm, pinned_node, largest) && is_product(
                warm,
                gauge.cooling,
                temp2,
            );
        lemma_one_outcome_of_rounds(before, gauge, pinned_node, earlier, between, warm, between2, warm2);
        lemma_one_round(between, gauge, warm, pinned_node, after, largest, after2, largest2);
    }
}

/// A layout has one outcome: under a single-valued arithmetic the network,
/// the canvas, the number of rounds and the pinned node determine where
/// every node comes to lie, and the displacement that is returned.
pub proof fn lemma_one_layout<S: Scalar>(
    before: NetworkView<S>,
    width: S,
    height: S,
    iterations: nat,
    pinned_node: Option<usize>,
    after: NetworkView<S>,
    largest: S,
    after2: NetworkView<S>,
    largest2: S,
)
    requires
        single_valued::<S>(),
        after.is_layout_of(before, width, height, iterations, pinned_node, largest),
        after2.is_layout_of(before, width, height, iterations, pinned_node, largest2),
    ensures
        after == after2,
        largest == largest2,
{
    let gauge = choose|gauge: Gauge<S>|
        is_gauge(width, height, before.nodes.len(), gauge) && #[trigger] after.is_settled_from(
            before,
            gauge,
            pinned_node,
            iterations,
            largest,
        );
    let gauge2 = choose|gauge: Gauge<S>|
        is_gauge(width, height, before.nodes.len(), gauge) && #[trigger] after2.is_settled_from(
            before,
            gauge,
            pinned_node,
            iterations,
            largest2,
        );
    lemma_one_gauge(width, height, before.nodes.len(), gauge, gauge2);
    if iterations > 0 {
        let earlier = (iterations - 1) as nat;
        let (between, warm) = choose|between: NetworkView<S>, warm: S|
            between.is_rounds_from(before, gauge, pinned_node, earlier, warm)
                && #[trigger] after.is_round_from(between, gauge, warm, pinned_node, largest);
        let (between2, warm2) = choose|between: NetworkView<S>, warm: S|
            between.is_rounds_from(before, gauge, pinned_node, earlier, warm)
                && #[trigger] after2.is_round_from(between, gauge, warm, pinned_node, largest2);
        lemma_one_outcome_of_rounds(before, gauge, pinned_node, earlier, between, warm, between2, warm2);
        lemma_one_round(between, gauge, warm, pinned_node, after, largest, after2, largest2);
    }
}

/// A point is within reach or it is not.
pub proof fn lemma_one_reach<S: Scalar>(point: (S, S), x: S, y: S, radius: S, hit: bool, hit2: bool)
    requires
        single_valued::<S>(),
        is_reach(point, x, y, radius, hit),
        is_reach(point, x, y, radius, hit2),
    ensures
        hit == hit2,
{
    let (d, span) = choose|d: (S, S), span: S|
        is_offset(point, (x, y), d) && is_length(d, span) && is_no_more(span, radius, hit);
    let (d2, span2) = choose|d: (S, S), span: S|
        is_offset(point, (x, y), d) && is_length(d, span) && is_no_more(span, radius, hit2);
    assert(d.0 == d2.0 && d.1 == d2.1);
    lemma_one_length(d, span, span2);
}

/// A hit test has one answer: under a single-valued arithmetic the network,
/// the point and the radius determine which node is found.
pub proof fn lemma_one_hit<S: Scalar>(
    network: NetworkView<S>,
    x: S,
    y: S,
    radius: S,
    found: Option<usize>,
    found2: Option<usize>,
)
    requires
        single_valued::<S>(),
        network.is_first_reached(x, y, radius, found),
        network.is_first_reached(x, y, radius, found2),
    ensures
        found == found2,
{
    match (found, found2) {
        (Some(i), Some(j)) => {
            if i < j {
                assert(is_reach(network.nodes[i as int].point, x, y, radius, false));
                lemma_one_reach(network.nodes[i as int].point, x, y, radius, true, false);
            } else if j < i {
                assert(is_reach(network.nodes[j as int].point, x, y, radius, false));
                lemma_one_reach(network.nodes[j as int].point, x, y, radius, true, false);
            }
        },
        (Some(i), None) => {
            assert(is_reach(network.nodes[i as int].point, x, y, radius, false));
            lemma_one_reach(network.nodes[i as int].point, x, y, radius, true, false);
        },
        (None, Some(j)) => {
            assert(is_reach(network.nodes[j as int].point, x, y, radius, false));
            lemma_one_reach(network.nodes[j as int].point, x, y, radius, true, false);
        },
        (None, None) => {},
    }
}

} // verus!

//! The magnitudes of a layout: the fixed ones of a call, the forces between
//! two nodes, and where a displaced node comes to lie.

use vstd::prelude::*;
use crate::scalar::{
    is_difference, is_larger, is_product, is_quotient, is_ratio, is_root, is_sum, is_within, Scalar,
};
use crate::vector::{is_length, is_offset, length, offset};

verus! {

/// The magnitudes that stay fixed through one layout call.
pub struct Gauge<S> {
    /// Nothing: `0`.
    pub zero: S,
    /// The least distance and the least length that is divided by: `1 / 100`.
    pub floor: S,
    /// The ideal length of a link.
    pub k: S,
    /// The lower bound of both coordinates: `50`.
    pub low: S,
    /// The upper bound of the first coordinate: `width - 50`.
    pub right: S,
    /// The upper bound of the second coordinate: `height - 50`.
    pub bottom: S,
    /// What the temperature is multiplied by after each round: `9 / 10`.
    pub cooling: S,
    /// The temperature of the first round: `width / 5`.
    pub start: S,
}

/// The number that the canvas is shared out among: the number of nodes, and
/// one where there is none.
pub open spec fn sharers(count: nat) -> u64 {
    if count == 0 {
        1
    } else {
        count as u64
    }
}

/// `k` is the ideal length of a link on a canvas of `width` by `height` with
/// `count` nodes: `sqrt(width * height / sharers) * 3 / 2`.
pub open spec fn is_ideal_length<S: Scalar>(width: S, height: S, count: nat, k: S) -> bool {
    exists|area: S, n: S, share: S, side: S, stretch: S|
        is_product(width, height, area) && is_ratio(sharers(count), 1, n) && is_quotient(area, n, share)
            && is_root(share, side) && is_ratio(3, 2, stretch) && is_product(side, stretch, k)
}

/// `gauge` holds the fixed magnitudes of a layout on a canvas of `width` by
/// `height` with `count` nodes.
pub open spec fn is_gauge<S: Scalar>(width: S, height: S, count: nat, gauge: Gauge<S>) -> bool {
    &&& is_ratio(0, 1, gauge.zero)
    &&& is_ratio(1, 100, gauge.floor)
    &&& is_ideal_length(width, height, count, gauge.k)
    &&& is_ratio(50, 1, gauge.low)
    &&& is_difference(width, gauge.low, gauge.right)
    &&& is_difference(height, gauge.low, gauge.bottom)
    &&& is_ratio(9, 10, gauge.cooling)
    &&& exists|five: S| is_ratio(5, 1, five) && is_quotient(width, five, gauge.start)
}

/// The fixed magnitudes of a layout on a canvas of `width` by `height` with
/// `count` nodes.
pub fn gauge<S: Scalar>(width: S, height: S, count: usize) -> (gauge: Gauge<S>)
    requires
        count <= u64::MAX,
    ensures
        is_gauge(width, height, count as nat, gauge),
{
    let zero = S::ratio(0, 1);
    let floor = S::ratio(1, 100);
    let sharers: u64 = if count == 0 {
        1
    } else {
        count as u64
    };
    let area = width.times(height);
    let n = S::ratio(sharers, 1);
    let share = area.over(n);
    let side = share.root();
    let stretch = S::ratio(3, 2);
    let k = side.times(stretch);
    assert(is_product(width, height, area) && is_ratio(self::sharers(count as nat), 1, n) && is_quotient(
        area,
        n,
        share,
    ) && is_root(share, side) && is_ratio(3, 2, stretch) && is_product(side, stretch, k));
    let low = S::ratio(50, 1);
    let right = width.minus(low);
    let bottom = height.minus(low);
    let cooling = S::ratio(9, 10);
    let five = S::ratio(5, 1);
    let start = width.over(five);
    assert(is_ratio(5, 1, five) && is_quotient(width, five, start));
    Gauge { zero, floor, k, low, right, bottom, cooling, start }
}

/// `d` is the step from `a` to `b`, and `distance` its length, taken as
/// `floor` where it is less.
pub open spec fn is_separation<S: Scalar>(
    a: (S, S),
    b: (S, S),
    floor: S,
    d: (S, S),
    distance: S,
) -> bool {
    is_offset(a, b, d) && exists|span: S| is_length(d, span) && is_larger(span, floor, distance)
}

/// The step from `a` to `b`, and its length, taken as `floor` where it is
/// less.
pub fn separation<S: Scalar>(a: (S, S), b: (S, S), floor: S) -> (apart: ((S, S), S))
    ensures
        is_separation(a, b, floor, apart.0, apart.1),
{
    let d = offset(a, b);
    let span = length(d);
    let distance = span.at_least(floor);
    assert(is_length(d, span) && is_larger(span, floor, distance));
    (d, distance)
}

/// `f` is a force of size `force` along `d`, a step of length `distance`:
/// `force * d / distance`, coordinate by coordinate.
pub open spec fn is_along<S: Scalar>(d: (S, S), force: S, distance: S, f: (S, S)) -> bool {
    exists|x: S, y: S|
        is_product(force, d.0, x) && is_quotient(x, distance, f.0) && is_product(force, d.1, y)
            && is_quotient(y, distance, f.1)
}

/// A force of size `force` along `d`, a step of length `distance`.
pub fn along<S: Scalar>(d: (S, S), force: S, distance: S) -> (f: (S, S))
    ensures
        is_along(d, force, distance, f),
{
    let x = force.times(d.0);
    let y = force.times(d.1);
    let f = (x.over(distance), y.over(distance));
    assert(is_product(force, d.0, x) && is_quotient(x, distance, f.0) && is_product(force, d.1, y)
        && is_quotient(y, distance, f.1));
    f
}

/// `f` is the force that pushes `b` away from `a`: of size
/// `k * k / distance`, along the step from `a` to `b`.
pub open spec fn is_repulsion<S: Scalar>(a: (S, S), b: (S, S), gauge: Gauge<S>, f: (S, S)) -> bool {
    exists|d: (S, S), distance: S, square: S, force: S|
        is_separation(a, b, gauge.floor, d, distance) && is_product(gauge.k, gauge.k, square)
            && is_quotient(square, distance, force) && is_along(d, force, distance, f)
}

/// The force that pushes `b` away from `a`.
pub fn repulsion<S: Scalar>(a: (S, S), b: (S, S), gauge: &Gauge<S>) -> (f: (S, S))
    ensures
        is_repulsion(a, b, *gauge, f),
{
    let (d, distance) = separation(a, b, gauge.floor);
    let square = gauge.k.times(gauge.k);
    let force = square.over(distance);
    let f = along(d, force, distance);
    assert(is_separation(a, b, gauge.floor, d, distance) && is_product(gauge.k, gauge.k, square)
        && is_quotient(square, distance, force) && is_along(d, force, distance, f));
    f
}

/// `f` is the force that pulls `a` towards `b`: of size
/// `distance * distance / k`, along the step from `a` to `b`.
pub open spec fn is_attraction<S: Scalar>(a: (S, S), b: (S, S), gauge: Gauge<S>, f: (S, S)) -> bool {
    exists|d: (S, S), distance: S, square: S, force: S|
        is_separation(a, b, gauge.floor, d, distance) && is_product(distance, distance, square)
            && is_quotient(square, gauge.k, force) && is_along(d, force, distance, f)
}

/// The force that pulls `a` towards `b`.
pub fn attraction<S: Scalar>(a: (S, S), b: (S, S), gauge: &Gauge<S>) -> (f: (S, S))
    ensures
        is_attraction(a, b, *gauge, f),
{
    let (d, distance) = separation(a, b, gauge.floor);
    let square = distance.times(distance);
    let force = square.over(gauge.k);
    let f = along(d, force, distance);
    assert(is_separation(a, b, gauge.floor, d, distance) && is_product(distance, distance, square)
        && is_quotient(square, gauge.k, force) && is_along(d, force, distance, f));
    f
}

/// `target` is where a node at `point` comes to lie under the displacement
/// `d` at the temperature `temp`, and `span` is the length of `d`. The node
/// moves by `d * (temp / reach)`, where `reach` is the span, taken as the
/// floor where it is less, and then into the canvas: each coordinate within
/// its bounds.
pub open spec fn is_target<S: Scalar>(
    point: (S, S),
    d: (S, S),
    temp: S,
    gauge: Gauge<S>,
    target: (S, S),
    span: S,
) -> bool {
    exists|reach: S, factor: S, dx: S, dy: S, x: S, y: S|
        is_length(d, span) && is_larger(span, gauge.floor, reach) && is_quotient(temp, reach, factor)
            && is_product(d.0, factor, dx) && is_product(d.1, factor, dy) && is_sum(point.0, dx, x)
            && is_sum(point.1, dy, y) && is_within(x, gauge.low, gauge.right, target.0) && is_within(
            y,
            gauge.low,
            gauge.bottom,
            target.1,
        )
}

/// Where a node at `point` comes to lie under the displacement `d` at the
/// temperature `temp`, and the length of `d`.
pub fn target<S: Scalar>(point: (S, S), d: (S, S), temp: S, gauge: &Gauge<S>) -> (aimed: ((S, S), S))
    ensures
        is_target(point, d, temp, *gauge, aimed.0, aimed.1),
{
    let span = length(d);
    let reach = span.at_least(gauge.floor);
    let factor = temp.over(reach);
    let dx = d.0.times(factor);
    let dy = d.1.times(factor);
    let x = point.0.plus(dx);
    let y = point.1.plus(dy);
    let target = (x.within(gauge.low, gauge.right), y.within(gauge.low, gauge.bottom));
    assert(is_length(d, span) && is_larger(span, gauge.floor, reach) && is_quotient(temp, reach, factor)
        && is_product(d.0, factor, dx) && is_product(d.1, factor, dy) && is_sum(point.0, dx, x) && is_sum(
        point.1,
        dy,
        y,
    ) && is_within(x, gauge.low, gauge.right, target.0) && is_within(
        y,
        gauge.low,
        gauge.bottom,
        target.1,
    ));
    (target, span)
}

} // verus!

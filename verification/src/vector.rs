//! Pairs of scalars: positions, displacements, forces.

use vstd::prelude::*;
use crate::scalar::{is_difference, is_product, is_root, is_sum, Scalar};

verus! {

/// `d` is the step from `from` to `to`: `to - from`, coordinate by
/// coordinate.
pub open spec fn is_offset<S: Scalar>(from: (S, S), to: (S, S), d: (S, S)) -> bool {
    is_difference(to.0, from.0, d.0) && is_difference(to.1, from.1, d.1)
}

/// The step from `from` to `to`.
pub fn offset<S: Scalar>(from: (S, S), to: (S, S)) -> (d: (S, S))
    ensures
        is_offset(from, to, d),
{
    (to.0.minus(from.0), to.1.minus(from.1))
}

/// `r` is the Euclidean length of `v`: the root of `v.0 * v.0 + v.1 * v.1`.
pub open spec fn is_length<S: Scalar>(v: (S, S), r: S) -> bool {
    exists|xx: S, yy: S, sum: S|
        is_product(v.0, v.0, xx) && is_product(v.1, v.1, yy) && is_sum(xx, yy, sum) && is_root(sum, r)
}

/// The Euclidean length of `v`.
pub fn length<S: Scalar>(v: (S, S)) -> (r: S)
    ensures
        is_length(v, r),
{
    let xx = v.0.times(v.0);
    let yy = v.1.times(v.1);
    let sum = xx.plus(yy);
    let r = sum.root();
    assert(is_product(v.0, v.0, xx) && is_product(v.1, v.1, yy) && is_sum(xx, yy, sum) && is_root(
        sum,
        r,
    ));
    r
}

/// `r` is `v + w`, coordinate by coordinate.
pub open spec fn is_added<S: Scalar>(v: (S, S), w: (S, S), r: (S, S)) -> bool {
    is_sum(v.0, w.0, r.0) && is_sum(v.1, w.1, r.1)
}

/// `v + w`.
pub fn added<S: Scalar>(v: (S, S), w: (S, S)) -> (r: (S, S))
    ensures
        is_added(v, w, r),
{
    (v.0.plus(w.0), v.1.plus(w.1))
}

/// `r` is `v - w`, coordinate by coordinate.
pub open spec fn is_taken<S: Scalar>(v: (S, S), w: (S, S), r: (S, S)) -> bool {
    is_difference(v.0, w.0, r.0) && is_difference(v.1, w.1, r.1)
}

/// `v - w`.
pub fn taken<S: Scalar>(v: (S, S), w: (S, S)) -> (r: (S, S))
    ensures
        is_taken(v, w, r),
{
    (v.0.minus(w.0), v.1.minus(w.1))
}

} // verus!

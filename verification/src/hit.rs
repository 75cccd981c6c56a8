//! Hit testing: which node lies under a point.

use vstd::prelude::*;
use crate::network::{Network, NetworkView};
use crate::scalar::{is_no_more, Scalar};
use crate::vector::{is_length, is_offset, length, offset};

verus! {

/// `hit` says whether `point` lies within `radius` of `(x, y)`: whether the
/// Euclidean length of the step from `point` to `(x, y)` is no more than
/// `radius`.
pub open spec fn is_reach<S: Scalar>(point: (S, S), x: S, y: S, radius: S, hit: bool) -> bool {
    exists|d: (S, S), span: S|
        is_offset(point, (x, y), d) && is_length(d, span) && is_no_more(span, radius, hit)
}

/// Whether `point` lies within `radius` of `(x, y)`.
pub fn reaches<S: Scalar>(point: (S, S), x: S, y: S, radius: S) -> (hit: bool)
    ensures
        is_reach(point, x, y, radius, hit),
{
    let d = offset(point, (x, y));
    let span = length(d);
    let hit = span.no_more_than(radius);
    assert(is_offset(point, (x, y), d) && is_length(d, span) && is_no_more(span, radius, hit));
    hit
}

impl<S: Scalar> NetworkView<S> {
    /// Whether `found` is the first node, in the order of the nodes, that
    /// lies within `radius` of `(x, y)`: the node at that index does, and
    /// none before it; `None` stands for a network in which no node does.
    pub open spec fn is_first_reached(self, x: S, y: S, radius: S, found: Option<usize>) -> bool {
        match found {
            Some(index) => {
                &&& index < self.nodes.len()
                &&& is_reach(self.nodes[index as int].point, x, y, radius, true)
                &&& forall|i: int|
                    0 <= i < index ==> is_reach((#[trigger] self.nodes[i]).point, x, y, radius, false)
            },
            None => forall|i: int|
                0 <= i < self.nodes.len() ==> is_reach(
                    (#[trigger] self.nodes[i]).point,
                    x,
                    y,
                    radius,
                    false,
                ),
        }
    }
}

impl<S: Scalar> Network<S> {
    /// The first node, in the order in which the nodes were added, that lies
    /// within `radius` of `(x, y)`, and `None` if none does. A nearer node
    /// behind it does not count.
    pub fn find_node_at_point(&self, x: S, y: S, radius: S) -> (found: Option<usize>)
        requires
            self.wf(),
        ensures
            self@.is_first_reached(x, y, radius, found),
    {
        let count = self.node_count();
        let mut i: usize = 0;
        while i < count
            invariant
                self.wf(),
                count == self@.nodes.len(),
                i <= count,
                forall|m: int|
                    0 <= m < i ==> is_reach((#[trigger] self@.nodes[m]).point, x, y, radius, false),
            decreases count - i,
        {
            if reaches(self.position(i), x, y, radius) {
                return Some(i);
            }
            i += 1;
        }
        None
    }
}

} // verus!

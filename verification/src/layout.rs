//! The layout engine: a spring embedder that pushes every two nodes apart,
//! pulls linked nodes together, and lets the nodes settle under a falling
//! temperature.

use vstd::prelude::*;
use crate::forces::{
    attraction, gauge, is_attraction, is_gauge, is_repulsion, is_target, repulsion, target, Gauge,
};
use crate::network::Network;
use crate::round::{
    are_targets, at_rest, is_largest, is_next_largest, lemma_largest_goes_on, lemma_largest_of_prefix,
    lemma_links_go_on, lemma_row_goes_on, lemma_rows_go_on, link_attracted, links_attracted,
    pair_repelled, row_repelled, rows_repelled, touches,
};
use crate::scalar::Scalar;
use crate::vector::{added, is_added, is_taken, taken};

verus! {

/// Whether `index` is the pinned node.
pub fn is_pinned(pinned_node: Option<usize>, index: usize) -> (pinned: bool)
    ensures
        pinned == (pinned_node == Some(index)),
{
    match pinned_node {
        Some(p) => p == index,
        None => false,
    }
}

/// A displacement of nothing for each of `count` nodes.
fn rested<S: Scalar>(count: usize, zero: S) -> (displacements: Vec<(S, S)>)
    ensures
        at_rest(displacements@, count as nat, zero),
{
    let mut displacements: Vec<(S, S)> = Vec::new();
    let mut i: usize = 0;
    while i < count
        invariant
            i <= count,
            at_rest(displacements@, i as nat, zero),
        decreases count - i,
    {
        displacements.push((zero, zero));
        i += 1;
    }
    displacements
}

/// Sets every displacement back to nothing.
fn settle<S: Scalar>(displacements: &mut Vec<(S, S)>, zero: S)
    ensures
        at_rest(final(displacements)@, old(displacements)@.len(), zero),
{
    let count = displacements.len();
    let mut i: usize = 0;
    while i < count
        invariant
            i <= count,
            displacements@.len() == count,
            forall|m: int| 0 <= m < i ==> #[trigger] displacements@[m] == (zero, zero),
        decreases count - i,
    {
        displacements.set(i, (zero, zero));
        i += 1;
    }
}

impl<S: Scalar> Network<S> {
    /// Adds to the displacements the repulsion between every two distinct
    /// nodes.
    fn repel(&self, displacements: &mut Vec<(S, S)>, gauge: &Gauge<S>, pinned_node: Option<usize>)
        requires
            self.wf(),
            old(displacements)@.len() == self@.nodes.len(),
        ensures
            final(displacements)@.len() == old(displacements)@.len(),
            rows_repelled(
                self@.points(),
                *gauge,
                pinned_node,
                old(displacements)@,
                self@.nodes.len() as int,
                final(displacements)@,
            ),
    {
        let ghost points = self@.points();
        let ghost start = displacements@;
        let count = self.node_count();
        let mut i: usize = 0;
        while i < count
            invariant
                self.wf(),
                points == self@.points(),
                count == self@.nodes.len(),
                displacements@.len() == count,
                i <= count,
                rows_repelled(points, *gauge, pinned_node, start, i as int, displacements@),
            decreases count - i,
        {
            let ghost row_start = displacements@;
            let mut j: usize = i + 1;
            while j < count
                invariant
                    self.wf(),
                    points == self@.points(),
                    count == self@.nodes.len(),
                    displacements@.len() == count,
                    i < j <= count,
                    row_repelled(
                        points,
                        *gauge,
                        pinned_node,
                        row_start,
                        i as int,
                        j as int,
                        displacements@,
                    ),
                decreases count - j,
            {
                let ghost before = displacements@;
                let f = repulsion(self.position(i), self.position(j), gauge);
                if !is_pinned(pinned_node, i) {
                    let pushed = taken(displacements[i], f);
                    displacements.set(i, pushed);
                }
                if !is_pinned(pinned_node, j) {
                    let pushed = added(displacements[j], f);
                    displacements.set(j, pushed);
                }
                proof {
                    let after = displacements@;
                    assert(is_repulsion(points[i as int], points[j as int], *gauge, f) && (if pinned_node
                        == Some(i) {
                        after[i as int] == before[i as int]
                    } else {
                        is_taken(before[i as int], f, after[i as int])
                    }) && (if pinned_node == Some(j) {
                        after[j as int] == before[j as int]
                    } else {
                        is_added(before[j as int], f, after[j as int])
                    }));
                    lemma_row_goes_on(
                        points,
                        *gauge,
                        pinned_node,
                        row_start,
                        i as int,
                        j as int,
                        before,
                        after,
                    );
                }
                j += 1;
            }
            proof {
                lemma_rows_go_on(
                    points,
                    *gauge,
                    pinned_node,
                    start,
                    i as int,
                    row_start,
                    displacements@,
                );
            }
            i += 1;
        }
    }

    /// Whether the link at `index` pulls its two ends together: every link
    /// does, but one that touches the pinned node.
    pub fn pulls(&self, index: usize, pinned_node: Option<usize>) -> (pulling: bool)
        requires
            self.wf(),
            index < self@.links.len(),
        ensures
            pulling == !touches(
                pinned_node,
                self@.links[index as int].source,
                self@.links[index as int].destination,
            ),
    {
        let (source, destination) = self.endpoints(index);
        !is_pinned(pinned_node, source) && !is_pinned(pinned_node, destination)
    }

    /// Adds to the displacements the attraction along every link.
    fn attract(&self, displacements: &mut Vec<(S, S)>, gauge: &Gauge<S>, pinned_node: Option<usize>)
        requires
            self.wf(),
            old(displacements)@.len() == self@.nodes.len(),
        ensures
            final(displacements)@.len() == old(displacements)@.len(),
            links_attracted(
                self@.points(),
                self@.links,
                *gauge,
                pinned_node,
                old(displacements)@,
                self@.links.len() as int,
                final(displacements)@,
            ),
    {
        let ghost points = self@.points();
        let ghost start = displacements@;
        let count = self.edge_count();
        let mut e: usize = 0;
        while e < count
            invariant
                self.wf(),
                points == self@.points(),
                count == self@.links.len(),
                displacements@.len() == self@.nodes.len(),
                e <= count,
                links_attracted(
                    points,
                    self@.links,
                    *gauge,
                    pinned_node,
                    start,
                    e as int,
                    displacements@,
                ),
            decreases count - e,
        {
            let ghost before = displacements@;
            if self.pulls(e, pinned_node) {
                let (source, destination) = self.endpoints(e);
                let f = attraction(self.position(source), self.position(destination), gauge);
                let drawn = added(displacements[source], f);
                displacements.set(source, drawn);
                let held = taken(displacements[destination], f);
                displacements.set(destination, held);
                proof {
                    let link = self@.links[e as int];
                    assert(is_attraction(points[link.source], points[link.destination], *gauge, f)
                        && is_added(before[link.source], f, drawn) && is_taken(
                        before.update(link.source, drawn)[link.destination],
                        f,
                        held,
                    ) && displacements@ == before.update(link.source, drawn).update(
                        link.destination,
                        held,
                    ));
                }
            }
            proof {
                lemma_links_go_on(
                    points,
                    self@.links,
                    *gauge,
                    pinned_node,
                    start,
                    e as int,
                    before,
                    displacements@,
                );
            }
            e += 1;
        }
    }

    /// Where each node but the pinned one comes to lie under its
    /// displacement, and the largest displacement among these nodes. The
    /// pinned node's entry is where it lies.
    fn targets(
        &self,
        displacements: &Vec<(S, S)>,
        temp: S,
        gauge: &Gauge<S>,
        pinned_node: Option<usize>,
    ) -> (aimed: (Vec<(S, S)>, S))
        requires
            self.wf(),
            displacements@.len() == self@.nodes.len(),
        ensures
            are_targets(self@.points(), displacements@, temp, *gauge, pinned_node, aimed.0@, aimed.1),
    {
        let ghost points = self@.points();
        let ghost mut spans: Seq<S> = Seq::empty();
        let mut largest = gauge.zero;
        let mut targets: Vec<(S, S)> = Vec::new();
        let count = self.node_count();
        let mut i: usize = 0;
        while i < count
            invariant
                self.wf(),
                points == self@.points(),
                count == self@.nodes.len(),
                displacements@.len() == count,
                targets@.len() == i,
                spans.len() == i,
                i <= count,
                forall|m: int|
                    0 <= m < i && pinned_node != Some(m as usize) ==> is_target(
                        points[m],
                        displacements@[m],
                        temp,
                        *gauge,
                        #[trigger] targets@[m],
                        spans[m],
                    ),
                is_largest(spans, pinned_node, gauge.zero, i as int, largest),
            decreases count - i,
        {
            let ghost spans_before = spans;
            let ghost largest_before = largest;
            let point = self.position(i);
            if is_pinned(pinned_node, i) {
                targets.push(point);
                proof {
                    spans = spans.push(gauge.zero);
                }
            } else {
                let (aim, span) = target(point, displacements[i], temp, gauge);
                largest = largest.at_least(span);
                targets.push(aim);
                proof {
                    spans = spans.push(span);
                }
            }
            proof {
                lemma_largest_of_prefix(
                    spans_before,
                    spans,
                    pinned_node,
                    gauge.zero,
                    i as int,
                    largest_before,
                );
                lemma_largest_goes_on(
                    spans,
                    pinned_node,
                    gauge.zero,
                    i as int,
                    largest_before,
                    largest,
                );
            }
            i += 1;
        }
        proof {
            assert(spans.len() == points.len() && (forall|m: int|
                0 <= m < points.len() && pinned_node != Some(m as usize) ==> is_target(
                    points[m],
                    displacements@[m],
                    temp,
                    *gauge,
                    #[trigger] targets@[m],
                    spans[m],
                )) && is_largest(spans, pinned_node, gauge.zero, points.len() as int, largest));
        }
        (targets, largest)
    }

    /// Moves every node but the pinned one to its entry in `targets`.
    pub fn move_unpinned(&mut self, targets: &Vec<(S, S)>, pinned_node: Option<usize>)
        requires
            old(self).wf(),
            targets@.len() == old(self)@.nodes.len(),
        ensures
            final(self).wf(),
            final(self)@ == old(self)@.moved_to(targets@, pinned_node),
    {
        let count = self.node_count();
        let mut i: usize = 0;
        while i < count
            invariant
                self.wf(),
                count == self@.nodes.len(),
                targets@.len() == count,
                i <= count,
                self@.links == old(self)@.links,
                self@.nodes.len() == old(self)@.nodes.len(),
                forall|j: int|
                    0 <= j < count ==> {
                        &&& (#[trigger] self@.nodes[j]).id == old(self)@.nodes[j].id
                        &&& self@.nodes[j].point == if j >= i || pinned_node == Some(j as usize) {
                            old(self)@.nodes[j].point
                        } else {
                            targets@[j]
                        }
                    },
            decreases count - i,
        {
            if !is_pinned(pinned_node, i) {
                self.set_position(i, targets[i]);
            }
            i += 1;
        }
        proof {
            assert(self@.nodes =~= old(self)@.moved_to(targets@, pinned_node).nodes);
        }
    }

    /// One round of the layout at the temperature `temp`. Returns the largest
    /// displacement of the round.
    fn round(
        &mut self,
        displacements: &mut Vec<(S, S)>,
        gauge: &Gauge<S>,
        temp: S,
        pinned_node: Option<usize>,
    ) -> (largest: S)
        requires
            old(self).wf(),
            old(displacements)@.len() == old(self)@.nodes.len(),
        ensures
            final(self).wf(),
            final(displacements)@.len() == old(displacements)@.len(),
            final(self)@.is_round_from(old(self)@, *gauge, temp, pinned_node, largest),
    {
        settle(displacements, gauge.zero);
        let ghost rest = displacements@;
        self.repel(displacements, gauge, pinned_node);
        let ghost pushed = displacements@;
        self.attract(displacements, gauge, pinned_node);
        let ghost pulled = displacements@;
        let (targets, largest) = self.targets(displacements, temp, gauge, pinned_node);
        self.move_unpinned(&targets, pinned_node);
        proof {
            assert(self@.is_round_of(
                old(self)@,
                *gauge,
                temp,
                pinned_node,
                largest,
                rest,
                pushed,
                pulled,
                targets@,
            ));
        }
        largest
    }

    /// Lays the network out on a canvas of `width` by `height`: `iterations`
    /// rounds of repulsion between all nodes, attraction along the links, and
    /// a move of every node but the pinned one, under a temperature that
    /// starts at `width / 5` and falls to nine tenths of itself after each
    /// round. Returns the largest displacement of the last round, and zero
    /// after no round.
    ///
    /// Links and ids stay as they are, and so does the pinned node, if
    /// `pinned_node` names a node. Without a round, or without a node that is
    /// not pinned, nothing changes at all.
    pub fn apply_force_directed_layout(
        &mut self,
        width: S,
        height: S,
        iterations: usize,
        pinned_node: Option<usize>,
    ) -> (max_displacement: S)
        requires
            old(self).wf(),
        ensures
            final(self).wf(),
            final(self)@.is_layout_of(
                old(self)@,
                width,
                height,
                iterations as nat,
                pinned_node,
                max_displacement,
            ),
            final(self)@.relaxed_from(old(self)@, pinned_node),
            iterations == 0 || old(self)@.nodes.len() == 0 || (old(self)@.nodes.len() == 1
                && pinned_node == Some(0usize)) ==> final(self)@ == old(self)@,
    {
        let count = self.node_count();
        let gauge = gauge(width, height, count);
        let mut temp = gauge.start;
        let mut max_displacement = gauge.zero;
        let mut displacements = rested(count, gauge.zero);
        let mut round: usize = 0;
        while round < iterations
            invariant
                self.wf(),
                self@.is_rounds_from(old(self)@, gauge, pinned_node, round as nat, temp),
                self@.is_settled_from(old(self)@, gauge, pinned_node, round as nat, max_displacement),
                self@.relaxed_from(old(self)@, pinned_node),
                round <= iterations,
                round == 0 || old(self)@.nodes.len() == 0 || (old(self)@.nodes.len() == 1
                    && pinned_node == Some(0usize)) ==> self@ == old(self)@,
                displacements@.len() == self@.nodes.len(),
            decreases iterations - round,
        {
            let ghost before = self@;
            let ghost warm = temp;
            max_displacement = self.round(&mut displacements, &gauge, temp, pinned_node);
            temp = temp.times(gauge.cooling);
            round += 1;
            proof {
                self@.lemma_rounds_go_on(
                    before,
                    old(self)@,
                    gauge,
                    pinned_node,
                    (round - 1) as nat,
                    warm,
                    temp,
                    max_displacement,
                );
                if before.nodes.len() == 0 || (before.nodes.len() == 1 && pinned_node == Some(0usize)) {
                    assert(self@.nodes =~= before.nodes);
                }
            }
        }
        proof {
            assert(is_gauge(width, height, old(self)@.nodes.len(), gauge) && self@.is_settled_from(
                old(self)@,
                gauge,
                pinned_node,
                iterations as nat,
                max_displacement,
            ));
        }
        max_displacement
    }
}

} // verus!

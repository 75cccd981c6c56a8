//! The interactive model: a network, the node that is being dragged, and the
//! messages by which pointer input changes them.
//!
//! Reading the pointer and drawing are left to the caller. What is decided
//! here is which messages an input gives rise to, and what each message does
//! to the model.

use vstd::prelude::*;
use vstd::string::StringExecFns;
use std::collections::VecDeque;
use crate::graph::graph_limit;
use crate::link::{Link, LinkView};
use crate::load::{records, Area};
use crate::network::{Network, NetworkView};
use crate::node::{Node, NodeView};
use crate::scalar::{is_difference, is_ratio, is_sum, is_within, Scalar};
use crate::text::{decimal, decimal_text};
use crate::ui::UiState;

verus! {

/// A change that the model is asked to make.
#[derive(Debug)]
pub enum AppMsg<S> {
    /// Add a node at the point.
    AddPoint((S, S)),
    /// Take hold of the node at the index; the two scalars are the offset
    /// from the node's centre to the pointer.
    StartDrag(usize, S, S),
    /// Carry the held node along to where the pointer is now.
    UpdateDrag(S, S),
    /// Let go of the held node.
    EndDrag,
}

/// The pointer in one frame: where it is, in window coordinates, and what its
/// button did.
#[derive(Debug)]
pub struct Pointer<S> {
    pub x: S,
    pub y: S,
    /// The button went down in this frame.
    pub pressed: bool,
    /// The button is down.
    pub down: bool,
    /// The button came up in this frame.
    pub released: bool,
}

/// What the pointer does to a drag in one frame.
#[derive(Debug, Clone, Copy, PartialEq, Eq, Structural)]
pub enum DragStep {
    /// The held node follows the pointer.
    Move,
    /// The held node is let go.
    Drop,
    /// Nothing is held, or nothing about it changes.
    Stay,
}

/// What the pointer does to a drag: with a node held, a button that is down
/// moves it, and one that came up, and is not down, drops it.
pub open spec fn drag_step_of(down: bool, released: bool, dragging: bool) -> DragStep {
    if dragging && down {
        DragStep::Move
    } else if dragging && released {
        DragStep::Drop
    } else {
        DragStep::Stay
    }
}

/// What the pointer does to a drag in this frame.
pub fn drag_step(down: bool, released: bool, dragging: bool) -> (step: DragStep)
    ensures
        step == drag_step_of(down, released, dragging),
{
    match (down, released, dragging) {
        (true, _, true) => DragStep::Move,
        (_, true, true) => DragStep::Drop,
        _ => DragStep::Stay,
    }
}

/// The id of a node that is added by hand when the network has `count`
/// nodes: `node` and the count in decimal.
pub open spec fn node_label(count: nat) -> Seq<char> {
    "node"@ + decimal(count)
}

/// A message as a sequence: itself, or nothing.
pub open spec fn sent<S>(message: Option<AppMsg<S>>) -> Seq<AppMsg<S>> {
    match message {
        Some(m) => seq![m],
        None => Seq::empty(),
    }
}

/// How far the canvas lies to the right of the window's left border.
pub const CANVAS_OFFSET_X: u64 = 250;

/// How near the pointer must be to a node's centre to take hold of it.
pub const NODE_RADIUS: u64 = 18;

/// How far inside each border of the canvas a node is kept.
pub const MARGIN: u64 = 50;

/// The number of rounds in which a new model is laid out.
pub const FIRST_ROUNDS: usize = 100;

/// The part of the canvas that new models scatter their nodes over.
pub open spec fn scatter_area() -> Area {
    Area { left: 50, right: 500, top: 50, bottom: 550 }
}

/// `at` is where a node that is held at the offset `(offset_x, offset_y)`
/// comes to lie when the pointer is at `(x, y)`: at the pointer's position
/// less the offset, moved into the canvas of `width` by `height`, the margin
/// inside each border.
pub open spec fn is_carried<S: Scalar>(
    x: S,
    y: S,
    offset_x: S,
    offset_y: S,
    width: S,
    height: S,
    at: (S, S),
) -> bool {
    exists|margin: S, right: S, bottom: S, free_x: S, free_y: S|
        is_ratio(MARGIN, 1, margin) && is_difference(width, margin, right) && is_difference(
            height,
            margin,
            bottom,
        ) && is_difference(x, offset_x, free_x) && is_difference(y, offset_y, free_y) && is_within(
            free_x,
            margin,
            right,
            at.0,
        ) && is_within(free_y, margin, bottom, at.1)
}

/// Where a node that is held at the offset `(offset_x, offset_y)` comes to
/// lie when the pointer is at `(x, y)`.
pub fn carried<S: Scalar>(x: S, y: S, offset_x: S, offset_y: S, width: S, height: S) -> (at: (S, S))
    ensures
        is_carried(x, y, offset_x, offset_y, width, height, at),
{
    let margin = S::ratio(MARGIN, 1);
    let right = width.minus(margin);
    let bottom = height.minus(margin);
    let free_x = x.minus(offset_x);
    let free_y = y.minus(offset_y);
    let at = (free_x.within(margin, right), free_y.within(margin, bottom));
    assert(is_ratio(MARGIN, 1, margin) && is_difference(width, margin, right) && is_difference(
        height,
        margin,
        bottom,
    ) && is_difference(x, offset_x, free_x) && is_difference(y, offset_y, free_y) && is_within(
        free_x,
        margin,
        right,
        at.0,
    ) && is_within(free_y, margin, bottom, at.1));
    at
}

/// The square that the positions of nodes added by hand are drawn from,
/// before they are shifted to the right.
pub open spec fn add_area() -> Area {
    Area { left: 50, right: 750, top: 50, bottom: 750 }
}

/// How far to the right a position drawn for a node added by hand is
/// shifted.
pub const ADD_SHIFT_X: u64 = 200;

/// Whether `message` asks for a node at a random place: at a position of
/// the square for added nodes, shifted to the right.
pub open spec fn is_add_request<S: Scalar>(message: AppMsg<S>) -> bool {
    message is AddPoint && exists|spot: (S, S), shift: S|
        #![trigger add_area().is_spot(spot), is_sum(spot.0, shift, message->AddPoint_0.0)]
        add_area().is_spot(spot) && is_ratio(ADD_SHIFT_X, 1, shift) && is_sum(
            spot.0,
            shift,
            message->AddPoint_0.0,
        ) && message->AddPoint_0.1 == spot.1
}

/// A message that asks for a node at a random place.
pub fn add_request<S: Scalar>() -> (message: AppMsg<S>)
    ensures
        is_add_request(message),
{
    let area = Area { left: 50, right: 750, top: 50, bottom: 750 };
    let spot = area.random_point::<S>();
    let shift = S::ratio(ADD_SHIFT_X, 1);
    let message = AppMsg::AddPoint((spot.0.plus(shift), spot.1));
    assert(add_area().is_spot(spot) && is_ratio(ADD_SHIFT_X, 1, shift) && is_sum(
        spot.0,
        shift,
        message->AddPoint_0.0,
    ) && message->AddPoint_0.1 == spot.1);
    message
}

impl<S: Scalar> NetworkView<S> {
    /// Whether `self` is `before` after the held node was carried along to
    /// the pointer at `(x, y)`: the node lies where [`is_carried`] says, and
    /// nothing else has changed. With no node held, or with a held index that
    /// names no node, `self` is `before`.
    pub open spec fn is_dragged_from(
        self,
        before: Self,
        held: Option<(usize, S, S)>,
        x: S,
        y: S,
        width: S,
        height: S,
    ) -> bool {
        match held {
            Some((index, offset_x, offset_y)) if index < before.nodes.len() => {
                &&& is_carried(x, y, offset_x, offset_y, width, height, self.nodes[index as int].point)
                &&& self.links == before.links
                &&& self.nodes == before.nodes.update(
                    index as int,
                    NodeView {
                        id: before.nodes[index as int].id,
                        point: self.nodes[index as int].point,
                    },
                )
            },
            _ => self == before,
        }
    }
}

/// The interactive model.
pub struct AppModel<S> {
    pub network: Network<S>,
    /// The node that is held, with the offset from its centre at which the
    /// pointer took hold of it.
    pub dragged_node: Option<(usize, S, S)>,
    /// How far the canvas lies to the right of the window's left border.
    pub canvas_offset_x: u64,
    pub uistate: UiState,
}

impl<S: Scalar> AppModel<S> {
    /// The model is well formed: its network is.
    pub open spec fn wf(&self) -> bool {
        self.network.wf()
    }

    /// Whether `start` takes hold of the first node within `radius` of the
    /// point `(x, pointer.y)` of the canvas, at the offset of that point from
    /// the node's position, `offset` being the canvas offset; where no node
    /// is that near, `start` is nothing.
    pub open spec fn is_hold(
        &self,
        pointer: Pointer<S>,
        offset: S,
        x: S,
        radius: S,
        start: Option<AppMsg<S>>,
    ) -> bool {
        match start {
            Some(message) => message is StartDrag && self.is_hold_at(
                pointer,
                offset,
                x,
                radius,
                message->StartDrag_0,
                message->StartDrag_1,
                message->StartDrag_2,
            ),
            None => self.network@.is_first_reached(x, pointer.y, radius, None),
        }
    }

    /// Whether the node at `index` is the first within `radius` of the point
    /// `(x, pointer.y)` of the canvas, and `(offset_x, offset_y)` the offset
    /// of that point from the node's position: the pointer's window position
    /// less the node's position, and then less `offset` in the first
    /// coordinate.
    pub open spec fn is_hold_at(
        &self,
        pointer: Pointer<S>,
        offset: S,
        x: S,
        radius: S,
        index: usize,
        offset_x: S,
        offset_y: S,
    ) -> bool {
        &&& self.network@.is_first_reached(x, pointer.y, radius, Some(index))
        &&& exists|from_node: S|
            is_difference(pointer.x, self.network@.nodes[index as int].point.0, from_node) && is_difference(
                from_node,
                offset,
                offset_x,
            )
        &&& is_difference(pointer.y, self.network@.nodes[index as int].point.1, offset_y)
    }

    /// Whether `start` is what a press gives rise to. Nothing, if the button
    /// did not go down. Else the pointer is taken to the canvas, by the
    /// canvas offset to the left, and the first node within the node radius
    /// of it is taken hold of, as [`AppModel::is_hold`] says.
    pub open spec fn is_grab(&self, pointer: Pointer<S>, start: Option<AppMsg<S>>) -> bool {
        if !pointer.pressed {
            start.is_none()
        } else {
            exists|offset: S, x: S, radius: S|
                is_ratio(self.canvas_offset_x, 1, offset) && is_difference(pointer.x, offset, x)
                    && is_ratio(NODE_RADIUS, 1, radius) && #[trigger] self.is_hold(
                    pointer,
                    offset,
                    x,
                    radius,
                    start,
                )
        }
    }

    /// Whether `follow` is what the drag gives rise to: a message to carry
    /// the held node along to the pointer's place on the canvas, one to let
    /// the node go, or nothing, as [`drag_step_of`] says.
    pub open spec fn is_follow(&self, pointer: Pointer<S>, follow: Option<AppMsg<S>>) -> bool {
        match drag_step_of(pointer.down, pointer.released, self.dragged_node.is_some()) {
            DragStep::Move => match follow {
                Some(AppMsg::UpdateDrag(x, y)) => y == pointer.y && exists|offset: S|
                    is_ratio(self.canvas_offset_x, 1, offset) && is_difference(pointer.x, offset, x),
                _ => false,
            },
            DragStep::Drop => follow matches Some(AppMsg::EndDrag),
            DragStep::Stay => follow.is_none(),
        }
    }

    /// Whether the model is one that [`AppModel::init`] makes of the records
    /// on a canvas of `width` by `height`: their network, scattered over the
    /// scatter area and then laid out in the first rounds with no node
    /// pinned. Nothing is held, the selections are on the first entries.
    pub open spec fn is_initial(&self, links: Seq<LinkView>, width: S, height: S) -> bool {
        &&& self.dragged_node.is_none()
        &&& self.canvas_offset_x == CANVAS_OFFSET_X
        &&& self.uistate.selected_start_index == 0
        &&& self.uistate.selected_end_index == 0
        &&& exists|scattered: NetworkView<S>, largest: S|
            scattered.is_scattered(links, scatter_area()) && #[trigger] self.network@.is_layout_of(
                scattered,
                width,
                height,
                FIRST_ROUNDS as nat,
                None,
                largest,
            )
    }

    /// The model for the records: their network with every node at a random
    /// position of the scatter area, then laid out in the first rounds on
    /// `width` by `height` with no node pinned. Nothing is held.
    pub fn init(links: &Vec<Link>, width: S, height: S) -> (model: Self)
        requires
            2 * links@.len() <= graph_limit(),
        ensures
            model.wf(),
            model.is_initial(records(links@), width, height),
            model.network@.links.len() == links@.len(),
    {
        let area = Area { left: MARGIN, right: 750 - CANVAS_OFFSET_X, top: MARGIN, bottom: 550 };
        let mut network = Network::scattered(links, area);
        let ghost scattered = network@;
        let largest = network.apply_force_directed_layout(width, height, FIRST_ROUNDS, None);
        proof {
            assert(scattered.is_scattered(records(links@), scatter_area()) && network@.is_layout_of(
                scattered,
                width,
                height,
                FIRST_ROUNDS as nat,
                None,
                largest,
            ));
        }
        AppModel {
            network,
            dragged_node: None,
            canvas_offset_x: CANVAS_OFFSET_X,
            uistate: UiState::default(),
        }
    }

    /// The message by which a press takes hold of the node under the pointer,
    /// and `None` if the button did not go down or no node lies within the
    /// node radius of the pointer.
    pub fn press(&self, pointer: &Pointer<S>) -> (start: Option<AppMsg<S>>)
        requires
            self.wf(),
        ensures
            self.is_grab(*pointer, start),
    {
        if !pointer.pressed {
            return None;
        }
        let offset = S::ratio(self.canvas_offset_x, 1);
        let x = pointer.x.minus(offset);
        let radius = S::ratio(NODE_RADIUS, 1);
        let start = match self.network.find_node_at_point(x, pointer.y, radius) {
            Some(index) => {
                let point = self.network.position(index);
                let from_node = pointer.x.minus(point.0);
                let offset_x = from_node.minus(offset);
                let offset_y = pointer.y.minus(point.1);
                assert(is_difference(pointer.x, self.network@.nodes[index as int].point.0, from_node)
                    && is_difference(from_node, offset, offset_x));
                assert(self.is_hold_at(*pointer, offset, x, radius, index, offset_x, offset_y));
                let start = Some(AppMsg::StartDrag(index, offset_x, offset_y));
                assert(self.is_hold(*pointer, offset, x, radius, start));
                start
            },
            None => {
                assert(self.is_hold(*pointer, offset, x, radius, None));
                None
            },
        };
        assert(is_ratio(self.canvas_offset_x, 1, offset) && is_difference(pointer.x, offset, x) && is_ratio(
            NODE_RADIUS,
            1,
            radius,
        ) && self.is_hold(*pointer, offset, x, radius, start));
        start
    }

    /// The message by which the pointer carries the held node along or lets
    /// it go, and `None` if it does neither.
    pub fn drag(&self, pointer: &Pointer<S>) -> (follow: Option<AppMsg<S>>)
        ensures
            self.is_follow(*pointer, follow),
    {
        match drag_step(pointer.down, pointer.released, self.dragged_node.is_some()) {
            DragStep::Move => {
                let offset = S::ratio(self.canvas_offset_x, 1);
                let x = pointer.x.minus(offset);
                assert(is_ratio(self.canvas_offset_x, 1, offset) && is_difference(pointer.x, offset, x));
                Some(AppMsg::UpdateDrag(x, pointer.y))
            },
            DragStep::Drop => Some(AppMsg::EndDrag),
            DragStep::Stay => None,
        }
    }

    /// Queues the messages that the pointer gives rise to in this frame:
    /// first what [`AppModel::press`] answers, then what [`AppModel::drag`]
    /// answers.
    pub fn handle_input(&self, pointer: &Pointer<S>, message_queue: &mut VecDeque<AppMsg<S>>)
        requires
            self.wf(),
        ensures
            exists|start: Option<AppMsg<S>>, follow: Option<AppMsg<S>>|
                #![trigger sent(start), sent(follow)]
                self.is_grab(*pointer, start) && self.is_follow(*pointer, follow) && final(message_queue)@
                    == old(message_queue)@ + sent(start) + sent(follow),
    {
        let start = self.press(pointer);
        let ghost seen_start = start;
        match start {
            Some(message) => {
                message_queue.push_back(message);
            },
            None => {},
        }
        let follow = self.drag(pointer);
        let ghost seen_follow = follow;
        match follow {
            Some(message) => {
                message_queue.push_back(message);
            },
            None => {},
        }
        proof {
            assert(message_queue@ =~= old(message_queue)@ + sent(seen_start) + sent(seen_follow));
        }
    }

    /// Makes the change that the message asks for.
    ///
    /// `AddPoint` adds a node at the point, under the id `node` and the
    /// number of nodes; if a node carries that id already, nothing changes.
    /// `StartDrag` takes hold of a node, `EndDrag` lets go. `UpdateDrag`
    /// moves the held node to the pointer's position less the offset at which
    /// it was taken hold of, and then into the canvas of `width` by `height`,
    /// the margin inside each border; with no node held, or with a held index
    /// that names no node, nothing changes.
    pub fn update(&mut self, msg: AppMsg<S>, width: S, height: S)
        requires
            old(self).wf(),
            msg is AddPoint ==> old(self).network@.nodes.len() < graph_limit(),
        ensures
            final(self).wf(),
            final(self).canvas_offset_x == old(self).canvas_offset_x,
            final(self).uistate == old(self).uistate,
            match msg {
                AppMsg::AddPoint(point) => {
                    &&& final(self).dragged_node == old(self).dragged_node
                    &&& final(self).network@ == old(self).network@.with_node(
                        NodeView { id: node_label(old(self).network@.nodes.len()), point },
                    )
                },
                AppMsg::StartDrag(index, offset_x, offset_y) => {
                    &&& final(self).dragged_node == Some((index, offset_x, offset_y))
                    &&& final(self).network@ == old(self).network@
                },
                AppMsg::UpdateDrag(x, y) => {
                    &&& final(self).dragged_node == old(self).dragged_node
                    &&& final(self).network@.is_dragged_from(
                        old(self).network@,
                        old(self).dragged_node,
                        x,
                        y,
                        width,
                        height,
                    )
                },
                AppMsg::EndDrag => {
                    &&& final(self).dragged_node.is_none()
                    &&& final(self).network@ == old(self).network@
                },
            },
    {
        match msg {
            AppMsg::AddPoint(point) => {
                let count = self.network.node_count();
                let id = String::from_str("node").concat(decimal_text(count).as_str());
                self.network.add_node(Node { id, point });
            },
            AppMsg::StartDrag(index, offset_x, offset_y) => {
                self.dragged_node = Some((index, offset_x, offset_y));
            },
            AppMsg::UpdateDrag(x, y) => {
                if let Some((index, offset_x, offset_y)) = self.dragged_node {
                    if index < self.network.node_count() {
                        let at = carried(x, y, offset_x, offset_y, width, height);
                        self.network.set_position(index, at);
                    }
                }
            },
            AppMsg::EndDrag => {
                self.dragged_node = None;
            },
        }
    }
}

} // verus!

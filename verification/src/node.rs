//! Nodes: an id and a position.

use vstd::prelude::*;

verus! {

/// A node: its id, by which it is known outside, and where it lies.
#[derive(Debug, Default, PartialEq)]
pub struct Node<S> {
    pub id: String,
    pub point: (S, S),
}

/// The mathematical value of a [`Node`].
pub struct NodeView<S> {
    pub id: Seq<char>,
    pub point: (S, S),
}

impl<S> View for Node<S> {
    type V = NodeView<S>;

    open spec fn view(&self) -> NodeView<S> {
        NodeView { id: self.id@, point: self.point }
    }
}

impl<S: Copy> Clone for Node<S> {
    fn clone(&self) -> (r: Self)
        ensures
            r@ == self@,
    {
        Node { id: self.id.clone(), point: self.point }
    }
}

} // verus!

//! A network of labelled nodes and weighted, capacitated links, laid out on a
//! canvas by a force-directed algorithm and rearranged by dragging.
//!
//! * [`network`] is the store: nodes are known by their ids, get sequential
//!   indices and are never added twice; links are taken only between nodes
//!   that the store holds. [`load`] builds a store from link records, and
//!   [`order`] lists its ids in the order of strings.
//! * [`layout`] is the spring embedder, with [`round`] for what a round of it
//!   is, [`forces`] for its magnitudes and [`hit`] for finding the node under
//!   a point.
//! * [`app`] is the interactive model: which messages a pointer gives rise
//!   to, and what each message does.
//! * [`laws`] holds what is proved of these across calls, and [`exact`] that
//!   a layout and a hit test have one outcome where the arithmetic has.
//!
//! The library computes with no number type of its own. Positions,
//! distances and forces are values of a [`scalar::Scalar`] that the caller
//! supplies, and every contract holds whatever that arithmetic answers: a
//! contract names the operations that a result went through. What is proved
//! is therefore the shape of every computation, which values are read and
//! written, and all that concerns ids, indices and links.
//!
//! The adjacency structure is a `petgraph` graph. Its methods are called
//! through the contracts of [`graph`], which are taken on trust, as are the
//! random numbers of [`load`] and the sorting of [`order`].

pub mod app;
pub mod error;
pub mod exact;
pub mod forces;
pub mod graph;
pub mod hit;
pub mod laws;
pub mod layout;
pub mod link;
pub mod load;
pub mod network;
pub mod node;
pub mod order;
pub mod round;
pub mod scalar;
pub mod text;
pub mod ui;
pub mod vector;

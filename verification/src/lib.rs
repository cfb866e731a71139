//! A hierarchical value-aggregation protocol.
//!
//! Autonomous nodes are arranged in a tree by parent links. Each node owns an
//! overflow-checked [`accumulator::Accumulator`]; clients submit values into
//! it, a node flushes its accumulated total upward to its parent as a single
//! message, and a node merges the flushed values arriving from its children
//! into its own accumulator. Repeated flushing and delivery over a tree leaves
//! the exact sum of every submitted value at the root; [`network`] states and
//! proves that conservation property.

use vstd::prelude::*;

pub mod accumulator;
pub mod network;
pub mod propagate;
pub mod state;

verus! {

/// Marker for the application's interface: clients drive one node with
/// [`Operation`] values, nodes answer messages carrying one `u64` payload, and
/// the read surface exposes the node's current `value` and `parent`.
pub struct DepinDemoAbi;

/// Opaque, globally unique address of a node, used only for parent links and
/// as the destination of messages. Compared for equality, never ordered.
#[derive(Clone, Copy, Debug, PartialEq, Eq, Hash, Structural)]
pub struct NodeId(pub u64);

/// One flushed value on its way to the node addressed by `destination`.
#[derive(Clone, Copy, Debug, PartialEq, Eq, Structural)]
pub struct Message {
    pub destination: NodeId,
    pub value: u64,
}

/// The error kinds of the protocol. All three are deterministic given the
/// inputs, and none is ever partially applied: a failed operation leaves the
/// node's state exactly as it was.
#[derive(Clone, Copy, Debug, PartialEq, Eq, Structural)]
pub enum NodeError {
    /// A submitted value would push the accumulator past `u64::MAX`; the
    /// operation is rejected as a whole.
    Overflow,
    /// A flush was requested on a node with no configured parent.
    NoParent,
    /// An inbound message would push the accumulator past `u64::MAX`. There is
    /// no sender to notify or retry against, so this is fatal for the unit of
    /// work that delivered the message.
    InboundOverflow,
}

/// A client operation on one node, applied as a single atomic transition.
#[derive(Clone, Copy, Debug, PartialEq, Eq, Structural)]
pub enum Operation {
    /// Set (or rebind) the node's parent link.
    ConnectToParent { parent: NodeId },
    /// Add a value to the node's accumulator, rejecting overflow.
    Submit { value: u64 },
    /// Drain the accumulator and forward the drained value to the parent.
    Flush,
}

} // verus!

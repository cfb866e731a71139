//! A whole network of nodes with its in-flight messages: the propagation
//! driver over which the tree-wide sum invariant is stated and proved.
//!
//! Every transition either conserves the network's total — the node
//! accumulators plus the values still in flight — or, for an accepted submit,
//! grows it by exactly the submitted value. Since each transition is proved
//! so on its own, the conservation holds for every interleaving of
//! submissions, flushes and deliveries, whatever the order.

use vstd::prelude::*;
use vstd::pervasive::VecAdditionalExecFns;

use crate::state::DepinDemoState;
use crate::{Message, NodeError, NodeId};

verus! {

/// Sum of every node's accumulator, as an unbounded integer.
pub open spec fn sum_node_values(nodes: Seq<DepinDemoState>) -> int
    decreases nodes.len(),
{
    if nodes.len() == 0 {
        0
    } else {
        nodes[0].value.value + sum_node_values(nodes.skip(1))
    }
}

/// Sum of the payloads of every in-flight message, as an unbounded integer.
pub open spec fn sum_message_values(messages: Seq<Message>) -> int
    decreases messages.len(),
{
    if messages.len() == 0 {
        0
    } else {
        messages[0].value + sum_message_values(messages.skip(1))
    }
}

proof fn lemma_sum_node_push(nodes: Seq<DepinDemoState>, node: DepinDemoState)
    ensures
        sum_node_values(nodes.push(node)) == sum_node_values(nodes) + node.value.value,
    decreases nodes.len(),
{
    assert(nodes.push(node)[0] == if nodes.len() == 0 { node } else { nodes[0] });
    if nodes.len() == 0 {
        assert(nodes.push(node).skip(1) =~= Seq::<DepinDemoState>::empty());
        assert(sum_node_values(Seq::<DepinDemoState>::empty()) == 0);
    } else {
        assert(nodes.push(node).skip(1) =~= nodes.skip(1).push(node));
        lemma_sum_node_push(nodes.skip(1), node);
    }
}

proof fn lemma_sum_node_update(nodes: Seq<DepinDemoState>, i: int, node: DepinDemoState)
    requires
        0 <= i < nodes.len(),
    ensures
        sum_node_values(nodes.update(i, node)) == sum_node_values(nodes) - nodes[i].value.value
            + node.value.value,
    decreases nodes.len(),
{
    if i == 0 {
        assert(nodes.update(0, node).skip(1) =~= nodes.skip(1));
    } else {
        assert(nodes.update(i, node).skip(1) =~= nodes.skip(1).update(i - 1, node));
        lemma_sum_node_update(nodes.skip(1), i - 1, node);
    }
}

proof fn lemma_sum_message_push(messages: Seq<Message>, message: Message)
    ensures
        sum_message_values(messages.push(message)) == sum_message_values(messages)
            + message.value,
    decreases messages.len(),
{
    assert(messages.push(message)[0] == if messages.len() == 0 {
        message
    } else {
        messages[0]
    });
    if messages.len() == 0 {
        assert(messages.push(message).skip(1) =~= Seq::<Message>::empty());
        assert(sum_message_values(Seq::<Message>::empty()) == 0);
    } else {
        assert(messages.push(message).skip(1) =~= messages.skip(1).push(message));
        lemma_sum_message_push(messages.skip(1), message);
    }
}

proof fn lemma_sum_message_remove(messages: Seq<Message>, k: int)
    requires
        0 <= k < messages.len(),
    ensures
        sum_message_values(messages.remove(k)) == sum_message_values(messages)
            - messages[k].value,
    decreases messages.len(),
{
    if k == 0 {
        assert(messages.remove(0) =~= messages.skip(1));
    } else {
        assert(messages.remove(k).skip(1) =~= messages.skip(1).remove(k - 1));
        lemma_sum_message_remove(messages.skip(1), k - 1);
    }
}

proof fn lemma_sum_node_values_nonneg(nodes: Seq<DepinDemoState>)
    ensures
        sum_node_values(nodes) >= 0,
    decreases nodes.len(),
{
    if nodes.len() > 0 {
        lemma_sum_node_values_nonneg(nodes.skip(1));
    }
}

proof fn lemma_sum_message_values_nonneg(messages: Seq<Message>)
    ensures
        sum_message_values(messages) >= 0,
    decreases messages.len(),
{
    if messages.len() > 0 {
        lemma_sum_message_values_nonneg(messages.skip(1));
    }
}

/// One accumulator never holds more than the sum of them all.
pub proof fn lemma_node_value_le_sum(nodes: Seq<DepinDemoState>, i: int)
    requires
        0 <= i < nodes.len(),
    ensures
        nodes[i].value.value <= sum_node_values(nodes),
    decreases nodes.len(),
{
    if i == 0 {
        lemma_sum_node_values_nonneg(nodes.skip(1));
    } else {
        lemma_node_value_le_sum(nodes.skip(1), i - 1);
    }
}

/// One in-flight payload never exceeds the sum of all in-flight payloads.
pub proof fn lemma_message_value_le_sum(messages: Seq<Message>, k: int)
    requires
        0 <= k < messages.len(),
    ensures
        messages[k].value <= sum_message_values(messages),
    decreases messages.len(),
{
    if k == 0 {
        lemma_sum_message_values_nonneg(messages.skip(1));
    } else {
        lemma_message_value_le_sum(messages.skip(1), k - 1);
    }
}

proof fn lemma_sum_node_all_zero(nodes: Seq<DepinDemoState>)
    requires
        forall|i: int| 0 <= i < nodes.len() ==> (#[trigger] nodes[i]).value.value == 0,
    ensures
        sum_node_values(nodes) == 0,
    decreases nodes.len(),
{
    if nodes.len() > 0 {
        lemma_sum_node_all_zero(nodes.skip(1));
    }
}

proof fn lemma_sum_node_single(nodes: Seq<DepinDemoState>, j: int)
    requires
        0 <= j < nodes.len(),
        forall|i: int|
            0 <= i < nodes.len() && i != j ==> (#[trigger] nodes[i]).value.value == 0,
    ensures
        sum_node_values(nodes) == nodes[j].value.value,
    decreases nodes.len(),
{
    if j == 0 {
        lemma_sum_node_all_zero(nodes.skip(1));
    } else {
        lemma_sum_node_single(nodes.skip(1), j - 1);
    }
}

/// A set of nodes — addressed by their position, so node `i` has the id
/// `NodeId(i)` — together with the emitted messages that are still in flight.
/// This is the reliable but arbitrarily interleaving substrate the protocol
/// assumes: a flushed message stays pending until some later `deliver`, and
/// pending messages may be delivered in any order.
pub struct Network {
    pub nodes: Vec<DepinDemoState>,
    pub pending: Vec<Message>,
}

impl Network {
    /// Every parent link and every pending destination addresses an existing
    /// node.
    pub open spec fn wf(self) -> bool {
        &&& forall|i: int|
            0 <= i < self.nodes@.len() ==> ((#[trigger] self.nodes@[i]).parent matches Some(p)
                ==> p.0 < self.nodes@.len())
        &&& forall|k: int|
            0 <= k < self.pending@.len() ==> (#[trigger] self.pending@[k]).destination.0
                < self.nodes@.len()
    }

    /// The network's total: everything held in an accumulator plus everything
    /// still in flight. Each transition below either conserves it or — for an
    /// accepted submit — grows it by exactly the submitted value, so after any
    /// interleaving it equals the sum of every value ever accepted for
    /// submission anywhere in the network.
    pub open spec fn total(self) -> int {
        sum_node_values(self.nodes@) + sum_message_values(self.pending@)
    }

    /// Turns a node address into an index into `nodes`. The address fits in a
    /// `usize` because it is below the vector's length.
    fn index_of(&self, id: NodeId) -> (i: usize)
        requires
            id.0 < self.nodes@.len(),
        ensures
            i == id.0,
    {
        let node_count: usize = self.nodes.len();
        proof {
            assert(id.0 < node_count);
        }
        id.0 as usize
    }

    /// An empty network: no nodes, nothing in flight, a total of zero.
    pub fn new() -> (network: Self)
        ensures
            network.wf(),
            network.nodes@.len() == 0,
            network.pending@.len() == 0,
            network.total() == 0,
    {
        Network { nodes: Vec::new(), pending: Vec::new() }
    }

    /// Creates one node in its initial state and returns its address. The
    /// total is conserved: a fresh accumulator holds zero.
    pub fn add_node(&mut self) -> (id: NodeId)
        requires
            old(self).wf(),
        ensures
            final(self).wf(),
            id.0 == old(self).nodes@.len(),
            final(self).nodes@ == old(self).nodes@.push(DepinDemoState::initial()),
            final(self).pending@ == old(self).pending@,
            final(self).total() == old(self).total(),
    {
        let id = NodeId(self.nodes.len() as u64);
        proof {
            lemma_sum_node_push(self.nodes@, DepinDemoState::initial());
        }
        self.nodes.push(DepinDemoState::new());
        id
    }

    /// Sets (or rebinds) the parent link of `child`; accumulators and pending
    /// messages are untouched, so the total is conserved.
    pub fn connect(&mut self, child: NodeId, parent: NodeId)
        requires
            old(self).wf(),
            child.0 < old(self).nodes@.len(),
            parent.0 < old(self).nodes@.len(),
        ensures
            final(self).wf(),
            final(self).nodes@.len() == old(self).nodes@.len(),
            final(self).nodes@[child.0 as int].parent == Some(parent),
            final(self).nodes@[child.0 as int].value == old(self).nodes@[child.0 as int].value,
            forall|j: int|
                0 <= j < old(self).nodes@.len() && j != child.0 as int ==> final(self).nodes@[j]
                    == old(self).nodes@[j],
            final(self).pending@ == old(self).pending@,
            final(self).total() == old(self).total(),
    {
        let i = self.index_of(child);
        let mut node = self.nodes[i];
        node.connect_to_parent(parent);
        proof {
            lemma_sum_node_update(self.nodes@, i as int, node);
        }
        self.nodes.set(i, node);
    }

    /// Submits `value` at the node addressed by `target`. Exactly when the
    /// node's accumulator can take it, the submit is accepted and the total
    /// grows by exactly `value`; a rejected submit changes nothing.
    pub fn submit(&mut self, target: NodeId, value: u64) -> (r: Result<(), NodeError>)
        requires
            old(self).wf(),
            target.0 < old(self).nodes@.len(),
        ensures
            final(self).wf(),
            final(self).nodes@.len() == old(self).nodes@.len(),
            r is Ok <==> old(self).nodes@[target.0 as int].value.value + value <= u64::MAX,
            r is Ok ==> {
                &&& final(self).nodes@[target.0 as int].value.value == old(self).nodes@[
                    target.0 as int
                ].value.value + value
                &&& final(self).nodes@[target.0 as int].parent == old(self).nodes@[
                    target.0 as int
                ].parent
                &&& forall|j: int|
                    0 <= j < old(self).nodes@.len() && j != target.0 as int ==> final(self).nodes@[j] == old(self).nodes@[j]
                &&& final(self).pending@ == old(self).pending@
                &&& final(self).total() == old(self).total() + value
            },
            r is Err ==> *final(self) == *old(self) && r == Err::<(), NodeError>(
                NodeError::Overflow,
            ),
    {
        let i = self.index_of(target);
        let mut node = self.nodes[i];
        match node.submit(value) {
            Ok(()) => {
                proof {
                    lemma_sum_node_update(self.nodes@, i as int, node);
                }
                self.nodes.set(i, node);
                Ok(())
            },
            Err(e) => Err(e),
        }
    }

    /// Flushes the node addressed by `target`: exactly when a parent is
    /// configured, the node's accumulator is drained and exactly one message
    /// carrying the drained value — even a zero — joins the in-flight set, so
    /// the total is conserved. Without a parent nothing changes.
    pub fn flush(&mut self, target: NodeId) -> (r: Result<(), NodeError>)
        requires
            old(self).wf(),
            target.0 < old(self).nodes@.len(),
        ensures
            final(self).wf(),
            final(self).nodes@.len() == old(self).nodes@.len(),
            r is Ok <==> old(self).nodes@[target.0 as int].parent is Some,
            old(self).nodes@[target.0 as int].parent matches Some(parent) ==> {
                &&& final(self).nodes@[target.0 as int].value.value == 0
                &&& final(self).nodes@[target.0 as int].parent == Some(parent)
                &&& forall|j: int|
                    0 <= j < old(self).nodes@.len() && j != target.0 as int ==> final(self).nodes@[j] == old(self).nodes@[j]
                &&& final(self).pending@ == old(self).pending@.push(
                    Message {
                        destination: parent,
                        value: old(self).nodes@[target.0 as int].value.value,
                    },
                )
                &&& final(self).total() == old(self).total()
            },
            r is Err ==> *final(self) == *old(self) && r == Err::<(), NodeError>(
                NodeError::NoParent,
            ),
    {
        let i = self.index_of(target);
        let mut node = self.nodes[i];
        match node.flush() {
            Ok(message) => {
                proof {
                    lemma_sum_node_update(self.nodes@, i as int, node);
                    lemma_sum_message_push(self.pending@, message);
                }
                self.nodes.set(i, node);
                self.pending.push(message);
                Ok(())
            },
            Err(e) => Err(e),
        }
    }

    /// Delivers the pending message at position `index` to its destination.
    /// Exactly when the destination's accumulator can take the payload, the
    /// message leaves the in-flight set and is merged, conserving the total;
    /// an overflowing delivery is fatal for that delivery and changes nothing,
    /// the message staying in flight.
    pub fn deliver(&mut self, index: usize) -> (r: Result<(), NodeError>)
        requires
            old(self).wf(),
            index < old(self).pending@.len(),
        ensures
            final(self).wf(),
            final(self).nodes@.len() == old(self).nodes@.len(),
            r is Ok <==> old(self).nodes@[old(self).pending@[index as int].destination.0 as int]
                .value.value + old(self).pending@[index as int].value <= u64::MAX,
            r is Ok ==> {
                &&& final(self).pending@ == old(self).pending@.remove(index as int)
                &&& final(self).nodes@[old(self).pending@[index as int].destination.0 as int]
                    .value.value == old(self).nodes@[old(self).pending@[
                    index as int
                ].destination.0 as int].value.value + old(self).pending@[index as int].value
                &&& final(self).nodes@[old(self).pending@[index as int].destination.0 as int]
                    .parent == old(self).nodes@[old(self).pending@[
                    index as int
                ].destination.0 as int].parent
                &&& forall|j: int|
                    0 <= j < old(self).nodes@.len() && j != old(self).pending@[
                        index as int
                    ].destination.0 as int ==> final(self).nodes@[j] == old(self).nodes@[j]
                &&& final(self).total() == old(self).total()
            },
            r is Err ==> *final(self) == *old(self) && r == Err::<(), NodeError>(
                NodeError::InboundOverflow,
            ),
    {
        let message = self.pending[index];
        proof {
            assert(self.pending@[index as int].destination.0 < self.nodes@.len());
        }
        let d = self.index_of(message.destination);
        let mut node = self.nodes[d];
        match node.execute_message(message.value) {
            Ok(()) => {
                proof {
                    lemma_sum_node_update(self.nodes@, d as int, node);
                    lemma_sum_message_remove(self.pending@, index as int);
                }
                self.nodes.set(d, node);
                let _ = self.pending.remove(index);
                Ok(())
            },
            Err(e) => Err(e),
        }
    }

    /// How many messages are still in flight.
    pub fn pending_count(&self) -> (n: usize)
        ensures
            n == self.pending@.len(),
    {
        self.pending.len()
    }

    /// The current accumulator value of the node addressed by `id`.
    pub fn value_of(&self, id: NodeId) -> (v: u64)
        requires
            id.0 < self.nodes@.len(),
        ensures
            v == self.nodes@[id.0 as int].value.value,
    {
        let i = self.index_of(id);
        self.nodes[i].value.value
    }
}

/// Law (tree-wide sum): once nothing is left in flight and every node but one
/// — the root — has been drained to zero, the root's accumulator holds the
/// network's entire total. Together with the conservation clauses of
/// `add_node`, `connect`, `submit`, `flush` and `deliver` — each proved for a
/// single transition, hence for every interleaving of transitions — this says
/// the root ends up with the exact sum of every value ever accepted for
/// submission anywhere in the tree, independent of the order in which nodes
/// were processed or messages delivered.
pub proof fn lemma_root_holds_total(network: Network, root: int)
    requires
        0 <= root < network.nodes@.len(),
        network.pending@.len() == 0,
        forall|i: int|
            0 <= i < network.nodes@.len() && i != root ==> (#[trigger] network.nodes@[i])
                .value.value == 0,
    ensures
        network.nodes@[root].value.value == network.total(),
{
    lemma_sum_node_single(network.nodes@, root);
}

} // verus!

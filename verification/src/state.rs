//! The state of one node and its atomic transitions: the three client
//! operations and the inbound message handler.

use vstd::prelude::*;

use crate::accumulator::{Accumulator, add_all, add_step, all_accepted, sum};
use crate::accumulator::lemma_checked_additions_accumulate;
use crate::{Message, NodeError, NodeId, Operation};

verus! {

/// The whole persistent state of one node: an optional parent link and the
/// local accumulator. Each operation and each inbound message is applied to it
/// as a single atomic transition, with no partial effect on failure.
#[derive(Clone, Copy, Debug, PartialEq, Eq)]
pub struct DepinDemoState {
    /// Where flushed totals are sent; starts unset and is rebound freely by
    /// `ConnectToParent`. Nothing here prevents a link that closes a cycle:
    /// keeping the parent graph a forest is the topology manager's burden.
    pub parent: Option<NodeId>,
    /// The overflow-checked running total of submitted and merged values.
    pub value: Accumulator,
}

impl DepinDemoState {
    /// The state of a freshly created node: no parent, an empty accumulator.
    pub open spec fn initial() -> Self {
        DepinDemoState { parent: None, value: Accumulator { value: 0 } }
    }

    /// Creates a node in its initial state.
    pub fn new() -> (state: Self)
        ensures
            state == Self::initial(),
            state.parent is None,
            state.value.value == 0,
    {
        DepinDemoState { parent: None, value: Accumulator::new() }
    }

    /// Seeds the accumulator with an externally supplied initial value, as the
    /// single-node variant does at instantiation; the parent link is left as
    /// it was.
    pub fn instantiate(&mut self, argument: u64)
        ensures
            final(self).value.value == argument,
            final(self).parent == old(self).parent,
    {
        self.value = Accumulator { value: argument };
    }

    /// Unconditionally sets (or rebinds) the parent link; the accumulator is
    /// untouched and the operation always succeeds.
    pub fn connect_to_parent(&mut self, parent: NodeId)
        ensures
            final(self).parent == Some(parent),
            final(self).value == old(self).value,
    {
        self.parent = Some(parent);
    }

    /// Adds `value` to the accumulator. Rejected with `Overflow` — leaving the
    /// whole state untouched — exactly when the sum would pass `u64::MAX`.
    pub fn submit(&mut self, value: u64) -> (r: Result<(), NodeError>)
        ensures
            final(self).parent == old(self).parent,
            final(self).value.value == add_step(old(self).value.value, value),
            r is Ok <==> old(self).value.value + value <= u64::MAX,
            r is Err ==> *final(self) == *old(self) && r == Err::<(), NodeError>(
                NodeError::Overflow,
            ),
    {
        self.value.add(value)
    }

    /// Drains the accumulator and forwards the drained value — even a zero —
    /// as exactly one message addressed to the parent. Fails with `NoParent`,
    /// mutating nothing, exactly when no parent is configured; the caller is
    /// responsible for actually sending the returned message.
    pub fn flush(&mut self) -> (r: Result<Message, NodeError>)
        ensures
            old(self).parent matches Some(parent) ==> r == Ok::<Message, NodeError>(
                Message { destination: parent, value: old(self).value.value },
            ) && final(self).parent == old(self).parent && final(self).value.value == 0,
            old(self).parent is None ==> *final(self) == *old(self) && r == Err::<
                Message,
                NodeError,
            >(NodeError::NoParent),
    {
        match self.parent {
            Some(parent) => {
                let taken = self.value.take();
                Ok(Message { destination: parent, value: taken })
            },
            None => Err(NodeError::NoParent),
        }
    }

    /// Merges one inbound flushed value into the accumulator. An overflow here
    /// is `InboundOverflow`, fatal for the unit of work that delivered the
    /// message: the state is left untouched and the delivery must be
    /// considered failed, never clamped or dropped.
    pub fn execute_message(&mut self, message: u64) -> (r: Result<(), NodeError>)
        ensures
            final(self).parent == old(self).parent,
            final(self).value.value == add_step(old(self).value.value, message),
            r is Ok <==> old(self).value.value + message <= u64::MAX,
            r is Err ==> *final(self) == *old(self) && r == Err::<(), NodeError>(
                NodeError::InboundOverflow,
            ),
    {
        match self.value.add(message) {
            Ok(()) => Ok(()),
            Err(_) => Err(NodeError::InboundOverflow),
        }
    }

    /// Applies one client operation as a single atomic transition. A flush
    /// returns the one outbound message for the caller to send; the other
    /// operations return nothing.
    pub fn execute_operation(&mut self, operation: Operation) -> (r: Result<
        Option<Message>,
        NodeError,
    >)
        ensures
            operation matches Operation::ConnectToParent { parent } ==> r == Ok::<
                Option<Message>,
                NodeError,
            >(None) && final(self).parent == Some(parent) && final(self).value == old(self).value,
            operation matches Operation::Submit { value } ==> {
                &&& final(self).parent == old(self).parent
                &&& final(self).value.value == add_step(old(self).value.value, value)
                &&& old(self).value.value + value <= u64::MAX ==> r == Ok::<
                    Option<Message>,
                    NodeError,
                >(None)
                &&& old(self).value.value + value > u64::MAX ==> *final(self) == *old(self) && r
                    == Err::<Option<Message>, NodeError>(NodeError::Overflow)
            },
            operation is Flush ==> {
                &&& old(self).parent matches Some(parent) ==> r == Ok::<Option<Message>, NodeError>(
                    Some(Message { destination: parent, value: old(self).value.value }),
                ) && final(self).parent == old(self).parent && final(self).value.value == 0
                &&& old(self).parent is None ==> *final(self) == *old(self) && r == Err::<
                    Option<Message>,
                    NodeError,
                >(NodeError::NoParent)
            },
    {
        match operation {
            Operation::ConnectToParent { parent } => {
                self.connect_to_parent(parent);
                Ok(None)
            },
            Operation::Submit { value } => {
                match self.submit(value) {
                    Ok(()) => Ok(None),
                    Err(e) => Err(e),
                }
            },
            Operation::Flush => {
                match self.flush() {
                    Ok(message) => Ok(Some(message)),
                    Err(e) => Err(e),
                }
            },
        }
    }
}

/// Law: for any finite run of `Submit(v1), …, Submit(vn)` with no intervening
/// flush and `sum(vi) <= u64::MAX`, every submit is accepted and an
/// accumulator that started empty ends at exactly `sum(vi)`. The steps are the
/// very `add_step` that `submit` is proved to take.
pub proof fn lemma_submit_accumulation(values: Seq<u64>)
    requires
        sum(values) <= u64::MAX,
    ensures
        all_accepted(0, values),
        add_all(0, values) == sum(values),
{
    lemma_checked_additions_accumulate(0, values);
}

/// Law: for any finite run of inbound messages `m1, …, mn` with
/// `sum(mi) <= u64::MAX`, every delivery is merged and an accumulator that
/// started empty ends at exactly `sum(mi)`. The steps are the very `add_step`
/// that `execute_message` is proved to take.
pub proof fn lemma_message_accumulation(messages: Seq<u64>)
    requires
        sum(messages) <= u64::MAX,
    ensures
        all_accepted(0, messages),
        add_all(0, messages) == sum(messages),
{
    lemma_checked_additions_accumulate(0, messages);
}

} // verus!

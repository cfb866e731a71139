//! The accumulator: a single `u64` counter with overflow-checked addition and
//! an atomic take-and-reset, together with the spec-level model of repeated
//! checked additions.

use vstd::prelude::*;

use crate::NodeError;

verus! {

/// The running total of one node. The value is the sum of every amount merged
/// into it since the last take, and an addition that would wrap past
/// `u64::MAX` fails without mutating it.
#[derive(Clone, Copy, Debug, PartialEq, Eq, Structural)]
pub struct Accumulator {
    pub value: u64,
}

/// Sum of a sequence of values, as an unbounded integer.
pub open spec fn sum(values: Seq<u64>) -> int
    decreases values.len(),
{
    if values.len() == 0 {
        0
    } else {
        values[0] + sum(values.skip(1))
    }
}

/// One checked addition: the counter moves exactly when the sum still fits in
/// a `u64`, and stays where it was otherwise.
pub open spec fn add_step(value: u64, delta: u64) -> u64 {
    if value + delta <= u64::MAX {
        (value + delta) as u64
    } else {
        value
    }
}

/// Whether every addition in `deltas`, applied in order from `value`, fits in
/// a `u64` (that is, none of them is rejected).
pub open spec fn all_accepted(value: u64, deltas: Seq<u64>) -> bool
    decreases deltas.len(),
{
    deltas.len() == 0 || (value + deltas[0] <= u64::MAX && all_accepted(
        add_step(value, deltas[0]),
        deltas.skip(1),
    ))
}

/// The counter's value after every checked addition in `deltas`, in order.
pub open spec fn add_all(value: u64, deltas: Seq<u64>) -> u64
    decreases deltas.len(),
{
    if deltas.len() == 0 {
        value
    } else {
        add_all(add_step(value, deltas[0]), deltas.skip(1))
    }
}

impl Accumulator {
    /// A fresh accumulator holding zero.
    pub fn new() -> (acc: Self)
        ensures
            acc.value == 0,
    {
        Accumulator { value: 0 }
    }

    /// Checked addition, all-or-nothing: on success the value grows by exactly
    /// `delta`; on overflow the value is left untouched and the addition is
    /// rejected.
    pub fn add(&mut self, delta: u64) -> (r: Result<(), NodeError>)
        ensures
            final(self).value == add_step(old(self).value, delta),
            r is Ok <==> old(self).value + delta <= u64::MAX,
            r is Err ==> *final(self) == *old(self) && r == Err::<(), NodeError>(
                NodeError::Overflow,
            ),
    {
        if delta <= u64::MAX - self.value {
            self.value = self.value + delta;
            Ok(())
        } else {
            Err(NodeError::Overflow)
        }
    }

    /// Atomically reads the current value and resets it to zero in the same
    /// step, returning the pre-reset value.
    pub fn take(&mut self) -> (taken: u64)
        ensures
            taken == old(self).value,
            final(self).value == 0,
    {
        let taken = self.value;
        self.value = 0;
        taken
    }
}

/// A sum of `u64` values is never negative.
pub proof fn lemma_sum_nonneg(values: Seq<u64>)
    ensures
        sum(values) >= 0,
    decreases values.len(),
{
    if values.len() > 0 {
        lemma_sum_nonneg(values.skip(1));
    }
}

/// Appending one value grows the sum by exactly that value.
pub proof fn lemma_sum_push(values: Seq<u64>, value: u64)
    ensures
        sum(values.push(value)) == sum(values) + value,
    decreases values.len(),
{
    assert(values.push(value)[0] == if values.len() == 0 {
        value
    } else {
        values[0]
    });
    if values.len() == 0 {
        assert(values.push(value).skip(1) =~= Seq::<u64>::empty());
        assert(sum(Seq::<u64>::empty()) == 0);
    } else {
        assert(values.push(value).skip(1) =~= values.skip(1).push(value));
        lemma_sum_push(values.skip(1), value);
    }
}

/// Taking one more element grows the prefix sum by exactly that element.
pub proof fn lemma_sum_take_succ(values: Seq<u64>, i: int)
    requires
        0 <= i < values.len(),
    ensures
        sum(values.take(i + 1)) == sum(values.take(i)) + values[i],
{
    assert(values.take(i + 1) =~= values.take(i).push(values[i]));
    lemma_sum_push(values.take(i), values[i]);
}

/// Law: a run of checked additions whose total still fits in a `u64` rejects
/// nothing and accumulates to exactly the start value plus the sum.
pub proof fn lemma_checked_additions_accumulate(start: u64, deltas: Seq<u64>)
    requires
        start + sum(deltas) <= u64::MAX,
    ensures
        all_accepted(start, deltas),
        add_all(start, deltas) == start + sum(deltas),
    decreases deltas.len(),
{
    if deltas.len() > 0 {
        lemma_sum_nonneg(deltas.skip(1));
        lemma_checked_additions_accumulate(add_step(start, deltas[0]), deltas.skip(1));
    }
}

} // verus!

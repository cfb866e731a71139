//! The propagation driver: builds a two-level tree — one root, one branch per
//! row of a value grid, one edge node per value — and runs the whole protocol
//! to completion. Its contract is the tree-wide sum property itself: the root
//! ends up holding exactly the sum of every value in the grid.

use vstd::prelude::*;

use crate::accumulator::{lemma_sum_nonneg, lemma_sum_take_succ, sum};
use crate::network::{
    lemma_message_value_le_sum, lemma_node_value_le_sum, lemma_root_holds_total, Network,
};

verus! {

/// Sum of every value in a grid of rows, as an unbounded integer.
pub open spec fn sum_grid(grid: Seq<Vec<u64>>) -> int
    decreases grid.len(),
{
    if grid.len() == 0 {
        0
    } else {
        sum(grid[0]@) + sum_grid(grid.skip(1))
    }
}

proof fn lemma_sum_grid_push(grid: Seq<Vec<u64>>, row: Vec<u64>)
    ensures
        sum_grid(grid.push(row)) == sum_grid(grid) + sum(row@),
    decreases grid.len(),
{
    assert(grid.push(row)[0] == if grid.len() == 0 { row } else { grid[0] });
    if grid.len() == 0 {
        assert(grid.push(row).skip(1) =~= Seq::<Vec<u64>>::empty());
        assert(sum_grid(Seq::<Vec<u64>>::empty()) == 0);
    } else {
        assert(grid.push(row).skip(1) =~= grid.skip(1).push(row));
        lemma_sum_grid_push(grid.skip(1), row);
    }
}

proof fn lemma_sum_grid_take_succ(grid: Seq<Vec<u64>>, b: int)
    requires
        0 <= b < grid.len(),
    ensures
        sum_grid(grid.take(b + 1)) == sum_grid(grid.take(b)) + sum(grid[b]@),
{
    assert(grid.take(b + 1) =~= grid.take(b).push(grid[b]));
    lemma_sum_grid_push(grid.take(b), grid[b]);
}

proof fn lemma_sum_grid_take_le(grid: Seq<Vec<u64>>, b: int)
    requires
        0 <= b <= grid.len(),
    ensures
        sum_grid(grid.take(b)) <= sum_grid(grid),
    decreases grid.len() - b,
{
    if b == grid.len() {
        assert(grid.take(b) =~= grid);
    } else {
        lemma_sum_grid_take_succ(grid, b);
        lemma_sum_nonneg(grid[b]@);
        lemma_sum_grid_take_le(grid, b + 1);
    }
}

/// Delivers every in-flight message, oldest first. Callable whenever no
/// delivery can overflow — in particular whenever the whole total fits in a
/// `u64` — and conserves the total while leaving untouched every node that no
/// pending message addresses.
fn deliver_all(network: &mut Network)
    requires
        old(network).wf(),
        old(network).total() <= u64::MAX,
    ensures
        final(network).wf(),
        final(network).pending@.len() == 0,
        final(network).total() == old(network).total(),
        final(network).nodes@.len() == old(network).nodes@.len(),
        forall|j: int|
            0 <= j < old(network).nodes@.len() ==> (#[trigger] final(network).nodes@[j]).parent
                == old(network).nodes@[j].parent,
        forall|j: int|
            0 <= j < old(network).nodes@.len() && (forall|k: int|
                0 <= k < old(network).pending@.len() ==> (#[trigger] old(
                    network,
                ).pending@[k]).destination.0 != j) ==> final(network).nodes@[j] == old(
                network,
            ).nodes@[j],
{
    let ghost start = *network;
    while network.pending_count() > 0
        invariant
            network.wf(),
            network.total() == start.total(),
            network.total() <= u64::MAX,
            network.nodes@.len() == start.nodes@.len(),
            forall|j: int|
                0 <= j < start.nodes@.len() ==> (#[trigger] network.nodes@[j]).parent
                    == start.nodes@[j].parent,
            forall|k: int|
                0 <= k < network.pending@.len() ==> exists|k0: int|
                    0 <= k0 < start.pending@.len() && (#[trigger] network.pending@[k])
                        == start.pending@[k0],
            forall|j: int|
                0 <= j < start.nodes@.len() && (forall|k0: int|
                    0 <= k0 < start.pending@.len() ==> (#[trigger] start.pending@[k0])
                        .destination.0 != j) ==> (#[trigger] network.nodes@[j])
                    == start.nodes@[j],
        decreases network.pending@.len(),
    {
        proof {
            lemma_node_value_le_sum(network.nodes@, network.pending@[0].destination.0 as int);
            lemma_message_value_le_sum(network.pending@, 0);
        }
        let ghost before = *network;
        let delivered = network.deliver(0);
        proof {
            assert(delivered is Ok);
            assert(before.pending@.remove(0) =~= before.pending@.skip(1));
        }
    }
}

/// Runs the headline two-level scenario for any grid of values whose total
/// fits in a `u64`: a root is created, one branch node per row is connected to
/// it, and one edge node per value is connected to its row's branch. Every
/// edge node submits its value and flushes; each branch, once every message so
/// far has been delivered, flushes in turn; and after the final deliveries the
/// root's accumulator holds exactly the sum of every value in the grid —
/// whatever distinct values the grid holds and however the work is sliced into
/// rows.
pub fn propagate_two_level(branch_values: &Vec<Vec<u64>>) -> (root_value: u64)
    requires
        sum_grid(branch_values@) <= u64::MAX,
    ensures
        root_value == sum_grid(branch_values@),
{
    let mut network = Network::new();
    let root = network.add_node();
    let mut b: usize = 0;
    while b < branch_values.len()
        invariant
            sum_grid(branch_values@) <= u64::MAX,
            b <= branch_values@.len(),
            network.wf(),
            network.nodes@.len() >= 1,
            root.0 == 0,
            forall|i: int|
                1 <= i < network.nodes@.len() ==> (#[trigger] network.nodes@[i]).value.value == 0,
            forall|k: int|
                0 <= k < network.pending@.len() ==> (#[trigger] network.pending@[k]).destination.0
                    == 0,
            network.total() == sum_grid(branch_values@.take(b as int)),
        decreases branch_values@.len() - b,
    {
        let branch = network.add_node();
        network.connect(branch, root);
        let row = &branch_values[b];
        let mut e: usize = 0;
        while e < row.len()
            invariant
                sum_grid(branch_values@) <= u64::MAX,
                b < branch_values@.len(),
                row == branch_values@[b as int],
                e <= row@.len(),
                network.wf(),
                root.0 == 0,
                1 <= branch.0 < network.nodes@.len(),
                network.nodes@[branch.0 as int].parent == Some(root),
                forall|i: int|
                    1 <= i < network.nodes@.len() ==> (#[trigger] network.nodes@[i]).value.value
                        == 0,
                forall|k: int|
                    0 <= k < network.pending@.len() ==> (#[trigger] network.pending@[k])
                        .destination.0 == 0 || (#[trigger] network.pending@[k]).destination.0
                        == branch.0,
                network.total() == sum_grid(branch_values@.take(b as int)) + sum(
                    row@.take(e as int),
                ),
            decreases row@.len() - e,
        {
            let edge = network.add_node();
            network.connect(edge, branch);
            let submitted = network.submit(edge, row[e]);
            proof {
                assert(submitted is Ok);
            }
            let flushed = network.flush(edge);
            proof {
                assert(flushed is Ok);
                lemma_sum_take_succ(row@, e as int);
            }
            e += 1;
        }
        proof {
            assert(row@.take(row@.len() as int) =~= row@);
            lemma_sum_grid_take_succ(branch_values@, b as int);
            lemma_sum_grid_take_le(branch_values@, b as int + 1);
        }
        deliver_all(&mut network);
        let flushed = network.flush(branch);
        proof {
            assert(flushed is Ok);
        }
        b += 1;
    }
    proof {
        assert(branch_values@.take(branch_values@.len() as int) =~= branch_values@);
    }
    deliver_all(&mut network);
    proof {
        lemma_root_holds_total(network, 0);
    }
    network.value_of(root)
}

} // verus!

use depin_demo::network::Network;
use depin_demo::propagate::propagate_two_level;
use depin_demo::NodeError;

/// Drains the in-flight messages one by one, front first.
fn deliver_all(network: &mut Network) {
    while network.pending_count() > 0 {
        network
            .deliver(0)
            .expect("Delivering these values should never overflow");
    }
}

/// The headline scenario: values produced at many edge nodes propagate through
/// their branches to the root, whose final value is the sum of every value
/// submitted anywhere in the tree.
#[test]
fn propagation_test() {
    const BRANCH_CHAINS: u64 = 5;
    const EDGE_CHAINS_PER_BRANCH: u64 = 10;

    let mut network = Network::new();
    let root = network.add_node();

    for branch_index in 0..BRANCH_CHAINS {
        let branch = network.add_node();
        network.connect(branch, root);

        for edge_index in 0..EDGE_CHAINS_PER_BRANCH {
            let edge = network.add_node();
            network.connect(edge, branch);

            network
                .submit(edge, EDGE_CHAINS_PER_BRANCH * branch_index + edge_index)
                .expect("Submitting a value that fits should succeed");
            network
                .flush(edge)
                .expect("Flushing with a parent configured should succeed");
        }

        deliver_all(&mut network);
        network
            .flush(branch)
            .expect("Flushing with a parent configured should succeed");
    }

    deliver_all(&mut network);

    let final_value = network.value_of(root);

    assert_eq!(
        final_value,
        (0..(EDGE_CHAINS_PER_BRANCH * BRANCH_CHAINS)).sum::<u64>()
    );
}

/// The same tree, with every flush emitted first and the messages then
/// delivered back to front: the root still ends at the same sum.
#[test]
fn propagation_is_order_independent() {
    const BRANCHES: u64 = 3;
    const EDGES_PER_BRANCH: u64 = 4;

    let mut network = Network::new();
    let root = network.add_node();
    let mut branches = Vec::new();
    let mut edges = Vec::new();

    for branch_index in 0..BRANCHES {
        let branch = network.add_node();
        network.connect(branch, root);

        for edge_index in 0..EDGES_PER_BRANCH {
            let edge = network.add_node();
            network.connect(edge, branch);
            network
                .submit(edge, 1 + EDGES_PER_BRANCH * branch_index + edge_index)
                .expect("Submitting a value that fits should succeed");
            edges.push(edge);
        }

        branches.push(branch);
    }

    // Flush every edge before any message moves.
    for &edge in &edges {
        network
            .flush(edge)
            .expect("Flushing with a parent configured should succeed");
    }

    // Deliver the edge messages to the branches, last emitted first.
    while network.pending_count() > 0 {
        let last = network.pending_count() - 1;
        network
            .deliver(last)
            .expect("Delivering these values should never overflow");
    }

    for &branch in &branches {
        network
            .flush(branch)
            .expect("Flushing with a parent configured should succeed");
    }

    while network.pending_count() > 0 {
        let last = network.pending_count() - 1;
        network
            .deliver(last)
            .expect("Delivering these values should never overflow");
    }

    let total: u64 = (1..=(BRANCHES * EDGES_PER_BRANCH)).sum();
    assert_eq!(network.value_of(root), total);
}

/// The verified driver runs the whole two-level scenario and leaves the grid's
/// sum at the root.
#[test]
fn driver_propagates_grid_sum() {
    let grid: Vec<Vec<u64>> = (0..5u64)
        .map(|branch| (0..10u64).map(|edge| 10 * branch + edge).collect())
        .collect();

    assert_eq!(propagate_two_level(&grid), (0..50u64).sum::<u64>());
}

/// The driver copes with an empty grid and with ragged rows, including empty
/// ones.
#[test]
fn driver_handles_empty_and_ragged_grids() {
    assert_eq!(propagate_two_level(&Vec::new()), 0);
    assert_eq!(
        propagate_two_level(&vec![vec![], vec![7], vec![1, 2, 3]]),
        13
    );
}

/// A flush with nothing accumulated still emits a message, carrying a zero.
#[test]
fn flush_of_empty_accumulator_emits_zero() {
    let mut network = Network::new();
    let root = network.add_node();
    let child = network.add_node();
    network.connect(child, root);

    network
        .flush(child)
        .expect("Flushing with a parent configured should succeed");
    network
        .flush(child)
        .expect("A repeated flush still succeeds");

    assert_eq!(network.pending_count(), 2);

    deliver_all(&mut network);

    assert_eq!(network.value_of(root), 0);
    assert_eq!(network.pending_count(), 0);
}

/// A delivery that would overflow the destination fails and the message stays
/// in flight; the destination is untouched.
#[test]
fn overflowing_delivery_stays_pending() {
    let mut network = Network::new();
    let root = network.add_node();
    let child = network.add_node();
    network.connect(child, root);

    network
        .submit(root, u64::MAX)
        .expect("The first submit fits exactly");
    network
        .submit(child, 1)
        .expect("Submitting a value that fits should succeed");
    network
        .flush(child)
        .expect("Flushing with a parent configured should succeed");

    let rejected = network.deliver(0);

    assert_eq!(rejected, Err(NodeError::InboundOverflow));
    assert_eq!(network.pending_count(), 1);
    assert_eq!(network.value_of(root), u64::MAX);
    assert_eq!(network.value_of(child), 0);
}

/// A submit at a node of the network is rejected on overflow, leaving the
/// whole network untouched.
#[test]
fn network_submit_overflow_is_rejected() {
    let mut network = Network::new();
    let node = network.add_node();

    network
        .submit(node, u64::MAX)
        .expect("The first submit fits exactly");
    let rejected = network.submit(node, 1);

    assert_eq!(rejected, Err(NodeError::Overflow));
    assert_eq!(network.value_of(node), u64::MAX);
    assert_eq!(network.pending_count(), 0);
}

/// A flush at a node without a parent is rejected by the network as well.
#[test]
fn network_flush_without_parent_is_rejected() {
    let mut network = Network::new();
    let node = network.add_node();

    network
        .submit(node, 8)
        .expect("Submitting a value that fits should succeed");
    let rejected = network.flush(node);

    assert_eq!(rejected, Err(NodeError::NoParent));
    assert_eq!(network.value_of(node), 8);
    assert_eq!(network.pending_count(), 0);
}

use conn_dispatch::registry::Registry;

#[test]
fn new_registry_is_empty() {
    let r = Registry::new();
    assert_eq!(r.len(), 0);
    assert!(!r.contains(7));
}

#[test]
fn join_registers_membership() {
    let mut r = Registry::new();
    r.join(1);
    r.join(2);
    assert_eq!(r.len(), 2);
    assert!(r.contains(1));
    assert!(r.contains(2));
    assert!(!r.contains(3));
    assert_eq!(r.peers, vec![1, 2]);
}

#[test]
fn join_then_leave_restores_membership() {
    let mut r = Registry::new();
    r.join(10);
    r.join(20);
    let before = r.peers.clone();
    r.join(30);
    r.leave(30);
    assert_eq!(r.peers, before);
    assert!(!r.contains(30));
}

#[test]
fn leave_removes_every_entry_of_the_address() {
    let mut r = Registry::new();
    r.join(1);
    r.join(2);
    r.join(3);
    r.leave(2);
    assert_eq!(r.peers, vec![1, 3]);
}

#[test]
fn leave_clears_duplicate_entries_of_the_address() {
    let mut r = Registry { peers: vec![1, 2, 1] };
    r.leave(1);
    assert_eq!(r.peers, vec![2]);
}

#[test]
fn rejoining_an_existing_address_then_leaving_clears_both() {
    // The join/leave round trip restores the previous state only for a
    // fresh address: leave removes every entry of the address, including
    // one that was registered before the join.
    let mut r = Registry::new();
    r.join(5);
    r.join(5);
    r.leave(5);
    assert!(r.peers.is_empty());
}

#[test]
fn leave_of_absent_address_changes_nothing() {
    let mut r = Registry::new();
    r.join(1);
    r.leave(9);
    assert_eq!(r.peers, vec![1]);
}

#[test]
fn broadcast_targets_every_other_peer_verbatim() {
    // Two peers A and B; A sends a text payload: B is the only target and
    // gets the payload unchanged, A is not among the targets.
    let mut r = Registry::new();
    let a = 1u64;
    let b = 2u64;
    r.join(a);
    r.join(b);
    let payload = b"hello room".to_vec();
    let plan = r.plan_broadcast(a, payload.clone());
    assert_eq!(plan.payload, payload);
    assert_eq!(plan.targets, vec![(1usize, b)]);
}

#[test]
fn broadcast_preserves_registry_order() {
    let mut r = Registry::new();
    r.join(5);
    r.join(6);
    r.join(7);
    let plan = r.plan_broadcast(6, vec![0]);
    assert_eq!(plan.targets, vec![(0usize, 5u64), (2usize, 7u64)]);
}

#[test]
fn one_send_failure_prunes_exactly_that_peer() {
    // Three registered peers, one delivery failure during a pass: the
    // registry afterwards holds exactly two, the failed one gone.
    let mut r = Registry::new();
    r.join(1);
    r.join(2);
    r.join(3);
    let plan = r.plan_broadcast(1, vec![42]);
    assert_eq!(plan.targets, vec![(1usize, 2u64), (2usize, 3u64)]);
    // Delivery to peer 2 fails; its registry index is 1.
    r.remove_failed(&vec![1]);
    assert_eq!(r.peers, vec![1, 3]);
}

#[test]
fn failed_peer_is_never_targeted_again() {
    // Peers A and B; B's send fails during A's broadcast. The next
    // broadcast from A reaches no one: only A is left, and A is excluded
    // from its own fan-out.
    let mut r = Registry::new();
    let a = 1u64;
    let b = 2u64;
    r.join(a);
    r.join(b);
    let plan = r.plan_broadcast(a, b"first".to_vec());
    assert_eq!(plan.targets, vec![(1usize, b)]);
    r.remove_failed(&vec![1]);
    assert_eq!(r.peers, vec![a]);
    let next = r.plan_broadcast(a, b"second".to_vec());
    assert!(next.targets.is_empty());
}

#[test]
fn remove_failed_handles_several_failures_back_to_front() {
    let mut r = Registry::new();
    for addr in [1u64, 2, 3, 4, 5] {
        r.join(addr);
    }
    // Deliveries to indices 1, 2 and 4 failed.
    r.remove_failed(&vec![1, 2, 4]);
    assert_eq!(r.peers, vec![1, 4]);
}

#[test]
fn remove_failed_with_no_failures_changes_nothing() {
    let mut r = Registry::new();
    r.join(8);
    r.join(9);
    r.remove_failed(&Vec::new());
    assert_eq!(r.peers, vec![8, 9]);
}

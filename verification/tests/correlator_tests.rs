use worker_rpc::correlator::PendingTable;

#[test]
fn register_assigns_monotonic_ids() {
    let mut t: PendingTable<&'static str> = PendingTable::new();
    let a = t.register(100, "first");
    let b = t.register(200, "second");
    let c = t.register(300, "third");
    assert_eq!(a, 1);
    assert_eq!(b, 2);
    assert_eq!(c, 3);
    assert_eq!(t.len(), 3);
}

#[test]
fn reply_reaches_matching_waiter() {
    let mut t: PendingTable<&'static str> = PendingTable::new();
    let a = t.register(100, "alice");
    let b = t.register(100, "bob");
    let got = t.take(b).expect("entry for b");
    assert_eq!(got.waiter, "bob");
    assert_eq!(got.id, b);
    let got = t.take(a).expect("entry for a");
    assert_eq!(got.waiter, "alice");
    assert_eq!(t.len(), 0);
}

#[test]
fn replies_out_of_order_still_correlate() {
    let mut t: PendingTable<String> = PendingTable::new();
    let ids: Vec<u64> = (0..5).map(|i| t.register(50, format!("caller-{}", i))).collect();
    for (i, id) in ids.iter().enumerate().rev() {
        let got = t.take(*id).expect("pending entry");
        assert_eq!(got.waiter, format!("caller-{}", i));
    }
    assert_eq!(t.len(), 0);
}

#[test]
fn take_is_idempotent_under_timeout_reply_race() {
    let mut t: PendingTable<&'static str> = PendingTable::new();
    let id = t.register(100, "w");
    assert!(t.take(id).is_some());
    assert!(t.take(id).is_none());
    assert!(t.take(9999).is_none());
    assert_eq!(t.len(), 0);
}

#[test]
fn timeout_sweep_removes_expired_entries() {
    let mut t: PendingTable<&'static str> = PendingTable::new();
    let early = t.register(200, "early");
    let late = t.register(900, "late");
    let expired = t.take_expired(100);
    assert!(expired.is_empty());
    assert_eq!(t.len(), 2);
    let expired = t.take_expired(200);
    assert_eq!(expired.len(), 1);
    assert_eq!(expired[0].id, early);
    assert_eq!(expired[0].waiter, "early");
    assert_eq!(t.len(), 1);
    assert!(t.take(late).is_some());
}

#[test]
fn repeated_timeouts_return_to_baseline() {
    let mut t: PendingTable<u32> = PendingTable::new();
    for round in 0..4u64 {
        for k in 0..8u32 {
            t.register(round * 10 + 5, k);
        }
        let expired = t.take_expired(round * 10 + 5);
        assert_eq!(expired.len(), 8);
        assert_eq!(t.len(), 0);
    }
}

#[test]
fn disconnect_drains_all_waiters() {
    let mut t: PendingTable<String> = PendingTable::new();
    let ids: Vec<u64> = (0..6).map(|i| t.register(1000, format!("w{}", i))).collect();
    let drained = t.reject_pending_requests();
    assert_eq!(drained.len(), 6);
    for (i, e) in drained.iter().enumerate() {
        assert_eq!(e.id, ids[i]);
        assert_eq!(e.waiter, format!("w{}", i));
    }
    assert_eq!(t.len(), 0);
    assert!(t.take(ids[0]).is_none());
}

#[test]
fn ids_are_not_reused_after_removal() {
    let mut t: PendingTable<&'static str> = PendingTable::new();
    let a = t.register(10, "a");
    t.take(a);
    let b = t.register(10, "b");
    assert!(b > a);
}

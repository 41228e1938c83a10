use worker_rpc::token_table::TokenTable;

#[test]
fn token_replies_reach_their_waiter() {
    let mut t: TokenTable<&'static str> = TokenTable::new();
    assert!(t.register("req-a", "alice").is_none());
    assert!(t.register("req-b", "bob").is_none());
    assert_eq!(t.take("req-b"), Some("bob"));
    assert_eq!(t.take("req-a"), Some("alice"));
    assert_eq!(t.len(), 0);
}

#[test]
fn token_take_is_idempotent() {
    let mut t: TokenTable<&'static str> = TokenTable::new();
    t.register("r", "w");
    assert_eq!(t.take("r"), Some("w"));
    assert_eq!(t.take("r"), None);
    assert_eq!(t.take("never-registered"), None);
}

#[test]
fn re_registering_a_token_replaces_the_waiter() {
    let mut t: TokenTable<&'static str> = TokenTable::new();
    assert!(t.register("r", "stale").is_none());
    assert_eq!(t.register("r", "fresh"), Some("stale"));
    assert_eq!(t.len(), 1);
    assert_eq!(t.take("r"), Some("fresh"));
}

#[test]
fn token_disconnect_drains_everything() {
    let mut t: TokenTable<String> = TokenTable::new();
    for i in 0..4 {
        t.register(&format!("req-{}", i), format!("waiter-{}", i));
    }
    let drained = t.reject_pending_requests();
    assert_eq!(drained.len(), 4);
    for (i, e) in drained.iter().enumerate() {
        assert_eq!(e.token, format!("req-{}", i));
        assert_eq!(e.waiter, format!("waiter-{}", i));
    }
    assert_eq!(t.len(), 0);
}

use rust_tcp_bench::peers::PeerTable;
use rust_tcp_bench::peers::SERVER_TOKEN;

#[test]
fn tokens_start_at_one_and_grow() {
    let mut t: PeerTable<&str> = PeerTable::new();
    assert_eq!(t.next_token(), 1);
    assert_eq!(t.register("a"), 1);
    assert_eq!(t.register("b"), 2);
    assert_eq!(t.register("c"), 3);
    assert_eq!(t.next_token(), 4);
    assert_eq!(t.len(), 3);
    assert_ne!(SERVER_TOKEN, 1);
}

#[test]
fn removed_tokens_are_not_reused() {
    let mut t: PeerTable<u32> = PeerTable::new();
    let a = t.register(10);
    assert_eq!(t.take(a), Some(10));
    assert_eq!(t.take(a), None);
    let b = t.register(20);
    assert_ne!(a, b);
    assert_eq!(b, 2);
    assert_eq!(t.len(), 1);
}

#[test]
fn take_then_restore_keeps_the_peer() {
    let mut t: PeerTable<String> = PeerTable::new();
    let a = t.register("x".to_string());
    let p = t.take(a).unwrap();
    assert_eq!(t.len(), 0);
    assert!(t.was_issued(a));
    t.restore(a, p);
    assert_eq!(t.len(), 1);
    assert_eq!(t.take(a), Some("x".to_string()));
}

#[test]
fn issued_tokens() {
    let mut t: PeerTable<u8> = PeerTable::new();
    assert!(!t.was_issued(0));
    assert!(!t.was_issued(1));
    t.register(0);
    assert!(t.was_issued(1));
    assert!(!t.was_issued(SERVER_TOKEN));
    assert!(!t.was_issued(2));
    assert_eq!(t.take(SERVER_TOKEN), None);
}

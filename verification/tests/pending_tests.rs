use pingbench::pending::PendingTable;

#[test]
fn record_then_take_returns_timestamp() {
    let mut t = PendingTable::new();
    t.record(5, 1000);
    assert_eq!(t.take(5), Some(1000));
    assert!(t.is_empty());
}

#[test]
fn take_absent_is_none() {
    let mut t = PendingTable::new();
    assert_eq!(t.take(7), None);
    t.record(1, 10);
    assert_eq!(t.take(2), None);
    assert_eq!(t.len(), 1);
}

#[test]
fn take_twice_fails_the_second_time() {
    let mut t = PendingTable::new();
    t.record(9, 77);
    assert_eq!(t.take(9), Some(77));
    assert_eq!(t.take(9), None);
}

#[test]
fn correlation_in_order() {
    let mut t = PendingTable::new();
    for i in 0..100u64 {
        t.record(i, 1000 + i);
    }
    assert_eq!(t.len(), 100);
    for i in 0..100u64 {
        assert_eq!(t.take(i), Some(1000 + i));
    }
    assert!(t.is_empty());
}

#[test]
fn correlation_out_of_order() {
    let mut t = PendingTable::new();
    for i in 0..10u64 {
        t.record(i, 500 + i);
    }
    for i in (0..10u64).rev() {
        assert_eq!(t.take(i), Some(500 + i));
    }
    assert!(t.is_empty());
}

#[test]
fn contains_tracks_in_flight_entries() {
    let mut t = PendingTable::new();
    assert!(!t.contains(3));
    t.record(3, 42);
    assert!(t.contains(3));
    t.take(3);
    assert!(!t.contains(3));
}

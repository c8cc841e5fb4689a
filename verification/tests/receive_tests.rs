use pingbench::receive::ExactReceiver;

#[test]
fn partial_datagrams_assemble_in_order() {
    let mut rx = ExactReceiver::new(16);
    assert!(!rx.is_complete());
    assert_eq!(rx.missing(), 16);

    let first: Vec<u8> = (0u8..10).collect();
    rx.absorb(&first);
    assert!(!rx.is_complete());
    assert_eq!(rx.missing(), 6);

    let second: Vec<u8> = (10u8..16).collect();
    rx.absorb(&second);
    assert!(rx.is_complete());
    assert_eq!(rx.missing(), 0);

    let payload = rx.into_payload();
    let expected: Vec<u8> = (0u8..16).collect();
    assert_eq!(payload, expected);
}

#[test]
fn single_full_read_completes_at_once() {
    let mut rx = ExactReceiver::new(4);
    rx.absorb(&[7u8, 8, 9, 10]);
    assert!(rx.is_complete());
    assert_eq!(rx.into_payload(), vec![7u8, 8, 9, 10]);
}

#[test]
fn empty_read_changes_nothing() {
    let mut rx = ExactReceiver::new(3);
    rx.absorb(&[]);
    assert!(!rx.is_complete());
    assert_eq!(rx.missing(), 3);
    rx.absorb(&[1u8]);
    rx.absorb(&[2u8, 3]);
    assert_eq!(rx.into_payload(), vec![1u8, 2, 3]);
}

#[test]
fn byte_by_byte_assembly() {
    let mut rx = ExactReceiver::new(8);
    for b in 0u8..8 {
        assert!(!rx.is_complete());
        rx.absorb(&[b]);
    }
    assert!(rx.is_complete());
    assert_eq!(rx.into_payload(), (0u8..8).collect::<Vec<u8>>());
}

#[test]
fn zero_length_message_is_complete_immediately() {
    let rx = ExactReceiver::new(0);
    assert!(rx.is_complete());
    assert_eq!(rx.into_payload(), Vec::<u8>::new());
}

use stop_and_wait::packet::{Packet, ProtocolError};
use stop_and_wait::sender::SAWSender;

/// Acknowledges units until the sender's current unit is `seq`.
fn sender_at(seq: u32, max_seq: u32, max_attempts: u32) -> SAWSender {
    let mut tx = SAWSender::new(max_seq, max_attempts);
    for unit in 0..seq {
        assert_eq!(tx.start_seq(), Packet::Data { seq: unit });
        assert_eq!(tx.on_ack(&Packet::Ack { seq: unit }), Ok(()));
    }
    tx
}

#[test]
fn session_without_units_is_done_at_once() {
    assert!(SAWSender::new(0, 3).done());
    assert!(SAWSender::new(0, 0).done());
}

#[test]
fn session_with_units_is_not_done_at_first() {
    assert!(!SAWSender::new(1, 3).done());
    assert!(!SAWSender::new(u32::MAX, 1).done());
}

#[test]
fn start_seq_hands_out_the_current_unit() {
    let mut tx = SAWSender::new(5, 3);
    assert_eq!(tx.start_seq(), Packet::Data { seq: 0 });
    let mut later = sender_at(4, 5, 3);
    assert_eq!(later.start_seq(), Packet::Data { seq: 4 });
}

#[test]
fn start_seq_again_restarts_the_attempts() {
    let mut tx = SAWSender::new(5, 2);
    tx.start_seq();
    assert_eq!(tx.on_timeout(), Ok(Packet::Data { seq: 0 }));
    assert_eq!(tx.on_timeout(), Err(ProtocolError::RetriesExhausted { seq: 0 }));
    assert_eq!(tx.start_seq(), Packet::Data { seq: 0 });
    assert_eq!(tx.on_timeout(), Ok(Packet::Data { seq: 0 }));
    assert_eq!(tx.on_timeout(), Err(ProtocolError::RetriesExhausted { seq: 0 }));
}

#[test]
fn timeout_repeats_the_same_unit() {
    let mut tx = sender_at(2, 5, 4);
    assert_eq!(tx.start_seq(), Packet::Data { seq: 2 });
    assert_eq!(tx.on_timeout(), Ok(Packet::Data { seq: 2 }));
    assert_eq!(tx.on_timeout(), Ok(Packet::Data { seq: 2 }));
    assert!(!tx.done());
}

/// Counts the calls of `on_timeout` up to and including the first that fails.
fn timeouts_until_failure(max_attempts: u32) -> u32 {
    let mut tx = SAWSender::new(3, max_attempts);
    tx.start_seq();
    let mut calls = 0;
    loop {
        calls += 1;
        match tx.on_timeout() {
            Ok(packet) => assert_eq!(packet, Packet::Data { seq: 0 }),
            Err(error) => {
                assert_eq!(error, ProtocolError::RetriesExhausted { seq: 0 });
                return calls;
            }
        }
    }
}

#[test]
fn retries_are_exhausted_after_exactly_the_budget() {
    assert_eq!(timeouts_until_failure(1), 1);
    assert_eq!(timeouts_until_failure(2), 2);
    assert_eq!(timeouts_until_failure(3), 3);
    assert_eq!(timeouts_until_failure(7), 7);
}

#[test]
fn budget_of_three_allows_two_repeats() {
    let mut tx = SAWSender::new(1, 3);
    assert_eq!(tx.start_seq(), Packet::Data { seq: 0 });
    assert_eq!(tx.on_timeout(), Ok(Packet::Data { seq: 0 }));
    assert_eq!(tx.on_timeout(), Ok(Packet::Data { seq: 0 }));
    assert_eq!(tx.on_timeout(), Err(ProtocolError::RetriesExhausted { seq: 0 }));
}

#[test]
fn budget_of_zero_fails_on_the_first_timeout() {
    assert_eq!(timeouts_until_failure(0), 1);
}

#[test]
fn exhausted_sender_keeps_failing() {
    let mut tx = sender_at(1, 3, 1);
    tx.start_seq();
    for _ in 0..4 {
        assert_eq!(tx.on_timeout(), Err(ProtocolError::RetriesExhausted { seq: 1 }));
    }
    assert!(!tx.done());
}

#[test]
fn timeout_before_any_start_counts_as_first_send() {
    let mut tx = SAWSender::new(2, 2);
    assert_eq!(tx.on_timeout(), Ok(Packet::Data { seq: 0 }));
    assert_eq!(tx.on_timeout(), Ok(Packet::Data { seq: 0 }));
    assert_eq!(tx.on_timeout(), Err(ProtocolError::RetriesExhausted { seq: 0 }));
}

#[test]
fn matching_ack_moves_to_the_next_unit() {
    let mut tx = SAWSender::new(3, 2);
    assert_eq!(tx.start_seq(), Packet::Data { seq: 0 });
    assert_eq!(tx.on_ack(&Packet::Ack { seq: 0 }), Ok(()));
    assert!(!tx.done());
    assert_eq!(tx.start_seq(), Packet::Data { seq: 1 });
}

#[test]
fn matching_ack_restores_the_whole_budget() {
    let mut tx = SAWSender::new(3, 2);
    tx.start_seq();
    assert_eq!(tx.on_timeout(), Ok(Packet::Data { seq: 0 }));
    assert_eq!(tx.on_ack(&Packet::Ack { seq: 0 }), Ok(()));
    assert_eq!(tx, sender_at(1, 3, 2));
    tx.start_seq();
    assert_eq!(tx.on_timeout(), Ok(Packet::Data { seq: 1 }));
    assert_eq!(tx.on_timeout(), Err(ProtocolError::RetriesExhausted { seq: 1 }));
}

#[test]
fn sender_is_done_after_the_last_ack() {
    let mut tx = SAWSender::new(2, 1);
    tx.start_seq();
    assert_eq!(tx.on_ack(&Packet::Ack { seq: 0 }), Ok(()));
    assert!(!tx.done());
    tx.start_seq();
    assert_eq!(tx.on_ack(&Packet::Ack { seq: 1 }), Ok(()));
    assert!(tx.done());
}

#[test]
fn premature_ack_is_rejected_and_changes_nothing() {
    let mut tx = sender_at(2, 5, 3);
    tx.start_seq();
    let mut twin = sender_at(2, 5, 3);
    twin.start_seq();
    assert_eq!(
        tx.on_ack(&Packet::Ack { seq: 3 }),
        Err(ProtocolError::SequenceMismatch { expected: 2, got: 3 })
    );
    assert_eq!(tx, twin);
    assert_eq!(tx.on_ack(&Packet::Ack { seq: 2 }), Ok(()));
}

#[test]
fn stale_ack_is_rejected_and_changes_nothing() {
    let mut tx = sender_at(2, 5, 3);
    tx.start_seq();
    assert_eq!(tx.on_timeout(), Ok(Packet::Data { seq: 2 }));
    let mut twin = sender_at(2, 5, 3);
    twin.start_seq();
    assert_eq!(twin.on_timeout(), Ok(Packet::Data { seq: 2 }));
    assert_eq!(
        tx.on_ack(&Packet::Ack { seq: 1 }),
        Err(ProtocolError::SequenceMismatch { expected: 2, got: 1 })
    );
    assert_eq!(tx, twin);
    assert_eq!(tx.on_timeout(), Ok(Packet::Data { seq: 2 }));
    assert_eq!(tx.on_timeout(), Err(ProtocolError::RetriesExhausted { seq: 2 }));
}

#[test]
fn far_off_ack_is_rejected() {
    let mut tx = SAWSender::new(5, 3);
    tx.start_seq();
    assert_eq!(
        tx.on_ack(&Packet::Ack { seq: u32::MAX }),
        Err(ProtocolError::SequenceMismatch { expected: 0, got: u32::MAX })
    );
    assert_eq!(tx.on_ack(&Packet::Ack { seq: 0 }), Ok(()));
}

#[test]
fn stale_ack_is_rejected_by_a_finished_sender() {
    let mut tx = sender_at(2, 2, 3);
    assert!(tx.done());
    assert_eq!(
        tx.on_ack(&Packet::Ack { seq: 1 }),
        Err(ProtocolError::SequenceMismatch { expected: 2, got: 1 })
    );
    assert!(tx.done());
    assert_eq!(tx, sender_at(2, 2, 3));
}

#[test]
fn data_packet_is_no_acknowledgment() {
    let mut tx = SAWSender::new(5, 3);
    tx.start_seq();
    let mut twin = SAWSender::new(5, 3);
    twin.start_seq();
    assert_eq!(tx.on_ack(&Packet::Data { seq: 0 }), Err(ProtocolError::UnexpectedPacketKind));
    assert_eq!(tx, twin);
    assert_eq!(tx.on_ack(&Packet::Ack { seq: 0 }), Ok(()));
}

#[test]
fn packets_compare_by_kind_and_number() {
    assert_eq!(Packet::Data { seq: 4 }, Packet::Data { seq: 4 });
    assert_ne!(Packet::Data { seq: 4 }, Packet::Ack { seq: 4 });
    assert_ne!(Packet::Ack { seq: 4 }, Packet::Ack { seq: 5 });
    let packet = Packet::Ack { seq: 9 };
    let copy = packet.clone();
    assert_eq!(packet, copy);
}

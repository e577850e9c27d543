use netbench::encapsuler::{BenchPayload, PayloadType};
use netbench::receiver::{ReceiverAction, ReceiverEvent, ReceiverState, SeqRange};
use netbench::wire::Timestamp;

fn at(secs: u64) -> Timestamp {
    Timestamp { secs, nanos: 0 }
}

fn payload(t: PayloadType, seq: u64, step: u8) -> BenchPayload {
    let mut p = BenchPayload::stamped(t.to_u8(), at(1));
    p.seq = seq;
    p.step = step;
    p
}

fn seq_event(seq: u64, secs: u64) -> ReceiverEvent {
    ReceiverEvent::FromDist(payload(PayloadType::Sequence, seq, 0), at(secs))
}

#[test]
fn counts_sequence_packets_and_reports_gaps() {
    let mut r = ReceiverState::new();
    assert_eq!(r.step(seq_event(1, 10)), ReceiverAction::Counted { missing: None });
    assert_eq!(r.step(seq_event(2, 11)), ReceiverAction::Counted { missing: None });
    assert_eq!(
        r.step(seq_event(4, 12)),
        ReceiverAction::Counted { missing: Some(SeqRange { first: 3, last: 3 }) }
    );
    assert_eq!(
        r.step(seq_event(9, 13)),
        ReceiverAction::Counted { missing: Some(SeqRange { first: 5, last: 8 }) }
    );
    assert_eq!(r.step(seq_event(3, 14)), ReceiverAction::Counted { missing: None });
    assert_eq!(r.total_packets(), 5);
    assert_eq!(r.partial_packets(), 5);
    assert_eq!(r.last_rcv_seq(), 3);
    let seen: Vec<u64> = r.received_in_order().iter().map(|e| e.0).collect();
    assert_eq!(seen, vec![1, 2, 3, 4, 9]);
}

#[test]
fn first_packet_zero_reports_no_gap() {
    let mut r = ReceiverState::new();
    assert_eq!(r.step(seq_event(0, 1)), ReceiverAction::Counted { missing: None });
    assert_eq!(
        r.step(seq_event(3, 2)),
        ReceiverAction::Counted { missing: Some(SeqRange { first: 1, last: 2 }) }
    );
}

#[test]
fn repeated_sequence_number_keeps_latest_time() {
    let mut r = ReceiverState::new();
    r.step(seq_event(5, 100));
    r.step(seq_event(5, 200));
    assert_eq!(r.total_packets(), 2);
    assert_eq!(r.received_in_order(), vec![(5, at(200))]);
}

#[test]
fn update_call_answers_partial_and_restarts_it() {
    let mut r = ReceiverState::new();
    r.step(seq_event(1, 1));
    r.step(seq_event(2, 2));
    r.step(seq_event(3, 3));
    let a = r.step(ReceiverEvent::FromDist(payload(PayloadType::UpdateCall, 0, 0), at(4)));
    assert_eq!(a, ReceiverAction::SendUpdateAnswer { count: 3 });
    // A second call before any new packet answers the same count.
    let a = r.step(ReceiverEvent::FromDist(payload(PayloadType::UpdateCall, 0, 0), at(5)));
    assert_eq!(a, ReceiverAction::SendUpdateAnswer { count: 3 });
    r.step(seq_event(4, 6));
    assert_eq!(r.partial_packets(), 1);
    assert_eq!(r.total_packets(), 4);
    let a = r.step(ReceiverEvent::FromDist(payload(PayloadType::UpdateCall, 0, 0), at(7)));
    assert_eq!(a, ReceiverAction::SendUpdateAnswer { count: 1 });
}

#[test]
fn other_sources_clock_and_errors_change_nothing() {
    let mut r = ReceiverState::new();
    r.step(seq_event(1, 1));
    assert_eq!(r.step(ReceiverEvent::FromOther), ReceiverAction::Nothing);
    assert_eq!(r.step(ReceiverEvent::ReceiveError), ReceiverAction::Nothing);
    assert_eq!(
        r.step(ReceiverEvent::FromDist(payload(PayloadType::Clock, 0, 0), at(2))),
        ReceiverAction::Nothing
    );
    assert_eq!(r.total_packets(), 1);
}

#[test]
fn answers_sent_to_receiver_are_misdirected() {
    let mut r = ReceiverState::new();
    assert_eq!(
        r.step(ReceiverEvent::FromDist(payload(PayloadType::UpdateAnswer, 0, 0), at(1))),
        ReceiverAction::Misdirected { payload_type: PayloadType::UpdateAnswer }
    );
    assert_eq!(
        r.step(ReceiverEvent::FromDist(payload(PayloadType::FinishAnswer, 0, 0), at(1))),
        ReceiverAction::Misdirected { payload_type: PayloadType::FinishAnswer }
    );
}

#[test]
fn finish_handshake_resends_until_acknowledged() {
    let mut r = ReceiverState::new();
    r.step(seq_event(1, 1));
    r.step(seq_event(2, 2));
    let a = r.step(ReceiverEvent::FromDist(payload(PayloadType::FinishCall, 0, 0), at(3)));
    assert_eq!(a, ReceiverAction::SendFinishAnswer { count: 2 });
    assert!(r.is_finishing());
    assert_eq!(r.step(ReceiverEvent::ReceiveError), ReceiverAction::SendFinishAnswer { count: 2 });
    assert_eq!(r.step(ReceiverEvent::FromOther), ReceiverAction::SendFinishAnswer { count: 2 });
    // A repeated step-0 call is not the acknowledgement; sequence packets are not counted.
    assert_eq!(
        r.step(ReceiverEvent::FromDist(payload(PayloadType::FinishCall, 0, 0), at(4))),
        ReceiverAction::SendFinishAnswer { count: 2 }
    );
    assert_eq!(r.step(seq_event(3, 5)), ReceiverAction::SendFinishAnswer { count: 2 });
    assert_eq!(
        r.step(ReceiverEvent::FromDist(payload(PayloadType::FinishCall, 0, 1), at(6))),
        ReceiverAction::Finished
    );
    assert!(r.is_terminated());
    assert_eq!(r.step(seq_event(4, 7)), ReceiverAction::Nothing);
    assert_eq!(r.total_packets(), 2);
}

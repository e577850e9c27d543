use netbench::clock::Elapsed;
use netbench::compute::{call_outcome, CallOutcome, ComputeState, FinalReport, PartialReport};
use netbench::ping::PingStats;
use netbench::reader;
use netbench::route::{quoted_echo, IcmpReply, RouteTracer};
use netbench::sender::{check_packet_size, CsvRecord, PacketSizeError, SenderState, DEFAULT_PACKET_SIZE};
use netbench::sync::{turn_action, PrintTurn, Role, SyncDecision, SyncTimer, TurnAction};
use netbench::utils::{BenchPayload, Config, Data, PcNumberError};
use netbench::wire::Timestamp;

fn ts(secs: u64, nanos: u32) -> Timestamp {
    Timestamp { secs, nanos }
}

#[test]
fn packet_size_bounds() {
    assert_eq!(check_packet_size(99), Err(PacketSizeError::OutOfRange(99)));
    assert_eq!(check_packet_size(100), Ok(100));
    assert_eq!(check_packet_size(1500), Ok(1500));
    assert_eq!(check_packet_size(1501), Err(PacketSizeError::OutOfRange(1501)));
    assert_eq!(check_packet_size(DEFAULT_PACKET_SIZE), Ok(1024));
}

#[test]
fn duration_between_timestamps() {
    assert_eq!(ts(10, 500).duration_since(&ts(8, 700)), Some(Elapsed { secs: 1, nanos: 999_999_800 }));
    assert_eq!(ts(10, 700).duration_since(&ts(8, 500)), Some(Elapsed { secs: 2, nanos: 200 }));
    assert_eq!(ts(8, 0).duration_since(&ts(8, 1)), None);
    assert_eq!(ts(8, 1).duration_since(&ts(8, 1)), Some(Elapsed { secs: 0, nanos: 0 }));
    assert_eq!(Elapsed { secs: 2, nanos: 345_678 }.as_micros(), 2_000_345);
}

#[test]
fn sender_numbers_packets_and_records_them() {
    let start = ts(100, 0);
    let mut s = SenderState::new(start);
    let p = s.sequence_payload(ts(100, 5_000));
    assert_eq!(p, BenchPayload { payload_type: 0, seq: 0, step: 0, data: 0, time: ts(100, 5_000) });
    s.on_sent(ts(100, 5_000), 1024);
    let p = s.sequence_payload(ts(101, 2_000));
    assert_eq!(p.seq, 1);
    s.on_sent(ts(101, 2_000), 1024);
    s.on_sent(ts(102, 999_999_999), 512);
    assert_eq!(s.total_packets(), 3);
    assert_eq!(s.sequence_number(), 3);
    assert_eq!(
        s.csv_records(),
        vec![
            CsvRecord { seq: 0, micros: 5, size: 1024 },
            CsvRecord { seq: 1, micros: 1_000_002, size: 1024 },
            CsvRecord { seq: 2, micros: 2_999_999, size: 512 },
        ]
    );
}

#[test]
fn compute_reports_partial_and_final_figures() {
    let mut c = ComputeState::new();
    let answer = BenchPayload { payload_type: 3, seq: 0, step: 0, data: 80, time: ts(1, 0) };
    let other = BenchPayload { payload_type: 0, seq: 0, step: 0, data: 99, time: ts(1, 0) };
    assert!(!c.on_update_reply(90, None));
    assert!(!c.on_update_reply(95, Some(other)));
    assert!(c.on_update_reply(100, Some(answer)));
    let r = c.partial_report(150, 1024);
    assert_eq!(r, PartialReport { partial_amount_kib: 80, partial_receiver_count: 80, partial_total_packets: 100 });
    assert!(c.on_update_reply(250, Some(BenchPayload { data: 170, ..answer })));
    let r = c.partial_report(300, 1000);
    assert_eq!(r, PartialReport { partial_amount_kib: 166, partial_receiver_count: 170, partial_total_packets: 150 });
    let fin = BenchPayload { payload_type: 5, seq: 0, step: 0, data: 3000, time: ts(1, 0) };
    assert!(!c.on_finish_reply(400, Some(answer)));
    assert!(c.on_finish_reply(410, Some(fin)));
    let f = c.final_report(500, 1024);
    assert_eq!(f, FinalReport { total_packets: 410, final_receiver_count: 3000, total_transmitted_mib: 2 });
}

#[test]
fn compute_falls_back_on_global_count() {
    let mut c = ComputeState::new();
    let r = c.partial_report(42, 100);
    assert_eq!(r, PartialReport { partial_amount_kib: 0, partial_receiver_count: 0, partial_total_packets: 42 });
    let mut c = ComputeState::new();
    let f = c.final_report(7, 100);
    assert_eq!(f.total_packets, 7);
    assert_eq!(f.total_transmitted_mib, 0);
}

#[test]
fn ping_running_averages() {
    let mut p = PingStats::new();
    p.on_rtt(10);
    p.on_rtt(20);
    assert_eq!(p.average_rtt(), 15);
    p.on_rtt(20);
    assert_eq!(p.average_rtt(), 16);
    assert_eq!(p.ping_number(), 3);
    assert_eq!(p.take_partial(), (16, 3));
    p.on_rtt(7);
    assert_eq!(p.take_partial(), (7, 1));
    assert_eq!(p.take_partial(), (0, 0));
    assert_eq!(p.average_rtt(), 14);
    assert_eq!(p.ping_number(), 4);
    let mut q = PingStats::new();
    assert_eq!(q.average_rtt(), 0);
    for _ in 0..5 {
        q.on_rtt(33);
    }
    assert_eq!(q.average_rtt(), 33);
}

#[test]
fn ping_mean_is_sum_over_count() {
    let mut p = PingStats::new();
    for rtt in [0, 3, 3] {
        assert!(p.can_take(rtt));
        p.on_rtt(rtt);
    }
    assert_eq!(p.average_rtt(), 2);
    assert_eq!(p.take_partial(), (2, 3));
    assert!(!p.can_take(-1));
    assert!(!p.can_take(i128::MAX));
}

/// What a router quotes of a probe: its IPv4 header (five words, protocol 1)
/// and the first eight bytes of the echo request.
fn quoted_probe(identifier: u16, sequence: u16) -> Vec<u8> {
    let mut q = vec![0u8; 28];
    q[0] = 0x45;
    q[9] = 1;
    q[20] = 8;
    q[24..26].copy_from_slice(&identifier.to_be_bytes());
    q[26..28].copy_from_slice(&sequence.to_be_bytes());
    q
}

#[test]
fn quoted_echo_reads_the_probe() {
    assert_eq!(quoted_echo(&quoted_probe(1, 0x0203)), Some((1, 0x0203)));
    let mut other = quoted_probe(1, 2);
    other[20] = 0;
    assert_eq!(quoted_echo(&other), None);
    let mut udp = quoted_probe(1, 2);
    udp[9] = 17;
    assert_eq!(quoted_echo(&udp), None);
    assert_eq!(quoted_echo(&quoted_probe(1, 2)[..27]), None);
    let mut longer = vec![0u8; 32];
    longer[0] = 0x46;
    longer[9] = 1;
    longer[24] = 8;
    longer[28..32].copy_from_slice(&[0, 1, 0, 9]);
    assert_eq!(quoted_echo(&longer), Some((1, 9)));
}

#[test]
fn route_rounds() {
    let mut t = RouteTracer::new();
    let dest = [8, 8, 8, 8];
    let router = [192, 168, 0, 1];
    assert!(!t.reached(dest));
    assert!(t.searching(dest));
    let p = t.next_probe();
    assert_eq!((p.ttl, p.sequence), (1, 1));
    let exceeded = |seq: u16| IcmpReply::TimeExceeded { code: 0, quoted: quoted_probe(1, seq) };
    assert!(!t.on_reply(dest, dest, &IcmpReply::EchoReply { identifier: 7, sequence: 1 }));
    assert!(!t.on_reply(router, dest, &exceeded(5)));
    assert!(!t.on_reply(router, dest, &IcmpReply::TimeExceeded { code: 1, quoted: quoted_probe(1, 1) }));
    assert!(!t.on_reply(router, dest, &IcmpReply::Other));
    assert!(t.current_route().is_empty());
    assert!(t.on_reply(router, dest, &exceeded(1)));
    let p = t.next_probe();
    assert_eq!((p.ttl, p.sequence), (2, 2));
    assert!(!t.on_reply(router, dest, &IcmpReply::EchoReply { identifier: 1, sequence: 2 }));
    assert!(t.on_reply(dest, dest, &IcmpReply::EchoReply { identifier: 1, sequence: 2 }));
    assert!(t.reached(dest));
    assert!(!t.searching(dest));
    let hops: Vec<(u32, [u8; 4])> = t.current_route().iter().map(|h| (h.ttl, h.addr)).collect();
    assert_eq!(hops, vec![(1, router), (2, dest)]);
    t.publish();
    assert!(!t.reached(dest));
    assert!(t.reached([0, 0, 0, 0]));
    assert!(t.current_route().is_empty());
    assert_eq!(t.last_route().len(), 2);
    let p = t.next_probe();
    assert_eq!((p.ttl, p.sequence), (1, 3));
    t.give_up();
    assert!(!t.searching(dest));
    t.publish();
    assert!(t.searching(dest));
    assert!(t.last_route().is_empty());
}

#[test]
fn print_turns() {
    let mut turn = PrintTurn::Idle;
    let mut seen = vec![];
    for _ in 0..4 {
        turn = turn.next();
        seen.push(turn.to_u16());
    }
    assert_eq!(seen, vec![1, 2, 3, 0]);
    let mut turn = PrintTurn::SyncDone;
    let mut seen = vec![turn.to_u16()];
    for _ in 0..4 {
        turn = turn.next();
        seen.push(turn.to_u16());
    }
    assert_eq!(seen, vec![100, 11, 12, 13, 1000]);
    assert_eq!(PrintTurn::from_u16(12), Some(PrintTurn::ComputeDone));
    assert_eq!(PrintTurn::from_u16(4), None);
}

#[test]
fn synchroniser_spaces_rounds() {
    let mut t = SyncTimer::new(1000);
    assert_eq!(t.step(true, 4000, 0), SyncDecision::Wait);
    assert_eq!(t.step(true, 4001, 0), SyncDecision::Trigger);
    assert_eq!(t.last_ms, 4001);
    assert_eq!(t.step(true, 7001, 0), SyncDecision::Wait);
    assert_eq!(t.step(true, 9000, 2), SyncDecision::Wait);
    assert_eq!(t.step(true, 9000, 0), SyncDecision::Trigger);
    assert_eq!(t.step(false, 9001, 1), SyncDecision::Wait);
    assert_eq!(t.step(false, 9002, 0), SyncDecision::Finish);
    assert_eq!(SyncDecision::Trigger.to_store(), Some(PrintTurn::Compute));
    assert_eq!(SyncDecision::Finish.to_store(), Some(PrintTurn::SyncDone));
    assert_eq!(SyncDecision::Wait.to_store(), None);
}

#[test]
fn threads_take_their_turns() {
    assert_eq!(turn_action(Role::Compute, true, 1), TurnAction::Periodic { then: PrintTurn::Ping });
    assert_eq!(turn_action(Role::Compute, false, 1), TurnAction::Periodic { then: PrintTurn::Ping });
    assert_eq!(turn_action(Role::Compute, true, 2), TurnAction::Work);
    assert_eq!(turn_action(Role::Compute, false, 0), TurnAction::Pause);
    assert_eq!(turn_action(Role::Compute, false, 11), TurnAction::Final { then: PrintTurn::ComputeDone });
    assert_eq!(turn_action(Role::Sender, true, 0), TurnAction::Work);
    assert_eq!(turn_action(Role::Sender, false, 100), TurnAction::Final { then: PrintTurn::SenderDone });
    assert_eq!(turn_action(Role::Ping, false, 2), TurnAction::Periodic { then: PrintTurn::Route });
    assert_eq!(turn_action(Role::Ping, false, 12), TurnAction::Final { then: PrintTurn::PingDone });
    assert_eq!(turn_action(Role::Route, true, 3), TurnAction::Periodic { then: PrintTurn::Idle });
    assert_eq!(turn_action(Role::Route, false, 3), TurnAction::PassOn { then: PrintTurn::Idle });
    assert_eq!(turn_action(Role::Route, false, 13), TurnAction::Final { then: PrintTurn::RouteDone });
    assert_eq!(turn_action(Role::Route, true, 77), TurnAction::Work);
    assert_eq!(turn_action(Role::Route, false, 77), TurnAction::Pause);
}

#[test]
fn calls_time_out() {
    assert_eq!(call_outcome(false, 100, 500), CallOutcome::Again);
    assert_eq!(call_outcome(true, 500, 500), CallOutcome::Answered);
    assert_eq!(call_outcome(true, 501, 500), CallOutcome::TimedOut);
    assert_eq!(call_outcome(false, 2001, 2000), CallOutcome::TimedOut);
}

fn config(num_local: u16, num_dist: u16) -> Config {
    Config {
        num_local,
        num_dist,
        ip1: "10.0.0.1".to_string(),
        ip2: "10.0.0.2".to_string(),
        ip3: "10.0.0.3".to_string(),
        ip4: "10.0.0.4".to_string(),
    }
}

#[test]
fn machine_numbers_name_addresses() {
    let c = config(1, 4);
    assert_eq!(c.local_address().unwrap(), "10.0.0.1");
    assert_eq!(c.dist_address().unwrap(), "10.0.0.4");
    assert_eq!(c.address_of(2).unwrap(), "10.0.0.2");
    assert_eq!(c.address_of(3).unwrap(), "10.0.0.3");
    assert_eq!(config(0, 1).local_address(), Err(PcNumberError::NotSet));
    assert_eq!(config(1, 5).dist_address(), Err(PcNumberError::Unrecognized(5)));
    let d = Data::new(config(2, 3));
    assert_eq!(d.into_config().num_dist, 3);
    let r = reader::Config {
        num_local: 3,
        num_dist: 0,
        ip1: "a".to_string(),
        ip2: "b".to_string(),
        ip3: "c".to_string(),
        ip4: "d".to_string(),
        tcp_port: 8080,
    };
    assert_eq!(r.local_address().unwrap(), "c");
    assert_eq!(r.dist_address(), Err(PcNumberError::NotSet));
}

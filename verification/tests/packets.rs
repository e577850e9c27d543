use netbench::encapsuler;
use netbench::utils;
use netbench::wire::Timestamp;

const LOCAL: [u8; 4] = [192, 168, 1, 10];
const DIST: [u8; 4] = [10, 0, 0, 7];

#[test]
fn receiver_header_fields() {
    let mut buf = vec![0xffu8; 24];
    encapsuler::init_ipv4_packet(&mut buf, LOCAL, DIST);
    assert_eq!(buf[0], 0x45);
    assert_eq!(buf[1], 0xff);
    assert_eq!(&buf[2..4], &[0x04, 0x00]);
    assert_eq!(&buf[4..8], &[0xff; 4]);
    assert_eq!(buf[8], 64);
    assert_eq!(buf[9], 254);
    assert_eq!(&buf[10..12], &[0xff, 0xff]);
    assert_eq!(&buf[12..16], &LOCAL);
    assert_eq!(&buf[16..20], &DIST);
    assert_eq!(&buf[20..], &[0xff; 4]);
}

#[test]
fn sender_header_total_length() {
    let mut buf = vec![0u8; 20];
    utils::init_ipv4_packet(&mut buf, LOCAL, DIST, 1500);
    assert_eq!(&buf[2..4], &[0x05, 0xdc]);
    assert_eq!(buf[0], 0x45);
    assert_eq!(&buf[12..16], &LOCAL);
    assert_eq!(&buf[16..20], &DIST);
}

#[test]
fn answer_packet_layout() {
    let p = encapsuler::BenchPayload::stamped(3, Timestamp { secs: 1, nanos: 2 }).with_count(9);
    let pkt = encapsuler::answer_packet(LOCAL, DIST, &p);
    assert_eq!(pkt.len(), 1024);
    let mut header = vec![0u8; 20];
    encapsuler::init_ipv4_packet(&mut header, LOCAL, DIST);
    assert_eq!(&pkt[..20], &header[..]);
    assert_eq!(&pkt[20..978], &p.encode()[..]);
    assert!(pkt[978..].iter().all(|b| *b == 0));
}

#[test]
fn sequence_packet_layout() {
    let p = utils::BenchPayload { payload_type: 0, seq: 17, step: 0, data: 0, time: Timestamp { secs: 3, nanos: 4 } };
    let pkt = utils::bench_packet(LOCAL, DIST, 100, &p);
    assert_eq!(pkt.len(), 100);
    assert_eq!(&pkt[2..4], &[0x00, 100]);
    assert_eq!(&pkt[20..50], &p.encode()[..]);
    assert!(pkt[50..].iter().all(|b| *b == 0));
    let decoded = utils::BenchPayload::decode(&pkt[20..]).unwrap();
    assert_eq!(decoded, p);
}

#[test]
fn receiver_reads_sequence_packet() {
    let p = utils::BenchPayload { payload_type: 0, seq: 4242, step: 0, data: 0, time: Timestamp { secs: 9, nanos: 8 } };
    let pkt = utils::bench_packet(LOCAL, DIST, 1024, &p);
    let q = encapsuler::BenchPayload::decode(&pkt[20..]).unwrap();
    assert_eq!((q.payload_type, q.seq, q.step, q.count, q.time), (0, 4242, 0, 0, p.time));
    assert_eq!(q.filler, [[0u8; 32]; 29]);
    let small = utils::bench_packet(LOCAL, DIST, 977, &p);
    assert!(encapsuler::BenchPayload::decode(&small[20..]).is_err());
}

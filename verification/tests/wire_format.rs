use netbench::encapsuler::{self, PayloadType, FILLER_BYTE};
use netbench::utils;
use netbench::wire::{DecodeError, Timestamp};

fn sample_sender_payload() -> utils::BenchPayload {
    utils::BenchPayload {
        payload_type: 0,
        seq: 0x0102_0304_0506_0708,
        step: 1,
        data: 42,
        time: Timestamp { secs: 1_700_000_000, nanos: 123_456_789 },
    }
}

#[test]
fn sender_payload_bytes_are_little_endian_fields() {
    let p = sample_sender_payload();
    let bytes = p.encode();
    let mut expected = vec![0u8];
    expected.extend_from_slice(&0x0102_0304_0506_0708u64.to_le_bytes());
    expected.push(1);
    expected.extend_from_slice(&42u64.to_le_bytes());
    expected.extend_from_slice(&1_700_000_000u64.to_le_bytes());
    expected.extend_from_slice(&123_456_789u32.to_le_bytes());
    assert_eq!(bytes.len(), 30);
    assert_eq!(bytes, expected);
}

#[test]
fn sender_payload_roundtrip_with_trailing_bytes() {
    let p = sample_sender_payload();
    let mut bytes = p.encode();
    bytes.extend_from_slice(&[9u8; 50]);
    let q = utils::BenchPayload::decode(&bytes).unwrap();
    assert_eq!(q, p);
}

#[test]
fn sender_payload_truncated() {
    let p = sample_sender_payload();
    let bytes = p.encode();
    assert_eq!(utils::BenchPayload::decode(&bytes[..29]), Err(DecodeError::Truncated));
    assert_eq!(utils::BenchPayload::decode(&[]), Err(DecodeError::Truncated));
}

#[test]
fn sender_reencodes_first_thirty_bytes() {
    let bytes: Vec<u8> = (0u8..40).collect();
    let q = utils::BenchPayload::decode(&bytes).unwrap();
    assert_eq!(q.payload_type, 0);
    assert_eq!(q.seq, u64::from_le_bytes([1, 2, 3, 4, 5, 6, 7, 8]));
    assert_eq!(q.step, 9);
    assert_eq!(q.data, u64::from_le_bytes([10, 11, 12, 13, 14, 15, 16, 17]));
    assert_eq!(q.time.secs, u64::from_le_bytes([18, 19, 20, 21, 22, 23, 24, 25]));
    assert_eq!(q.time.nanos, u32::from_le_bytes([26, 27, 28, 29]));
    assert_eq!(q.encode(), bytes[..30].to_vec());
}

#[test]
fn receiver_payload_layout_and_roundtrip() {
    let p = encapsuler::BenchPayload::stamped(PayloadType::UpdateAnswer.to_u8(), Timestamp { secs: 5, nanos: 6 })
        .with_count(77);
    let bytes = p.encode();
    assert_eq!(bytes.len(), 958);
    assert_eq!(bytes[0], 3);
    assert_eq!(&bytes[10..18], &77u64.to_le_bytes());
    assert!(bytes[30..].iter().all(|b| *b == FILLER_BYTE));
    let mut longer = bytes.clone();
    longer.extend_from_slice(&[0u8; 46]);
    let q = encapsuler::BenchPayload::decode(&longer).unwrap();
    assert_eq!(q.payload_type, 3);
    assert_eq!(q.count, 77);
    assert_eq!(q.time, Timestamp { secs: 5, nanos: 6 });
    assert_eq!(q.filler, [[FILLER_BYTE; 32]; 29]);
    assert_eq!(q.encode(), bytes);
}

#[test]
fn receiver_payload_needs_958_bytes() {
    let bytes = vec![0u8; 957];
    assert!(matches!(encapsuler::BenchPayload::decode(&bytes), Err(DecodeError::Truncated)));
    let bytes = vec![0u8; 958];
    assert!(encapsuler::BenchPayload::decode(&bytes).is_ok());
}

#[test]
fn sender_reads_receiver_count_as_data() {
    let answer = encapsuler::BenchPayload::stamped(PayloadType::FinishAnswer.to_u8(), Timestamp { secs: 10, nanos: 20 })
        .with_count(123_456);
    let bytes = answer.encode();
    let read = utils::BenchPayload::decode(&bytes).unwrap();
    assert_eq!(
        read,
        utils::BenchPayload {
            payload_type: 5,
            seq: 0,
            step: 0,
            data: 123_456,
            time: Timestamp { secs: 10, nanos: 20 },
        }
    );
}

#[test]
fn payload_type_codes() {
    let all = [
        PayloadType::Sequence,
        PayloadType::Clock,
        PayloadType::UpdateCall,
        PayloadType::UpdateAnswer,
        PayloadType::FinishCall,
        PayloadType::FinishAnswer,
    ];
    for (i, t) in all.iter().enumerate() {
        assert_eq!(t.to_u8(), i as u8);
        assert_eq!(PayloadType::from_u8(i as u8), Some(*t));
    }
    assert_eq!(PayloadType::from_u8(6), None);
    assert_eq!(PayloadType::from_u8(255), None);
}

#[test]
fn new_payloads_carry_the_clock() {
    let p = utils::BenchPayload::new(2).unwrap();
    assert_eq!((p.payload_type, p.seq, p.step, p.data), (2, 0, 0, 0));
    assert!(p.time.secs > 1_600_000_000);
    assert!(p.time.nanos < 1_000_000_000);
    let q = encapsuler::BenchPayload::new(3).unwrap();
    assert_eq!((q.payload_type, q.seq, q.step, q.count), (3, 0, 0, 0));
    assert!(q.time.secs > 1_600_000_000);
    assert!(q.time.nanos < 1_000_000_000);
    assert_eq!(q.filler, [[170u8; 32]; 29]);
}

fn header_with_time(secs: u64, nanos: u32) -> Vec<u8> {
    let mut bytes = vec![0u8; 30];
    bytes[18..26].copy_from_slice(&secs.to_le_bytes());
    bytes[26..30].copy_from_slice(&nanos.to_le_bytes());
    bytes
}

#[test]
fn send_time_carries_whole_seconds() {
    let q = utils::BenchPayload::decode(&header_with_time(5, 2_500_000_000)).unwrap();
    assert_eq!(q.time, Timestamp { secs: 7, nanos: 500_000_000 });
    let q = utils::BenchPayload::decode(&header_with_time(i64::MAX as u64, 999_999_999)).unwrap();
    assert_eq!(q.time, Timestamp { secs: i64::MAX as u64, nanos: 999_999_999 });
}

#[test]
fn send_time_beyond_system_time_is_refused() {
    assert_eq!(utils::BenchPayload::decode(&[0xFFu8; 30]), Err(DecodeError::TimeOutOfRange));
    assert_eq!(
        utils::BenchPayload::decode(&header_with_time(i64::MAX as u64, 1_000_000_000)),
        Err(DecodeError::TimeOutOfRange)
    );
    assert_eq!(
        utils::BenchPayload::decode(&header_with_time(i64::MAX as u64 + 1, 0)),
        Err(DecodeError::TimeOutOfRange)
    );
    assert!(matches!(encapsuler::BenchPayload::decode(&[0xFFu8; 958]), Err(DecodeError::TimeOutOfRange)));
    assert!(matches!(encapsuler::BenchPayload::decode(&[0xFFu8; 957]), Err(DecodeError::Truncated)));
}

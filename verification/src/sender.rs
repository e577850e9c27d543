//! The decisions of the sending side: the packet size it accepts, the
//! sequence numbers it sends and keeps, and the record it writes of them.

use vstd::prelude::*;
use std::collections::BTreeMap;
use crate::clock::Elapsed;
use crate::ordered::{keys_increasing, lists_entries, sorted_entries};
use crate::utils::BenchPayload;
use crate::wire::Timestamp;

verus! {

/// The packet size used when none is given.
pub const DEFAULT_PACKET_SIZE: u16 = 1024;

/// The smallest packet size accepted.
pub const MIN_PACKET_SIZE: u16 = 100;

/// The largest packet size accepted (no fragmentation).
pub const MAX_PACKET_SIZE: u16 = 1500;

/// A packet size outside the accepted range.
#[derive(Clone, Copy, Debug, PartialEq, Eq, Structural)]
pub enum PacketSizeError {
    OutOfRange(u16),
}

/// Accepts a packet size between 100 and 1500 bytes.
pub fn check_packet_size(size: u16) -> (r: Result<u16, PacketSizeError>)
    ensures
        r is Ok <==> 100 <= size <= 1500,
        r matches Ok(s) ==> s == size,
        r matches Err(e) ==> e == PacketSizeError::OutOfRange(size),
{
    if size < MIN_PACKET_SIZE || size > MAX_PACKET_SIZE {
        Err(PacketSizeError::OutOfRange(size))
    } else {
        Ok(size)
    }
}

/// One line of the record of sent packets: sequence number, microseconds from
/// the start of the run to the send, packet size.
#[derive(Clone, Copy, Debug, PartialEq, Eq, Structural)]
pub struct CsvRecord {
    pub seq: u64,
    pub micros: u128,
    pub size: u16,
}

/// The state of the sending side as a mathematical value.
pub struct SenderView {
    pub total_packets: u64,
    pub sequence_number: u64,
    pub start_time: Timestamp,
    pub sent: Map<u64, (Elapsed, u16)>,
}

impl SenderView {
    /// Every packet sent got the next sequence number, and exactly the
    /// sequence numbers below the next one are recorded.
    pub open spec fn wf(self) -> bool {
        &&& self.total_packets == self.sequence_number
        &&& self.start_time.wf()
        &&& forall|k: u64| #[trigger] self.sent.contains_key(k) <==> k < self.sequence_number
    }
}

/// The sending side: its counters, the time the run started, and for each
/// sequence number sent the time from the start and the packet size.
pub struct SenderState {
    total_packets: u64,
    sequence_number: u64,
    start_time: Timestamp,
    packet_map: BTreeMap<u64, (Elapsed, u16)>,
}

impl View for SenderState {
    type V = SenderView;

    closed spec fn view(&self) -> SenderView {
        SenderView {
            total_packets: self.total_packets,
            sequence_number: self.sequence_number,
            start_time: self.start_time,
            sent: self.packet_map@,
        }
    }
}

impl SenderState {
    /// A sender that has sent nothing, in a run that started at `start_time`.
    pub fn new(start_time: Timestamp) -> (s: SenderState)
        requires
            start_time.wf(),
        ensures
            s@.total_packets == 0,
            s@.sequence_number == 0,
            s@.start_time == start_time,
            s@.sent == Map::<u64, (Elapsed, u16)>::empty(),
            s@.wf(),
    {
        SenderState {
            total_packets: 0,
            sequence_number: 0,
            start_time,
            packet_map: BTreeMap::new(),
        }
    }

    /// Packets sent so far.
    pub fn total_packets(&self) -> (r: u64)
        ensures
            r == self@.total_packets,
    {
        self.total_packets
    }

    /// The sequence number of the next packet.
    pub fn sequence_number(&self) -> (r: u64)
        ensures
            r == self@.sequence_number,
    {
        self.sequence_number
    }

    /// The payload of the next packet: a sequence payload carrying the next
    /// sequence number, sent at `time`.
    pub fn sequence_payload(&self, time: Timestamp) -> (p: BenchPayload)
        ensures
            p == (BenchPayload {
                payload_type: 0,
                seq: self@.sequence_number,
                step: 0,
                data: 0,
                time: time,
            }),
    {
        BenchPayload { payload_type: 0, seq: self.sequence_number, step: 0, data: 0, time }
    }

    /// Whether a packet sent at `sent_time` can be recorded: the time is not
    /// before the start of the run and the sequence number can still grow.
    pub fn can_record(&self, sent_time: Timestamp) -> (r: bool)
        requires
            self@.wf(),
            sent_time.wf(),
        ensures
            r == (!sent_time.before(self@.start_time) && self@.sequence_number < u64::MAX),
    {
        sent_time.duration_since(&self.start_time).is_some() && self.sequence_number < u64::MAX
    }

    /// Records that the packet with the next sequence number left at
    /// `sent_time` with `packet_size` bytes: both counters go up by one and the
    /// time from the start is kept under that sequence number.
    pub fn on_sent(&mut self, sent_time: Timestamp, packet_size: u16)
        requires
            old(self)@.wf(),
            sent_time.wf(),
            !sent_time.before(old(self)@.start_time),
            old(self)@.sequence_number < u64::MAX,
        ensures
            final(self)@.wf(),
            final(self)@.total_packets == old(self)@.total_packets + 1,
            final(self)@.sequence_number == old(self)@.sequence_number + 1,
            final(self)@.start_time == old(self)@.start_time,
            final(self)@.sent.dom() == old(self)@.sent.dom().insert(old(self)@.sequence_number),
            forall|k: u64|
                k != old(self)@.sequence_number && #[trigger] old(self)@.sent.contains_key(k)
                    ==> final(self)@.sent[k] == old(self)@.sent[k],
            ({
                let (e, size) = final(self)@.sent[old(self)@.sequence_number];
                &&& e.wf()
                &&& e.total_nanos() == sent_time.total_nanos() - old(self)@.start_time.total_nanos()
                &&& size == packet_size
            }),
    {
        broadcast use vstd::std_specs::btree::group_btree_axioms;
        let elapsed = match sent_time.duration_since(&self.start_time) {
            Some(e) => e,
            None => {
                proof {
                    assert(false);
                }
                Elapsed { secs: 0, nanos: 0 }
            },
        };
        let seq = self.sequence_number;
        self.total_packets = self.total_packets + 1;
        self.sequence_number = self.sequence_number + 1;
        self.packet_map.insert(seq, (elapsed, packet_size));
        proof {
            assert(self.packet_map@.dom() =~= old(self)@.sent.dom().insert(seq));
        }
    }

    /// The record of sent packets, sequence numbers increasing.
    pub fn csv_records(&self) -> (r: Vec<CsvRecord>)
        ensures
            r@.len() == self@.sent.dom().len(),
            forall|i: int, j: int| 0 <= i < j < r@.len() ==> #[trigger] r@[i].seq < #[trigger] r@[j].seq,
            forall|i: int|
                0 <= i < r@.len() ==> {
                    let rec = #[trigger] r@[i];
                    &&& self@.sent.contains_key(rec.seq)
                    &&& rec.micros == self@.sent[rec.seq].0.spec_as_micros()
                    &&& rec.size == self@.sent[rec.seq].1
                },
            forall|k: u64|
                #[trigger] self@.sent.contains_key(k) ==> exists|i: int|
                    0 <= i < r@.len() && r@[i].seq == k,
    {
        let entries = sorted_entries(&self.packet_map);
        let mut r: Vec<CsvRecord> = Vec::new();
        let mut i: usize = 0;
        while i < entries.len()
            invariant
                i <= entries@.len(),
                r@.len() == i,
                forall|j: int|
                    0 <= j < i ==> #[trigger] r@[j] == (CsvRecord {
                        seq: entries@[j].0,
                        micros: entries@[j].1.0.spec_as_micros() as u128,
                        size: entries@[j].1.1,
                    }),
            decreases entries@.len() - i,
        {
            let (seq, (elapsed, size)) = entries[i];
            r.push(CsvRecord { seq, micros: elapsed.as_micros(), size });
            i = i + 1;
        }
        proof {
            assert(keys_increasing(entries@));
            assert(lists_entries(entries@, self.packet_map@));
            assert forall|i: int, j: int| 0 <= i < j < r@.len() implies #[trigger] r@[i].seq < #[trigger] r@[j].seq by {
                assert(entries@[i].0 < entries@[j].0);
            }
            assert forall|i: int| 0 <= i < r@.len() implies {
                let rec = #[trigger] r@[i];
                &&& self@.sent.contains_key(rec.seq)
                &&& rec.micros == self@.sent[rec.seq].0.spec_as_micros()
                &&& rec.size == self@.sent[rec.seq].1
            } by {
                assert(self.packet_map@.contains_key(entries@[i].0));
            }
            assert forall|k: u64| #[trigger] self@.sent.contains_key(k) implies exists|i: int|
                0 <= i < r@.len() && r@[i].seq == k by {
                let i = choose|i: int| 0 <= i < entries@.len() && entries@[i].0 == k;
                assert(r@[i].seq == k);
            }
        }
        r
    }
}

} // verus!

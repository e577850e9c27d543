//! The payload that the receiving side sends back, the payload types, and the
//! packets that carry the receiver's answers.

use vstd::prelude::*;
use crate::clock::clock_now;
use crate::ipv4::{is_bench_header, put_payload, spec_total_length, write_bench_header};
use crate::wire::{
    decode_full, encode_full, filler_matches, full_bytes, header_at, time_from_wire, wire_time,
    DecodeError, FullFields, Timestamp,
};

verus! {

broadcast use vstd::array::group_array_axioms;

/// What a payload asks for or reports.
#[derive(Clone, Copy, Debug, PartialEq, Eq, Structural)]
pub enum PayloadType {
    /// A numbered packet of the measured traffic.
    Sequence,
    /// Reserved for clock synchronisation.
    Clock,
    /// Asks the receiver for the packets counted since the last such call.
    UpdateCall,
    /// Answers an update call with the partial count.
    UpdateAnswer,
    /// Asks the receiver for its final count (step 0), then acknowledges it (step 1).
    FinishCall,
    /// Answers a finish call with the total count.
    FinishAnswer,
}

impl PayloadType {
    /// The byte that stands for this type on the wire.
    pub open spec fn code(self) -> u8 {
        match self {
            PayloadType::Sequence => 0,
            PayloadType::Clock => 1,
            PayloadType::UpdateCall => 2,
            PayloadType::UpdateAnswer => 3,
            PayloadType::FinishCall => 4,
            PayloadType::FinishAnswer => 5,
        }
    }

    /// The type that a wire byte stands for, if any.
    pub open spec fn spec_from_u8(b: u8) -> Option<PayloadType> {
        if b == 0 {
            Some(PayloadType::Sequence)
        } else if b == 1 {
            Some(PayloadType::Clock)
        } else if b == 2 {
            Some(PayloadType::UpdateCall)
        } else if b == 3 {
            Some(PayloadType::UpdateAnswer)
        } else if b == 4 {
            Some(PayloadType::FinishCall)
        } else if b == 5 {
            Some(PayloadType::FinishAnswer)
        } else {
            None
        }
    }

    /// The byte that stands for this type on the wire.
    pub fn to_u8(self) -> (b: u8)
        ensures
            b == self.code(),
    {
        match self {
            PayloadType::Sequence => 0,
            PayloadType::Clock => 1,
            PayloadType::UpdateCall => 2,
            PayloadType::UpdateAnswer => 3,
            PayloadType::FinishCall => 4,
            PayloadType::FinishAnswer => 5,
        }
    }

    /// The type that a wire byte stands for; `None` for a byte above 5.
    pub fn from_u8(b: u8) -> (r: Option<PayloadType>)
        ensures
            r == Self::spec_from_u8(b),
    {
        if b == 0 {
            Some(PayloadType::Sequence)
        } else if b == 1 {
            Some(PayloadType::Clock)
        } else if b == 2 {
            Some(PayloadType::UpdateCall)
        } else if b == 3 {
            Some(PayloadType::UpdateAnswer)
        } else if b == 4 {
            Some(PayloadType::FinishCall)
        } else if b == 5 {
            Some(PayloadType::FinishAnswer)
        } else {
            None
        }
    }
}

/// Every type reads back from its own byte.
pub proof fn lemma_payload_type_roundtrip(t: PayloadType)
    ensures
        PayloadType::spec_from_u8(t.code()) == Some(t),
{
}

/// A byte stands for a type exactly when it is below 6, and then for the type
/// whose byte it is.
pub proof fn lemma_payload_type_bytes(b: u8)
    ensures
        PayloadType::spec_from_u8(b) is Some <==> b < 6,
        PayloadType::spec_from_u8(b) matches Some(t) ==> t.code() == b,
{
}

/// The byte that fills the padding of a receiver payload.
pub const FILLER_BYTE: u8 = 170;

/// Whether every byte of the padding is the filler byte.
pub open spec fn is_standard_filler(f: [[u8; 32]; 29]) -> bool {
    forall|i: int, j: int| 0 <= i < 29 && 0 <= j < 32 ==> #[trigger] f[i][j] == 170u8
}

/// A payload of the receiving side: the header fields, with the count in the
/// fourth place, then a block of padding.
#[derive(Clone, Copy, Debug)]
pub struct BenchPayload {
    pub payload_type: u8,
    pub seq: u64,
    pub step: u8,
    pub count: u64,
    pub time: Timestamp,
    pub filler: [[u8; 32]; 29],
}

impl BenchPayload {
    /// The fields in wire order.
    pub open spec fn fields(self) -> FullFields {
        (
            self.payload_type,
            self.seq,
            self.step,
            self.count,
            (self.time.secs, self.time.nanos),
            self.filler,
        )
    }

    /// The payload built from fields in wire order.
    pub open spec fn from_fields(v: FullFields) -> BenchPayload {
        BenchPayload {
            payload_type: v.0,
            seq: v.1,
            step: v.2,
            count: v.3,
            time: Timestamp { secs: v.4.0, nanos: v.4.1 },
            filler: v.5,
        }
    }

    /// The bytes of this payload on the wire.
    pub open spec fn spec_encode(self) -> Seq<u8> {
        full_bytes(self.fields())
    }

    /// Whether this payload is what decoding `bytes` gives: the header fields
    /// from their first 30 bytes, with the send time carried into normal form,
    /// and the padding from the 928 after them.
    pub open spec fn read_from(self, bytes: Seq<u8>) -> bool {
        &&& (self.payload_type, self.seq, self.step, self.count) == (
            header_at(bytes).0,
            header_at(bytes).1,
            header_at(bytes).2,
            header_at(bytes).3,
        )
        &&& wire_time(bytes) == Some(self.time)
        &&& filler_matches(self.filler, bytes)
    }

    /// A payload of the given type sent at `time`: sequence number, step and
    /// count 0, standard padding.
    pub fn stamped(payload_type: u8, time: Timestamp) -> (p: BenchPayload)
        ensures
            p.payload_type == payload_type,
            p.seq == 0,
            p.step == 0,
            p.count == 0,
            p.time == time,
            is_standard_filler(p.filler),
    {
        BenchPayload {
            payload_type: payload_type,
            seq: 0,
            step: 0,
            count: 0,
            time: time,
            filler: [[FILLER_BYTE; 32]; 29],
        }
    }

    /// A payload of the given type stamped with the current time; `None` when
    /// the system clock reads a time before the Unix epoch, which the wire
    /// format cannot carry.
    pub fn new(payload_type: u8) -> (r: Option<BenchPayload>)
        ensures
            r matches Some(p) ==> {
                &&& p.payload_type == payload_type
                &&& p.seq == 0
                &&& p.step == 0
                &&& p.count == 0
                &&& p.time.wf()
                &&& is_standard_filler(p.filler)
            },
    {
        match clock_now() {
            Some(time) => Some(Self::stamped(payload_type, time)),
            None => None,
        }
    }

    /// The payload with its count set.
    pub fn with_count(self, count: u64) -> (p: BenchPayload)
        ensures
            p == (BenchPayload { count: count, ..self }),
    {
        BenchPayload { count: count, ..self }
    }

    /// The bytes of this payload on the wire (958 of them).
    pub fn encode(&self) -> (bytes: Vec<u8>)
        ensures
            bytes@ == self.spec_encode(),
            bytes@.len() == 958,
    {
        let v = (
            self.payload_type,
            self.seq,
            self.step,
            self.count,
            (self.time.secs, self.time.nanos),
            self.filler,
        );
        encode_full(&v)
    }

    /// Decodes a payload from the start of `bytes`; fails when fewer than 958
    /// bytes are there, or when the send time lies beyond what a system time
    /// holds. Bytes after the payload are ignored.
    pub fn decode(bytes: &[u8]) -> (r: Result<BenchPayload, DecodeError>)
        ensures
            r is Ok <==> bytes@.len() >= 958 && wire_time(bytes@) is Some,
            r matches Ok(p) ==> p.read_from(bytes@),
            r matches Err(e) ==> e == (if bytes@.len() < 958 {
                DecodeError::Truncated
            } else {
                DecodeError::TimeOutOfRange
            }),
    {
        match decode_full(bytes) {
            Ok(v) => match time_from_wire(v.4.0, v.4.1) {
                Some(time) => Ok(
                    BenchPayload {
                        payload_type: v.0,
                        seq: v.1,
                        step: v.2,
                        count: v.3,
                        time: time,
                        filler: v.5,
                    },
                ),
                None => Err(DecodeError::TimeOutOfRange),
            },
            Err(e) => Err(e),
        }
    }
}

/// Decoding the bytes of a payload, with any bytes after them, gives back that
/// payload, when its time is in normal form and a system time holds it.
pub proof fn lemma_decode_encode(p: BenchPayload, q: BenchPayload, rest: Seq<u8>)
    requires
        p.time.wf(),
        p.time.representable(),
        q.read_from(p.spec_encode() + rest),
    ensures
        q == p,
{
    let h = (p.payload_type, p.seq, p.step, p.count, (p.time.secs, p.time.nanos));
    let b = p.spec_encode() + rest;
    crate::wire::lemma_header_bytes_len(h);
    assert(b == crate::wire::header_bytes(h) + (crate::wire::filler_bytes(p.filler) + rest));
    crate::wire::lemma_header_roundtrip(h, crate::wire::filler_bytes(p.filler) + rest);
    assert forall|i: int, j: int| 0 <= i < 29 && 0 <= j < 32 implies q.filler[i][j] == p.filler[i][j] by {
        assert(filler_matches(q.filler, b));
        assert(q.filler[i][j] == b[30 + 32 * i + j]);
        assert(b[30 + 32 * i + j] == crate::wire::filler_bytes(p.filler)[32 * i + j]);
        assert((32 * i + j) / 32 == i);
        assert((32 * i + j) % 32 == j);
    }
    assert forall|i: int| 0 <= i < 29 implies q.filler[i] == p.filler[i] by {
        assert(q.filler[i] =~= p.filler[i]);
    }
    assert(q.filler =~= p.filler);
}

/// The receiver reads a sender payload, when at least 928 more bytes follow
/// it, as the same header with the sender's counter as its count: the
/// sequence number that the sender numbered a packet with is the one the
/// receiver counts.
pub proof fn lemma_reads_sender_payload(
    s: crate::utils::BenchPayload,
    q: BenchPayload,
    rest: Seq<u8>,
)
    requires
        s.time.wf(),
        s.time.representable(),
        q.read_from(s.spec_encode() + rest),
    ensures
        q.payload_type == s.payload_type,
        q.seq == s.seq,
        q.step == s.step,
        q.count == s.data,
        q.time == s.time,
{
    crate::wire::lemma_header_roundtrip(s.fields(), rest);
}

/// Writes the header of a receiver packet: version 4, five header words, time
/// to live 64, protocol 254, the two addresses and a total length of 1024
/// bytes. Every other byte of `packet` stays.
pub fn init_ipv4_packet(packet: &mut Vec<u8>, local_addr: [u8; 4], dist_addr: [u8; 4])
    requires
        old(packet)@.len() >= 20,
    ensures
        final(packet)@.len() == old(packet)@.len(),
        is_bench_header(final(packet)@, local_addr, dist_addr, 1024),
        forall|i: int|
            0 <= i < old(packet)@.len() && crate::ipv4::untouched_by_header(i)
                ==> #[trigger] final(packet)@[i] == old(packet)@[i],
{
    write_bench_header(packet, local_addr, dist_addr, 1024);
}

/// The packet that carries `payload` from `local_addr` to `dist_addr`: a
/// zeroed buffer of 1024 bytes with the receiver header, the encoded payload
/// from byte 20 on, and zeros in every other byte.
pub fn answer_packet(local_addr: [u8; 4], dist_addr: [u8; 4], payload: &BenchPayload) -> (pkt: Vec<u8>)
    ensures
        pkt@.len() == 1024,
        is_bench_header(pkt@, local_addr, dist_addr, 1024),
        forall|i: int| 0 <= i < 20 && crate::ipv4::untouched_by_header(i) ==> #[trigger] pkt@[i] == 0,
        pkt@.subrange(20, 978) == payload.spec_encode(),
        forall|i: int| 978 <= i < 1024 ==> #[trigger] pkt@[i] == 0,
{
    let mut pkt: Vec<u8> = Vec::new();
    let mut k: usize = 0;
    while k < 1024
        invariant
            k <= 1024,
            pkt@.len() == k,
            forall|i: int| 0 <= i < k ==> #[trigger] pkt@[i] == 0,
        decreases 1024 - k,
    {
        pkt.push(0);
        k = k + 1;
    }
    let ghost zeroed = pkt@;
    init_ipv4_packet(&mut pkt, local_addr, dist_addr);
    let ghost with_header = pkt@;
    let bytes = payload.encode();
    proof {
        assert(spec_total_length(with_header) == 1024) by {
            let (b2, b3) = (with_header[2], with_header[3]);
            assert(((b2 as u16) << 8u16) | (b3 as u16) == 1024u16) by (bit_vector)
                requires
                    b2 == (1024u16 >> 8u16) as u8,
                    b3 == 1024u16 as u8,
            ;
        }
    }
    put_payload(&mut pkt, bytes.as_slice());
    proof {
        assert forall|i: int| 0 <= i < 20 && crate::ipv4::untouched_by_header(i) implies #[trigger] pkt@[i] == 0 by {
            assert(pkt@[i] == with_header[i]);
            assert(with_header[i] == zeroed[i]);
        }
        assert(pkt@.subrange(20, 978) =~= bytes@);
        assert forall|i: int| 978 <= i < 1024 implies #[trigger] pkt@[i] == 0 by {
            assert(pkt@[i] == with_header[i]);
            assert(with_header[i] == zeroed[i]);
        }
    }
    pkt
}

} // verus!

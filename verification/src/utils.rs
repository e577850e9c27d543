//! The sending side's payload, its configuration, and the packets it sends.

use vstd::prelude::*;
use crate::clock::clock_now;
use crate::ipv4::{is_bench_header, put_payload, spec_total_length, write_bench_header};
use crate::wire::{
    decode_header, encode_header, header_at, header_bytes, time_from_wire, wire_time, DecodeError,
    HeaderFields, Timestamp,
};

pub use crate::encapsuler::PayloadType;

verus! {

/// The addresses of the benchmark machines and which of them are the local
/// and the distant one (numbered from 1 to 4).
pub struct Config {
    pub num_local: u16,
    pub num_dist: u16,
    pub ip1: String,
    pub ip2: String,
    pub ip3: String,
    pub ip4: String,
}

/// The configuration file's content: a `config` table.
pub struct Data {
    config: Config,
}

impl Data {
    pub fn new(config: Config) -> (d: Data)
        ensures
            d.spec_config() == config,
    {
        Data { config }
    }

    pub closed spec fn spec_config(self) -> Config {
        self.config
    }

    /// The configuration that the file holds.
    pub fn into_config(self) -> (c: Config)
        ensures
            c == self.spec_config(),
    {
        self.config
    }
}

/// Why a machine number does not name an address.
#[derive(Clone, Copy, Debug, PartialEq, Eq, Structural)]
pub enum PcNumberError {
    /// The number is 0: the configuration was not filled in.
    NotSet,
    /// The number is above 4.
    Unrecognized(u16),
}

impl Config {
    /// The address that machine number `n` has, if `n` is 1 to 4.
    pub open spec fn spec_address(self, n: u16) -> Option<String> {
        if n == 1 {
            Some(self.ip1)
        } else if n == 2 {
            Some(self.ip2)
        } else if n == 3 {
            Some(self.ip3)
        } else if n == 4 {
            Some(self.ip4)
        } else {
            None
        }
    }

    /// The address of machine number `n`: 1 to 4 name `ip1` to `ip4`, 0 means
    /// the number was not set, anything else is not recognised.
    pub fn address_of(&self, n: u16) -> (r: Result<&String, PcNumberError>)
        ensures
            r is Ok <==> 1 <= n <= 4,
            r matches Ok(a) ==> Some(*a) == self.spec_address(n),
            n == 1 ==> (r matches Ok(a) && *a == self.ip1),
            n == 2 ==> (r matches Ok(a) && *a == self.ip2),
            n == 3 ==> (r matches Ok(a) && *a == self.ip3),
            n == 4 ==> (r matches Ok(a) && *a == self.ip4),
            r matches Err(e) ==> (n == 0 ==> e == PcNumberError::NotSet) && (n > 4 ==> e
                == PcNumberError::Unrecognized(n)),
    {
        if n == 1 {
            Ok(&self.ip1)
        } else if n == 2 {
            Ok(&self.ip2)
        } else if n == 3 {
            Ok(&self.ip3)
        } else if n == 4 {
            Ok(&self.ip4)
        } else if n == 0 {
            Err(PcNumberError::NotSet)
        } else {
            Err(PcNumberError::Unrecognized(n))
        }
    }

    /// The distant machine's address.
    pub fn dist_address(&self) -> (r: Result<&String, PcNumberError>)
        ensures
            r is Ok <==> 1 <= self.num_dist <= 4,
            r matches Ok(a) ==> Some(*a) == self.spec_address(self.num_dist),
            self.num_dist == 1 ==> (r matches Ok(a) && *a == self.ip1),
            self.num_dist == 2 ==> (r matches Ok(a) && *a == self.ip2),
            self.num_dist == 3 ==> (r matches Ok(a) && *a == self.ip3),
            self.num_dist == 4 ==> (r matches Ok(a) && *a == self.ip4),
            r matches Err(e) ==> (self.num_dist == 0 ==> e == PcNumberError::NotSet) && (
            self.num_dist > 4 ==> e == PcNumberError::Unrecognized(self.num_dist)),
    {
        self.address_of(self.num_dist)
    }

    /// The local machine's address.
    pub fn local_address(&self) -> (r: Result<&String, PcNumberError>)
        ensures
            r is Ok <==> 1 <= self.num_local <= 4,
            r matches Ok(a) ==> Some(*a) == self.spec_address(self.num_local),
            self.num_local == 1 ==> (r matches Ok(a) && *a == self.ip1),
            self.num_local == 2 ==> (r matches Ok(a) && *a == self.ip2),
            self.num_local == 3 ==> (r matches Ok(a) && *a == self.ip3),
            self.num_local == 4 ==> (r matches Ok(a) && *a == self.ip4),
            r matches Err(e) ==> (self.num_local == 0 ==> e == PcNumberError::NotSet) && (
            self.num_local > 4 ==> e == PcNumberError::Unrecognized(self.num_local)),
    {
        self.address_of(self.num_local)
    }
}

/// A payload of the sending side: type, sequence number, step, a counter
/// (`data`), and the time it was sent.
#[derive(Clone, Copy, Debug, PartialEq, Eq, Structural)]
pub struct BenchPayload {
    pub payload_type: u8,
    pub seq: u64,
    pub step: u8,
    pub data: u64,
    pub time: Timestamp,
}

impl BenchPayload {
    /// The fields in wire order.
    pub open spec fn fields(self) -> HeaderFields {
        (self.payload_type, self.seq, self.step, self.data, (self.time.secs, self.time.nanos))
    }

    /// The payload built from fields in wire order.
    pub open spec fn from_fields(h: HeaderFields) -> BenchPayload {
        BenchPayload {
            payload_type: h.0,
            seq: h.1,
            step: h.2,
            data: h.3,
            time: Timestamp { secs: h.4.0, nanos: h.4.1 },
        }
    }

    /// The bytes of this payload on the wire.
    pub open spec fn spec_encode(self) -> Seq<u8> {
        header_bytes(self.fields())
    }

    /// The payload that decoding `bytes` gives: the header fields, with the
    /// send time carried into normal form; `None` when a system time cannot
    /// hold that time.
    pub open spec fn read_from(bytes: Seq<u8>) -> Option<BenchPayload> {
        match wire_time(bytes) {
            Some(t) => Some(BenchPayload { time: t, ..Self::from_fields(header_at(bytes)) }),
            None => None,
        }
    }

    /// What `decode` gives for `bytes`.
    pub open spec fn spec_decode(bytes: Seq<u8>) -> Result<BenchPayload, DecodeError> {
        if bytes.len() < 30 {
            Err(DecodeError::Truncated)
        } else {
            match Self::read_from(bytes) {
                Some(p) => Ok(p),
                None => Err(DecodeError::TimeOutOfRange),
            }
        }
    }

    /// A payload of the given type sent at `time`, with sequence number, step
    /// and counter 0.
    pub fn stamped(payload_type: u8, time: Timestamp) -> (p: BenchPayload)
        ensures
            p == (BenchPayload { payload_type: payload_type, seq: 0, step: 0, data: 0, time: time }),
    {
        BenchPayload { payload_type: payload_type, seq: 0, step: 0, data: 0, time: time }
    }

    /// A payload of the given type stamped with the current time; `None` when
    /// the system clock reads a time before the Unix epoch, which the wire
    /// format cannot carry.
    pub fn new(payload_type: u8) -> (r: Option<BenchPayload>)
        ensures
            r matches Some(p) ==> p.payload_type == payload_type && p.seq == 0 && p.step == 0
                && p.data == 0 && p.time.wf(),
    {
        match clock_now() {
            Some(time) => Some(Self::stamped(payload_type, time)),
            None => None,
        }
    }

    /// The bytes of this payload on the wire (30 of them).
    pub fn encode(&self) -> (bytes: Vec<u8>)
        ensures
            bytes@ == self.spec_encode(),
            bytes@.len() == 30,
    {
        let h = (self.payload_type, self.seq, self.step, self.data, (self.time.secs, self.time.nanos));
        encode_header(&h)
    }

    /// Decodes a payload from the start of `bytes`; fails when fewer than 30
    /// bytes are there, or when the send time lies beyond what a system time
    /// holds. Bytes after the payload are ignored.
    pub fn decode(bytes: &[u8]) -> (r: Result<BenchPayload, DecodeError>)
        ensures
            r == Self::spec_decode(bytes@),
    {
        match decode_header(bytes) {
            Ok(h) => match time_from_wire(h.4.0, h.4.1) {
                Some(time) => Ok(BenchPayload { payload_type: h.0, seq: h.1, step: h.2, data: h.3, time: time }),
                None => Err(DecodeError::TimeOutOfRange),
            },
            Err(e) => Err(e),
        }
    }
}

/// Decoding the bytes of a payload, with any bytes after them, gives back that
/// payload, when its time is in normal form and a system time holds it.
pub proof fn lemma_decode_encode(p: BenchPayload, rest: Seq<u8>)
    requires
        p.time.wf(),
        p.time.representable(),
    ensures
        BenchPayload::read_from(p.spec_encode() + rest) == Some(p),
{
    crate::wire::lemma_header_roundtrip(p.fields(), rest);
}

/// Encoding what was decoded from at least 30 bytes, whose time was already
/// in normal form, gives those 30 bytes back.
pub proof fn lemma_encode_decode(bytes: Seq<u8>, p: BenchPayload)
    requires
        bytes.len() >= 30,
        BenchPayload::read_from(bytes) == Some(p),
        header_at(bytes).4.1 < 1_000_000_000,
    ensures
        p.spec_encode() == bytes.subrange(0, 30),
{
    crate::wire::lemma_header_bytes_of_read(bytes);
    assert(p.fields() == header_at(bytes));
}

/// The sending side reads a receiver payload as the same header, with the
/// receiver's count as its counter: the count that an answer carries is the
/// counter that the sender decodes.
pub proof fn lemma_reads_receiver_payload(r: crate::encapsuler::BenchPayload, rest: Seq<u8>)
    requires
        r.time.wf(),
        r.time.representable(),
    ensures
        BenchPayload::read_from(r.spec_encode() + rest) == Some(
            BenchPayload {
                payload_type: r.payload_type,
                seq: r.seq,
                step: r.step,
                data: r.count,
                time: r.time,
            },
        ),
{
    let h = (r.payload_type, r.seq, r.step, r.count, (r.time.secs, r.time.nanos));
    assert(r.spec_encode() + rest == header_bytes(h) + (crate::wire::filler_bytes(r.filler) + rest));
    crate::wire::lemma_header_roundtrip(h, crate::wire::filler_bytes(r.filler) + rest);
}

/// Writes the header of a sender packet of `packet_size` bytes: version 4,
/// five header words, time to live 64, protocol 254, the two addresses and the
/// total length. Every other byte of `packet` stays.
pub fn init_ipv4_packet(packet: &mut Vec<u8>, local_addr: [u8; 4], dist_addr: [u8; 4], packet_size: u16)
    requires
        old(packet)@.len() >= 20,
    ensures
        final(packet)@.len() == old(packet)@.len(),
        is_bench_header(final(packet)@, local_addr, dist_addr, packet_size),
        forall|i: int|
            0 <= i < old(packet)@.len() && crate::ipv4::untouched_by_header(i)
                ==> #[trigger] final(packet)@[i] == old(packet)@[i],
{
    write_bench_header(packet, local_addr, dist_addr, packet_size);
}

/// The packet of `packet_size` bytes that carries `payload` from `local_addr`
/// to `dist_addr`: the sender header, the encoded payload from byte 20 on,
/// and zeros in every other byte.
pub fn bench_packet(local_addr: [u8; 4], dist_addr: [u8; 4], packet_size: u16, payload: &BenchPayload) -> (pkt: Vec<u8>)
    requires
        packet_size >= 50,
    ensures
        pkt@.len() == packet_size,
        is_bench_header(pkt@, local_addr, dist_addr, packet_size),
        forall|i: int| 0 <= i < 20 && crate::ipv4::untouched_by_header(i) ==> #[trigger] pkt@[i] == 0,
        pkt@.subrange(20, 50) == payload.spec_encode(),
        forall|i: int| 50 <= i < packet_size ==> #[trigger] pkt@[i] == 0,
{
    let mut pkt: Vec<u8> = Vec::new();
    let mut k: u16 = 0;
    while k < packet_size
        invariant
            k <= packet_size,
            pkt@.len() == k,
            forall|i: int| 0 <= i < k ==> #[trigger] pkt@[i] == 0,
        decreases packet_size - k,
    {
        pkt.push(0);
        k = k + 1;
    }
    let ghost zeroed = pkt@;
    init_ipv4_packet(&mut pkt, local_addr, dist_addr, packet_size);
    let ghost with_header = pkt@;
    let bytes = payload.encode();
    proof {
        assert(spec_total_length(with_header) == packet_size) by {
            let (b2, b3) = (with_header[2], with_header[3]);
            let t = packet_size;
            assert(((b2 as u16) << 8u16) | (b3 as u16) == t) by (bit_vector)
                requires
                    b2 == (t >> 8u16) as u8,
                    b3 == t as u8,
            ;
        }
    }
    put_payload(&mut pkt, bytes.as_slice());
    proof {
        assert forall|i: int| 0 <= i < 20 && crate::ipv4::untouched_by_header(i) implies #[trigger] pkt@[i] == 0 by {
            assert(pkt@[i] == with_header[i]);
            assert(with_header[i] == zeroed[i]);
        }
        assert(pkt@.subrange(20, 50) =~= bytes@);
        assert forall|i: int| 50 <= i < packet_size implies #[trigger] pkt@[i] == 0 by {
            assert(pkt@[i] == with_header[i]);
            assert(with_header[i] == zeroed[i]);
        }
    }
    pkt
}

/// Machine number `n` from 1 to 4 names the `n`-th address of the
/// configuration, and no other number names one.
pub proof fn lemma_machine_numbers(c: Config, n: u16)
    ensures
        c.spec_address(1) == Some(c.ip1),
        c.spec_address(2) == Some(c.ip2),
        c.spec_address(3) == Some(c.ip3),
        c.spec_address(4) == Some(c.ip4),
        c.spec_address(n) is Some <==> 1 <= n <= 4,
{
}

} // verus!

//! The byte layout of a benchmark payload.
//!
//! A payload is the bincode encoding (fixed-width integers, little endian) of
//! its fields in declaration order; a wall-clock time travels as seconds and
//! nanoseconds since the Unix epoch.

use vstd::prelude::*;

verus! {

/// A wall-clock instant, as seconds and nanoseconds since the Unix epoch.
#[derive(Clone, Copy, Debug, PartialEq, Eq, Structural)]
pub struct Timestamp {
    pub secs: u64,
    pub nanos: u32,
}

impl Timestamp {
    /// The sub-second part is below one second.
    pub open spec fn wf(self) -> bool {
        self.nanos < 1_000_000_000
    }

    /// The instant as nanoseconds since the epoch.
    pub open spec fn total_nanos(self) -> int {
        self.secs * 1_000_000_000 + self.nanos
    }

    /// Whether a system time can hold the instant: its seconds fit in an
    /// `i64`.
    pub open spec fn representable(self) -> bool {
        self.secs <= i64::MAX
    }
}

/// The instant that seconds and nanoseconds read from the wire stand for:
/// whole seconds among the nanoseconds carry into the seconds; `None` when the
/// seconds so carried go past what a system time holds (`i64::MAX`).
pub open spec fn spec_time_from_wire(secs: u64, nanos: u32) -> Option<Timestamp> {
    let carried = secs + nanos / 1_000_000_000;
    if carried <= i64::MAX {
        Some(Timestamp { secs: carried as u64, nanos: (nanos % 1_000_000_000) as u32 })
    } else {
        None
    }
}

/// The instant for seconds and nanoseconds read from the wire, as
/// `spec_time_from_wire` states it.
pub fn time_from_wire(secs: u64, nanos: u32) -> (r: Option<Timestamp>)
    ensures
        r == spec_time_from_wire(secs, nanos),
        r matches Some(t) ==> t.wf() && t.representable(),
{
    let extra: u64 = (nanos / 1_000_000_000) as u64;
    if secs <= i64::MAX as u64 && extra <= i64::MAX as u64 - secs {
        Some(Timestamp { secs: secs + extra, nanos: nanos % 1_000_000_000 })
    } else {
        None
    }
}

/// A time in normal form that a system time holds reads back as itself.
pub proof fn lemma_time_from_wire_normal(t: Timestamp)
    requires
        t.wf(),
        t.representable(),
    ensures
        spec_time_from_wire(t.secs, t.nanos) == Some(t),
{
}

/// Little-endian bytes of a `u64`.
pub open spec fn le_u64_bytes(v: u64) -> Seq<u8> {
    seq![
        v as u8,
        (v >> 8u64) as u8,
        (v >> 16u64) as u8,
        (v >> 24u64) as u8,
        (v >> 32u64) as u8,
        (v >> 40u64) as u8,
        (v >> 48u64) as u8,
        (v >> 56u64) as u8,
    ]
}

/// Little-endian bytes of a `u32`.
pub open spec fn le_u32_bytes(v: u32) -> Seq<u8> {
    seq![v as u8, (v >> 8u32) as u8, (v >> 16u32) as u8, (v >> 24u32) as u8]
}

/// The `u64` whose little-endian bytes start `b` at offset `i`.
pub open spec fn le_u64_at(b: Seq<u8>, i: int) -> u64 {
    (b[i] as u64) | ((b[i + 1] as u64) << 8u64) | ((b[i + 2] as u64) << 16u64) | ((b[i + 3] as u64)
        << 24u64) | ((b[i + 4] as u64) << 32u64) | ((b[i + 5] as u64) << 40u64) | ((b[i + 6] as u64)
        << 48u64) | ((b[i + 7] as u64) << 56u64)
}

/// The `u32` whose little-endian bytes start `b` at offset `i`.
pub open spec fn le_u32_at(b: Seq<u8>, i: int) -> u32 {
    (b[i] as u32) | ((b[i + 1] as u32) << 8u32) | ((b[i + 2] as u32) << 16u32) | ((b[i + 3] as u32)
        << 24u32)
}

/// Reading back the little-endian bytes of a `u64` gives it.
pub proof fn lemma_le_u64_roundtrip(v: u64)
    ensures
        le_u64_at(le_u64_bytes(v), 0) == v,
{
    let b = le_u64_bytes(v);
    let (b0, b1, b2, b3, b4, b5, b6, b7) = (b[0], b[1], b[2], b[3], b[4], b[5], b[6], b[7]);
    assert((b0 as u64) | ((b1 as u64) << 8u64) | ((b2 as u64) << 16u64) | ((b3 as u64) << 24u64)
        | ((b4 as u64) << 32u64) | ((b5 as u64) << 40u64) | ((b6 as u64) << 48u64) | ((b7 as u64)
        << 56u64) == v) by (bit_vector)
        requires
            b0 == v as u8,
            b1 == (v >> 8u64) as u8,
            b2 == (v >> 16u64) as u8,
            b3 == (v >> 24u64) as u8,
            b4 == (v >> 32u64) as u8,
            b5 == (v >> 40u64) as u8,
            b6 == (v >> 48u64) as u8,
            b7 == (v >> 56u64) as u8,
    ;
}

/// Writing out the `u64` read from eight bytes gives those bytes.
pub proof fn lemma_le_u64_bytes_roundtrip(b: Seq<u8>, i: int)
    requires
        0 <= i,
        i + 8 <= b.len(),
    ensures
        le_u64_bytes(le_u64_at(b, i)) == b.subrange(i, i + 8),
{
    let (b0, b1, b2, b3, b4, b5, b6, b7) = (
        b[i],
        b[i + 1],
        b[i + 2],
        b[i + 3],
        b[i + 4],
        b[i + 5],
        b[i + 6],
        b[i + 7],
    );
    let v = le_u64_at(b, i);
    assert(b0 == v as u8 && b1 == (v >> 8u64) as u8 && b2 == (v >> 16u64) as u8 && b3 == (v
        >> 24u64) as u8 && b4 == (v >> 32u64) as u8 && b5 == (v >> 40u64) as u8 && b6 == (v
        >> 48u64) as u8 && b7 == (v >> 56u64) as u8) by (bit_vector)
        requires
            v == (b0 as u64) | ((b1 as u64) << 8u64) | ((b2 as u64) << 16u64) | ((b3 as u64)
                << 24u64) | ((b4 as u64) << 32u64) | ((b5 as u64) << 40u64) | ((b6 as u64)
                << 48u64) | ((b7 as u64) << 56u64),
    ;
    assert(le_u64_bytes(v) =~= b.subrange(i, i + 8));
}

/// Reading back the little-endian bytes of a `u32` gives it.
pub proof fn lemma_le_u32_roundtrip(v: u32)
    ensures
        le_u32_at(le_u32_bytes(v), 0) == v,
{
    let b = le_u32_bytes(v);
    let (b0, b1, b2, b3) = (b[0], b[1], b[2], b[3]);
    assert((b0 as u32) | ((b1 as u32) << 8u32) | ((b2 as u32) << 16u32) | ((b3 as u32) << 24u32)
        == v) by (bit_vector)
        requires
            b0 == v as u8,
            b1 == (v >> 8u32) as u8,
            b2 == (v >> 16u32) as u8,
            b3 == (v >> 24u32) as u8,
    ;
}

/// Writing out the `u32` read from four bytes gives those bytes.
pub proof fn lemma_le_u32_bytes_roundtrip(b: Seq<u8>, i: int)
    requires
        0 <= i,
        i + 4 <= b.len(),
    ensures
        le_u32_bytes(le_u32_at(b, i)) == b.subrange(i, i + 4),
{
    let (b0, b1, b2, b3) = (b[i], b[i + 1], b[i + 2], b[i + 3]);
    let v = le_u32_at(b, i);
    assert(b0 == v as u8 && b1 == (v >> 8u32) as u8 && b2 == (v >> 16u32) as u8 && b3 == (v
        >> 24u32) as u8) by (bit_vector)
        requires
            v == (b0 as u32) | ((b1 as u32) << 8u32) | ((b2 as u32) << 16u32) | ((b3 as u32)
                << 24u32),
    ;
    assert(le_u32_bytes(v) =~= b.subrange(i, i + 4));
}

/// The fields that open every payload, in wire order: type, sequence number,
/// step, counter, and the send time as (seconds, nanoseconds).
pub type HeaderFields = (u8, u64, u8, u64, (u64, u32));

/// The filler block that pads a receiver payload.
pub type Filler = [[u8; 32]; 29];

/// A receiver payload: the header fields followed by the filler block.
pub type FullFields = (u8, u64, u8, u64, (u64, u32), [[u8; 32]; 29]);

/// The wire bytes of the header fields.
pub open spec fn header_bytes(h: HeaderFields) -> Seq<u8> {
    seq![h.0] + le_u64_bytes(h.1) + seq![h.2] + le_u64_bytes(h.3) + le_u64_bytes(h.4.0)
        + le_u32_bytes(h.4.1)
}

/// The header fields read from the first bytes of `b`.
pub open spec fn header_at(b: Seq<u8>) -> HeaderFields {
    (b[0], le_u64_at(b, 1), b[9], le_u64_at(b, 10), (le_u64_at(b, 18), le_u32_at(b, 26)))
}

/// The wire bytes of a filler block: its rows one after the other.
pub open spec fn filler_bytes(f: Filler) -> Seq<u8> {
    Seq::new(928, |k: int| f[k / 32][k % 32])
}

/// Whether `f` holds, row after row, the bytes of `b` from offset 30 on.
pub open spec fn filler_matches(f: Filler, b: Seq<u8>) -> bool {
    forall|i: int, j: int|
        0 <= i < 29 && 0 <= j < 32 ==> #[trigger] f[i][j] == b[30 + 32 * i + j]
}

/// The wire bytes of a receiver payload.
pub open spec fn full_bytes(v: FullFields) -> Seq<u8> {
    header_bytes((v.0, v.1, v.2, v.3, v.4)) + filler_bytes(v.5)
}

pub proof fn lemma_header_bytes_len(h: HeaderFields)
    ensures
        header_bytes(h).len() == 30,
{
}

/// Reading the header back from its own bytes, or from any bytes that they
/// start, gives the same fields.
pub proof fn lemma_header_roundtrip(h: HeaderFields, rest: Seq<u8>)
    ensures
        header_at(header_bytes(h) + rest) == h,
{
    let b = header_bytes(h) + rest;
    lemma_le_u64_roundtrip(h.1);
    lemma_le_u64_roundtrip(h.3);
    lemma_le_u64_roundtrip(h.4.0);
    lemma_le_u32_roundtrip(h.4.1);
    assert(b.subrange(1, 9) =~= le_u64_bytes(h.1));
    assert(b.subrange(10, 18) =~= le_u64_bytes(h.3));
    assert(b.subrange(18, 26) =~= le_u64_bytes(h.4.0));
    assert(b.subrange(26, 30) =~= le_u32_bytes(h.4.1));
    assert(le_u64_at(b, 1) == le_u64_at(b.subrange(1, 9), 0));
    assert(le_u64_at(b, 10) == le_u64_at(b.subrange(10, 18), 0));
    assert(le_u64_at(b, 18) == le_u64_at(b.subrange(18, 26), 0));
    assert(le_u32_at(b, 26) == le_u32_at(b.subrange(26, 30), 0));
}

/// Writing back the header read from a buffer gives the buffer's first bytes.
pub proof fn lemma_header_bytes_of_read(b: Seq<u8>)
    requires
        b.len() >= 30,
    ensures
        header_bytes(header_at(b)) == b.subrange(0, 30),
{
    lemma_le_u64_bytes_roundtrip(b, 1);
    lemma_le_u64_bytes_roundtrip(b, 10);
    lemma_le_u64_bytes_roundtrip(b, 18);
    lemma_le_u32_bytes_roundtrip(b, 26);
    assert(header_bytes(header_at(b)) =~= b.subrange(0, 30));
}

#[verifier::external_type_specification]
#[verifier::external_body]
pub struct ExBincodeErrorKind(bincode::ErrorKind);

/// `bincode::serialize` on the header fields. bincode's default functions
/// write fixed-width integers in little-endian order and a tuple as its
/// elements one after the other; writing integers into a `Vec` cannot fail.
#[verifier::external_body]
fn bincode_serialize_header(h: &HeaderFields) -> (r: Result<Vec<u8>, Box<bincode::ErrorKind>>)
    ensures
        r.is_ok(),
        r matches Ok(b) ==> b@ == header_bytes(*h),
{
    bincode::serialize(h)
}

/// `bincode::deserialize` into the header fields. It reads the first 30 bytes
/// (trailing bytes are allowed by bincode's default functions) and fails, with
/// an unexpected end of input, exactly when fewer bytes are there.
#[verifier::external_body]
fn bincode_deserialize_header(bytes: &[u8]) -> (r: Result<HeaderFields, Box<bincode::ErrorKind>>)
    ensures
        r.is_ok() == (bytes@.len() >= 30),
        r matches Ok(h) ==> h == header_at(bytes@),
{
    bincode::deserialize(bytes)
}

/// `bincode::serialize` on a receiver payload: the header fields as above,
/// then the 29 rows of 32 bytes of the filler, each byte as it is.
#[verifier::external_body]
fn bincode_serialize_full(v: &FullFields) -> (r: Result<Vec<u8>, Box<bincode::ErrorKind>>)
    ensures
        r.is_ok(),
        r matches Ok(b) ==> b@ == full_bytes(*v),
{
    bincode::serialize(v)
}

/// `bincode::deserialize` into a receiver payload. It reads the first 958
/// bytes and fails exactly when fewer bytes are there.
#[verifier::external_body]
fn bincode_deserialize_full(bytes: &[u8]) -> (r: Result<FullFields, Box<bincode::ErrorKind>>)
    ensures
        r.is_ok() == (bytes@.len() >= 958),
        r matches Ok(v) ==> (v.0, v.1, v.2, v.3, v.4) == header_at(bytes@) && filler_matches(
            v.5,
            bytes@,
        ),
{
    bincode::deserialize(bytes)
}

/// Why bytes do not decode to a payload.
#[derive(Clone, Copy, Debug, PartialEq, Eq, Structural)]
pub enum DecodeError {
    /// Too few bytes for the fields that the payload must carry.
    Truncated,
    /// The send time lies beyond what a system time holds.
    TimeOutOfRange,
}

/// The send time carried by the header at the start of `b`, if a system time
/// holds it.
pub open spec fn wire_time(b: Seq<u8>) -> Option<Timestamp> {
    spec_time_from_wire(header_at(b).4.0, header_at(b).4.1)
}

/// Encodes the header fields.
pub fn encode_header(h: &HeaderFields) -> (bytes: Vec<u8>)
    ensures
        bytes@ == header_bytes(*h),
{
    match bincode_serialize_header(h) {
        Ok(b) => b,
        Err(_) => {
            proof {
                assert(false);
            }
            Vec::new()
        },
    }
}

/// Decodes the header fields from the start of `bytes`.
pub fn decode_header(bytes: &[u8]) -> (r: Result<HeaderFields, DecodeError>)
    ensures
        bytes@.len() >= 30 <==> r is Ok,
        r matches Ok(h) ==> h == header_at(bytes@),
        r matches Err(e) ==> e == DecodeError::Truncated,
{
    match bincode_deserialize_header(bytes) {
        Ok(h) => Ok(h),
        Err(_) => Err(DecodeError::Truncated),
    }
}

/// Encodes a receiver payload.
pub fn encode_full(v: &FullFields) -> (bytes: Vec<u8>)
    ensures
        bytes@ == full_bytes(*v),
{
    match bincode_serialize_full(v) {
        Ok(b) => b,
        Err(_) => {
            proof {
                assert(false);
            }
            Vec::new()
        },
    }
}

/// Decodes a receiver payload from the start of `bytes`.
pub fn decode_full(bytes: &[u8]) -> (r: Result<FullFields, DecodeError>)
    ensures
        bytes@.len() >= 958 <==> r is Ok,
        r matches Ok(v) ==> (v.0, v.1, v.2, v.3, v.4) == header_at(bytes@) && filler_matches(
            v.5,
            bytes@,
        ),
        r matches Err(e) ==> e == DecodeError::Truncated,
{
    match bincode_deserialize_full(bytes) {
        Ok(v) => Ok(v),
        Err(_) => Err(DecodeError::Truncated),
    }
}

} // verus!

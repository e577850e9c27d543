//! The IPv4 header of a benchmark packet, written through `pnet`'s packet view.
//!
//! A packet is a byte buffer; the header starts it and the payload follows the
//! 20 header bytes.

use vstd::prelude::*;
use pnet::packet::ip::IpNextHeaderProtocol;
use pnet::packet::ipv4::MutableIpv4Packet;

verus! {

/// The IP protocol number that benchmark packets carry (reserved for testing).
pub const BENCH_PROTOCOL: u8 = 254;

/// The time to live that benchmark packets start with.
pub const BENCH_TTL: u8 = 64;

/// The header-length nibble of a packet.
pub open spec fn spec_header_length(b: Seq<u8>) -> u8 {
    b[0] & 0x0fu8
}

/// The total-length field of a packet (big endian, bytes 2 and 3).
pub open spec fn spec_total_length(b: Seq<u8>) -> u16 {
    ((b[2] as u16) << 8u16) | (b[3] as u16)
}

/// `b` with the four bytes from `at` replaced by `a`.
pub open spec fn with_bytes4(b: Seq<u8>, at: int, a: [u8; 4]) -> Seq<u8> {
    b.update(at, a[0]).update(at + 1, a[1]).update(at + 2, a[2]).update(at + 3, a[3])
}

/// `MutableIpv4Packet::new` over the buffer, then `set_version`: the high
/// nibble of byte 0 becomes the low nibble of `v`, the rest of the buffer stays.
/// `new` gives a view for any buffer of at least 20 bytes.
#[verifier::external_body]
fn pnet_set_version(buf: &mut Vec<u8>, v: u8)
    requires
        old(buf)@.len() >= 20,
    ensures
        final(buf)@ == old(buf)@.update(0, (old(buf)@[0] & 0x0fu8) | ((v & 0x0fu8) << 4u8)),
{
    MutableIpv4Packet::new(&mut buf[..]).unwrap().set_version(v);
}

/// `MutableIpv4Packet::new` over the buffer, then `set_header_length`: the
/// low nibble of byte 0 becomes the low nibble of `v`, the rest stays.
#[verifier::external_body]
fn pnet_set_header_length(buf: &mut Vec<u8>, v: u8)
    requires
        old(buf)@.len() >= 20,
    ensures
        final(buf)@ == old(buf)@.update(0, (old(buf)@[0] & 0xf0u8) | (v & 0x0fu8)),
{
    MutableIpv4Packet::new(&mut buf[..]).unwrap().set_header_length(v);
}

/// `MutableIpv4Packet::new` over the buffer, then `set_total_length`: bytes 2
/// and 3 become `v` in big-endian order, the rest stays.
#[verifier::external_body]
fn pnet_set_total_length(buf: &mut Vec<u8>, v: u16)
    requires
        old(buf)@.len() >= 20,
    ensures
        final(buf)@ == old(buf)@.update(2, (v >> 8u16) as u8).update(3, v as u8),
{
    MutableIpv4Packet::new(&mut buf[..]).unwrap().set_total_length(v);
}

/// `MutableIpv4Packet::new` over the buffer, then `set_ttl`: byte 8 becomes
/// `v`, the rest stays.
#[verifier::external_body]
fn pnet_set_ttl(buf: &mut Vec<u8>, v: u8)
    requires
        old(buf)@.len() >= 20,
    ensures
        final(buf)@ == old(buf)@.update(8, v),
{
    MutableIpv4Packet::new(&mut buf[..]).unwrap().set_ttl(v);
}

/// `MutableIpv4Packet::new` over the buffer, then `set_next_level_protocol`
/// with `IpNextHeaderProtocol::new(v)`: byte 9 becomes `v`, the rest stays.
#[verifier::external_body]
fn pnet_set_next_level_protocol(buf: &mut Vec<u8>, v: u8)
    requires
        old(buf)@.len() >= 20,
    ensures
        final(buf)@ == old(buf)@.update(9, v),
{
    MutableIpv4Packet::new(&mut buf[..]).unwrap().set_next_level_protocol(
        IpNextHeaderProtocol::new(v),
    );
}

/// `MutableIpv4Packet::new` over the buffer, then `set_source` with the
/// address of octets `a`: bytes 12 to 15 become the octets, the rest stays.
#[verifier::external_body]
fn pnet_set_source(buf: &mut Vec<u8>, a: [u8; 4])
    requires
        old(buf)@.len() >= 20,
    ensures
        final(buf)@ == with_bytes4(old(buf)@, 12, a),
{
    MutableIpv4Packet::new(&mut buf[..]).unwrap().set_source(a.into());
}

/// `MutableIpv4Packet::new` over the buffer, then `set_destination` with the
/// address of octets `a`: bytes 16 to 19 become the octets, the rest stays.
#[verifier::external_body]
fn pnet_set_destination(buf: &mut Vec<u8>, a: [u8; 4])
    requires
        old(buf)@.len() >= 20,
    ensures
        final(buf)@ == with_bytes4(old(buf)@, 16, a),
{
    MutableIpv4Packet::new(&mut buf[..]).unwrap().set_destination(a.into());
}

/// `MutableIpv4Packet::new` over the buffer, then `set_payload`. With a
/// header length of 5 words the payload starts at byte 20; `set_payload`
/// asserts that `vals` fits in the total length less the header, and copies it
/// there. The rest of the buffer stays.
#[verifier::external_body]
fn pnet_set_payload(buf: &mut Vec<u8>, vals: &[u8])
    requires
        old(buf)@.len() >= 20,
        spec_header_length(old(buf)@) == 5,
        vals@.len() + 20 <= spec_total_length(old(buf)@),
        vals@.len() + 20 <= old(buf)@.len(),
    ensures
        final(buf)@ == old(buf)@.subrange(0, 20) + vals@ + old(buf)@.subrange(
            20 + vals@.len() as int,
            old(buf)@.len() as int,
        ),
{
    MutableIpv4Packet::new(&mut buf[..]).unwrap().set_payload(vals);
}

/// Whether `b` starts with the header of a benchmark packet from `local` to
/// `dist` of `total_length` bytes: version 4, five header words, time to live
/// 64, protocol 254, and the two addresses.
pub open spec fn is_bench_header(b: Seq<u8>, local: [u8; 4], dist: [u8; 4], total_length: u16) -> bool {
    &&& b.len() >= 20
    &&& b[0] == 0x45u8
    &&& b[2] == (total_length >> 8u16) as u8
    &&& b[3] == total_length as u8
    &&& b[8] == 64u8
    &&& b[9] == 254u8
    &&& b[12] == local[0] && b[13] == local[1] && b[14] == local[2] && b[15] == local[3]
    &&& b[16] == dist[0] && b[17] == dist[1] && b[18] == dist[2] && b[19] == dist[3]
}

/// The bytes that writing a benchmark header leaves alone.
pub open spec fn untouched_by_header(i: int) -> bool {
    i != 0 && i != 2 && i != 3 && i != 8 && i != 9 && !(12 <= i < 20)
}

/// Writes the header of a benchmark packet from `local` to `dist` of
/// `total_length` bytes into the start of `packet`; every other byte stays.
pub fn write_bench_header(packet: &mut Vec<u8>, local: [u8; 4], dist: [u8; 4], total_length: u16)
    requires
        old(packet)@.len() >= 20,
    ensures
        final(packet)@.len() == old(packet)@.len(),
        is_bench_header(final(packet)@, local, dist, total_length),
        forall|i: int|
            0 <= i < old(packet)@.len() && untouched_by_header(i) ==> #[trigger] final(packet)@[i]
                == old(packet)@[i],
{
    let ghost b0 = packet@;
    pnet_set_version(packet, 4);
    pnet_set_header_length(packet, 5);
    pnet_set_source(packet, local);
    pnet_set_destination(packet, dist);
    pnet_set_ttl(packet, BENCH_TTL);
    pnet_set_next_level_protocol(packet, BENCH_PROTOCOL);
    pnet_set_total_length(packet, total_length);
    proof {
        let x = b0[0];
        assert((((x & 0x0fu8) | ((4u8 & 0x0fu8) << 4u8)) & 0xf0u8) | (5u8 & 0x0fu8) == 0x45u8)
            by (bit_vector);
    }
}

/// Copies `payload` into `packet` right after a benchmark header that leaves
/// room for it; the header and the bytes after the payload stay.
pub fn put_payload(packet: &mut Vec<u8>, payload: &[u8])
    requires
        old(packet)@.len() >= 20,
        old(packet)@[0] == 0x45u8,
        payload@.len() + 20 <= spec_total_length(old(packet)@),
        payload@.len() + 20 <= old(packet)@.len(),
    ensures
        final(packet)@ == old(packet)@.subrange(0, 20) + payload@ + old(packet)@.subrange(
            20 + payload@.len() as int,
            old(packet)@.len() as int,
        ),
{
    proof {
        let x = packet@[0];
        assert(x == 0x45u8 ==> x & 0x0fu8 == 5u8) by (bit_vector);
    }
    pnet_set_payload(packet, payload);
}

} // verus!

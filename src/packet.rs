use vstd::prelude::*;
use crate::clock::wall_clock_micros;

verus! {

/// Size of the ICMP echo header in bytes.
pub const ICMP_HEADER_SIZE: usize = 8;
/// Payload size of a standard ping.
pub const DEFAULT_PAYLOAD_SIZE: usize = 56;
/// Smallest payload: room for the send timestamp.
pub const MIN_PAYLOAD_SIZE: usize = 8;
/// Largest payload that fits, with its header, in one IPv4 datagram's ICMP part.
pub const MAX_PAYLOAD_SIZE: usize = 65527;

/// The RFC 792 checksum that pnet computes over an ICMP message, the checksum
/// field itself left out of the sum.
pub uninterp spec fn icmp_checksum_of(message: Seq<u8>) -> u16;

/// Relies on `pnet::packet::icmp::checksum`: the internet checksum of the
/// message, skipping its checksum word. Its 32-bit sum cannot overflow for a
/// message of at most 65535 bytes.
#[verifier::external_body]
fn icmp_checksum(message: &[u8]) -> (r: u16)
    requires
        4 <= message@.len() <= 65535,
    ensures
        r == icmp_checksum_of(message@),
{
    pnet::packet::icmp::checksum(&pnet::packet::icmp::IcmpPacket::new(message).unwrap())
}

pub open spec fn high_byte(x: u16) -> u8 {
    (x / 256) as u8
}

pub open spec fn low_byte(x: u16) -> u8 {
    (x % 256) as u8
}

/// The payload size actually used: never below the timestamp's eight bytes.
pub open spec fn effective_payload(payload_size: usize) -> int {
    if payload_size < MIN_PAYLOAD_SIZE {
        MIN_PAYLOAD_SIZE as int
    } else {
        payload_size as int
    }
}

/// Echo-request header with the given checksum field.
pub open spec fn echo_header(identifier: u16, sequence: u16, checksum: u16) -> Seq<u8> {
    seq![
        8u8,
        0u8,
        high_byte(checksum),
        low_byte(checksum),
        high_byte(identifier),
        low_byte(identifier),
        high_byte(sequence),
        low_byte(sequence),
    ]
}

/// Byte `k` of the big-endian encoding of `ts`.
pub open spec fn ts_byte(ts: u64, k: int) -> u8 {
    ((ts >> ((56 - 8 * k) as u64)) & 0xffu64) as u8
}

pub open spec fn timestamp_bytes(ts: u64) -> Seq<u8> {
    Seq::new(8, |k: int| ts_byte(ts, k))
}

/// The filler after the timestamp: byte `i` holds `i & 0xff`.
pub open spec fn fill_pattern(n: int) -> Seq<u8> {
    Seq::new(n as nat, |i: int| (i % 256) as u8)
}

/// The echo request before its checksum is set.
pub open spec fn echo_unsummed(identifier: u16, sequence: u16, payload_size: usize, ts: u64) -> Seq<
    u8,
> {
    echo_header(identifier, sequence, 0) + timestamp_bytes(ts) + fill_pattern(
        effective_payload(payload_size) - 8,
    )
}

/// The complete echo request: the unsummed message with its checksum filled in.
pub open spec fn echo_request_bytes(
    identifier: u16,
    sequence: u16,
    payload_size: usize,
    ts: u64,
) -> Seq<u8> {
    let body = echo_unsummed(identifier, sequence, payload_size, ts);
    let c = icmp_checksum_of(body);
    body.update(2, high_byte(c)).update(3, low_byte(c))
}

/// Builds an ICMP echo request whose payload starts with the timestamp `ts`
/// (microseconds, big-endian).
pub fn build_echo_request_at(identifier: u16, sequence: u16, payload_size: usize, ts: u64) -> (r:
    Vec<u8>)
    requires
        payload_size <= MAX_PAYLOAD_SIZE,
    ensures
        r@ == echo_request_bytes(identifier, sequence, payload_size, ts),
        r@.len() == ICMP_HEADER_SIZE + effective_payload(payload_size),
{
    let size = if payload_size < MIN_PAYLOAD_SIZE {
        MIN_PAYLOAD_SIZE
    } else {
        payload_size
    };
    let mut buf: Vec<u8> = Vec::new();
    buf.push(8u8);
    buf.push(0u8);
    buf.push(0u8);
    buf.push(0u8);
    buf.push((identifier / 256) as u8);
    buf.push((identifier % 256) as u8);
    buf.push((sequence / 256) as u8);
    buf.push((sequence % 256) as u8);
    let ghost header = echo_header(identifier, sequence, 0);
    assert(buf@ =~= header);
    let mut k: usize = 0;
    while k < 8
        invariant
            k <= 8,
            buf@ =~= header + timestamp_bytes(ts).take(k as int),
        decreases 8 - k,
    {
        let shift: u64 = 56 - 8 * (k as u64);
        buf.push(((ts >> shift) & 0xffu64) as u8);
        k = k + 1;
        assert(timestamp_bytes(ts).take(k as int) =~= timestamp_bytes(ts).take(k - 1).push(
            ts_byte(ts, k - 1),
        ));
    }
    assert(timestamp_bytes(ts).take(8) =~= timestamp_bytes(ts));
    let fill = size - 8;
    let mut i: usize = 0;
    while i < fill
        invariant
            i <= fill,
            fill == effective_payload(payload_size) - 8,
            fill <= MAX_PAYLOAD_SIZE,
            buf@ =~= header + timestamp_bytes(ts) + fill_pattern(i as int),
        decreases fill - i,
    {
        buf.push((i % 256) as u8);
        i = i + 1;
        assert(fill_pattern(i as int) =~= fill_pattern(i - 1).push(((i - 1) % 256) as u8));
    }
    let c = icmp_checksum(buf.as_slice());
    buf.set(2, (c / 256) as u8);
    buf.set(3, (c % 256) as u8);
    buf
}

/// Builds an ICMP echo request of `8 + max(payload_size, 8)` bytes: type 8,
/// code 0, the identifier and sequence, the current wall-clock time in
/// microseconds, a `i & 0xff` filler, and the RFC 792 checksum.
pub fn build_echo_request(identifier: u16, sequence: u16, payload_size: usize) -> (r: Vec<u8>)
    requires
        payload_size <= MAX_PAYLOAD_SIZE,
    ensures
        exists|ts: u64| r@ == echo_request_bytes(identifier, sequence, payload_size, ts),
        r@.len() == ICMP_HEADER_SIZE + effective_payload(payload_size),
{
    let ts = wall_clock_micros();
    build_echo_request_at(identifier, sequence, payload_size, ts)
}

} // verus!

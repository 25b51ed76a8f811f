use vstd::prelude::*;
use crate::addr::Addr;

verus! {

/// A probe's logical identity: the TTL it was sent with and the tick number
/// modulo 256. It travels in the 16-bit ICMP sequence field.
#[derive(Clone, Copy, Debug, PartialEq, Eq, Hash, Structural)]
pub struct ProbeId {
    pub ttl: u8,
    pub seq: u8,
}

/// The kind of ICMP message that answered a probe.
#[derive(Clone, Copy, Debug, PartialEq, Eq, Structural)]
pub enum IcmpResponseType {
    EchoReply,
    TimeExceeded,
    DestUnreachable(u8),
}

/// Outcome of one probe: its identity, and for an answered probe the
/// round-trip time in microseconds, the responder and the kind of answer.
#[derive(Clone, Copy, Debug)]
pub struct ProbeResult {
    pub id: ProbeId,
    pub rtt: Option<u64>,
    pub responder: Option<Addr>,
    pub icmp_type: Option<IcmpResponseType>,
}

impl ProbeId {
    /// The 16-bit sequence value of this identity: TTL in the high byte.
    pub open spec fn spec_sequence(self) -> u16 {
        (self.ttl * 256 + self.seq) as u16
    }

    /// The identity carried by a 16-bit sequence value.
    pub open spec fn spec_from_sequence(sequence: u16) -> ProbeId {
        ProbeId { ttl: (sequence / 256) as u8, seq: (sequence % 256) as u8 }
    }

    pub fn new(ttl: u8, seq: u8) -> (r: ProbeId)
        ensures
            r == (ProbeId { ttl, seq }),
    {
        ProbeId { ttl, seq }
    }

    /// Encodes TTL and tick into the ICMP sequence field: `(ttl << 8) | seq`.
    pub fn to_sequence(&self) -> (r: u16)
        ensures
            r == self.spec_sequence(),
            r == self.ttl * 256 + self.seq,
    {
        let t = self.ttl as u16;
        let s = self.seq as u16;
        assert((t << 8u16) | s == t * 256 + s) by (bit_vector)
            requires
                t < 256,
                s < 256,
        ;
        (t << 8u16) | s
    }

    /// Decodes an ICMP sequence field: high byte is the TTL, low byte the tick.
    pub fn from_sequence(sequence: u16) -> (r: ProbeId)
        ensures
            r == ProbeId::spec_from_sequence(sequence),
    {
        assert((sequence >> 8u16) == sequence / 256) by (bit_vector);
        assert((sequence & 0xffu16) == sequence % 256) by (bit_vector);
        ProbeId { ttl: (sequence >> 8u16) as u8, seq: (sequence & 0xffu16) as u8 }
    }

    /// Exec equality that Verus reads as `==`.
    pub fn same(&self, other: &ProbeId) -> (r: bool)
        ensures
            r == (*self == *other),
    {
        self.ttl == other.ttl && self.seq == other.seq
    }
}

/// Decoding the encoding of any identity gives that identity back.
pub proof fn lemma_sequence_round_trip(id: ProbeId)
    ensures
        ProbeId::spec_from_sequence(id.spec_sequence()) == id,
{
}

/// Every 16-bit sequence value is the encoding of the identity it decodes to.
pub proof fn lemma_sequence_onto(sequence: u16)
    ensures
        ProbeId::spec_from_sequence(sequence).spec_sequence() == sequence,
{
}

} // verus!

use vstd::prelude::*;
use crate::addr::Addr;
use crate::probe_id::{IcmpResponseType, ProbeId};

verus! {

/// ICMP type of an echo reply.
pub const ICMP_ECHO_REPLY: u8 = 0;
/// ICMP type of a destination-unreachable message.
pub const ICMP_DEST_UNREACHABLE: u8 = 3;
/// ICMP type of an echo request.
pub const ICMP_ECHO_REQUEST: u8 = 8;
/// ICMP type of a time-exceeded message.
pub const ICMP_TIME_EXCEEDED: u8 = 11;

/// A received datagram attributed to one of this session's probes.
#[derive(Clone, Copy, Debug)]
pub struct ParsedResponse {
    pub responder: Addr,
    pub probe_id: ProbeId,
    pub response_type: IcmpResponseType,
}

/// The big-endian 16-bit value at `i` and `i + 1`.
pub open spec fn be16(d: Seq<u8>, i: int) -> u16 {
    (d[i] * 256 + d[i + 1]) as u16
}

/// Length in bytes of the IPv4 header that starts at `off`: its IHL field times four.
pub open spec fn ihl_bytes(d: Seq<u8>, off: int) -> int {
    (d[off] % 16) * 4
}

/// The echo identifier and sequence embedded in an ICMP error whose ICMP header
/// starts at `icmp`: the quoted IPv4 header starts eight bytes in, and the
/// quoted ICMP header after it must be an echo request.
pub open spec fn quoted_echo(d: Seq<u8>, icmp: int) -> Option<(u16, u16)> {
    if d.len() < icmp + 36 {
        None
    } else {
        let inner = icmp + 8;
        let echo = inner + ihl_bytes(d, inner);
        if d.len() < echo + 8 || d[echo] != ICMP_ECHO_REQUEST {
            None
        } else {
            Some((be16(d, echo + 4), be16(d, echo + 6)))
        }
    }
}

/// Where the ICMP header of an IPv4 datagram starts, if the datagram is long
/// enough to hold an IPv4 header and an eight-byte ICMP header after it.
pub open spec fn icmp_offset(d: Seq<u8>) -> Option<int> {
    if d.len() < 20 || d.len() < ihl_bytes(d, 0) + 8 {
        None
    } else {
        Some(ihl_bytes(d, 0))
    }
}

/// The response kind that an ICMP header at `icmp` announces, for the kinds
/// that answer probes.
pub open spec fn response_kind(d: Seq<u8>, icmp: int) -> Option<IcmpResponseType> {
    if d[icmp] == ICMP_ECHO_REPLY {
        Some(IcmpResponseType::EchoReply)
    } else if d[icmp] == ICMP_TIME_EXCEEDED {
        Some(IcmpResponseType::TimeExceeded)
    } else if d[icmp] == ICMP_DEST_UNREACHABLE {
        Some(IcmpResponseType::DestUnreachable(d[icmp + 1]))
    } else {
        None
    }
}

/// The identifier and sequence of the probe that a datagram answers: read
/// from the reply itself for an echo reply, from the quoted request otherwise.
pub open spec fn recovered_echo(d: Seq<u8>) -> Option<(u16, u16)> {
    match icmp_offset(d) {
        None => None,
        Some(icmp) => match response_kind(d, icmp) {
            None => None,
            Some(IcmpResponseType::EchoReply) => Some((be16(d, icmp + 4), be16(d, icmp + 6))),
            Some(_) => quoted_echo(d, icmp),
        },
    }
}

/// What the correlator makes of a datagram: the probe and the kind of answer,
/// when the datagram answers a probe carrying `identifier`.
pub open spec fn spec_parse(d: Seq<u8>, identifier: u16) -> Option<(ProbeId, IcmpResponseType)> {
    match recovered_echo(d) {
        Some((id, seq)) if id == identifier => Some(
            (ProbeId::spec_from_sequence(seq), response_kind(d, icmp_offset(d).unwrap()).unwrap()),
        ),
        _ => None,
    }
}

fn read_be16(d: &[u8], i: usize) -> (r: u16)
    requires
        i + 1 < d@.len(),
    ensures
        r == be16(d@, i as int),
{
    (d[i] as u16) * 256 + (d[i + 1] as u16)
}

fn read_ihl(d: &[u8], off: usize) -> (r: usize)
    requires
        off < d@.len(),
    ensures
        r == ihl_bytes(d@, off as int),
        r <= 60,
{
    ((d[off] % 16) as usize) * 4
}

/// Reads the probe identity quoted in an ICMP error message.
fn parse_icmp_error_payload(d: &[u8], icmp: usize) -> (r: Option<(u16, u16)>)
    requires
        icmp + 8 <= d@.len(),
    ensures
        r == quoted_echo(d@, icmp as int),
{
    if d.len() - icmp < 36 {
        return None;
    }
    let inner = icmp + 8;
    let quoted_ihl = read_ihl(d, inner);
    if d.len() - inner < quoted_ihl + 8 {
        return None;
    }
    let echo = inner + quoted_ihl;
    if d[echo] != ICMP_ECHO_REQUEST {
        return None;
    }
    Some((read_be16(d, echo + 4), read_be16(d, echo + 6)))
}

/// Parses a raw IPv4 datagram holding an ICMP message and correlates it with
/// this session's probes. Short or foreign datagrams, and ICMP types that do
/// not answer probes, give `None`; no input makes it fail otherwise.
pub fn parse_icmp_response(data: &[u8], responder: Addr, our_identifier: u16) -> (r: Option<
    ParsedResponse,
>)
    ensures
        match spec_parse(data@, our_identifier) {
            None => r is None,
            Some((probe_id, response_type)) => r == Some(
                ParsedResponse { responder, probe_id, response_type },
            ),
        },
{
    if data.len() < 20 {
        return None;
    }
    let icmp = read_ihl(data, 0);
    if data.len() < icmp + 8 {
        return None;
    }
    let kind = data[icmp];
    let response_type = if kind == ICMP_ECHO_REPLY {
        IcmpResponseType::EchoReply
    } else if kind == ICMP_TIME_EXCEEDED {
        IcmpResponseType::TimeExceeded
    } else if kind == ICMP_DEST_UNREACHABLE {
        IcmpResponseType::DestUnreachable(data[icmp + 1])
    } else {
        return None;
    };
    let echo = if kind == ICMP_ECHO_REPLY {
        (read_be16(data, icmp + 4), read_be16(data, icmp + 6))
    } else {
        match parse_icmp_error_payload(data, icmp) {
            Some(e) => e,
            None => return None,
        }
    };
    if echo.0 != our_identifier {
        return None;
    }
    Some(ParsedResponse { responder, probe_id: ProbeId::from_sequence(echo.1), response_type })
}

/// Whether the identifier recovered from a datagram is `identifier`.
pub open spec fn carries_identifier(d: Seq<u8>, identifier: u16) -> bool {
    match recovered_echo(d) {
        Some((id, _)) => id == identifier,
        None => false,
    }
}

/// A datagram whose recovered identifier differs from the session's, or from
/// which no identifier can be recovered, is never attributed to a probe.
pub proof fn lemma_foreign_identifier_rejected(d: Seq<u8>, identifier: u16)
    ensures
        !carries_identifier(d, identifier) ==> spec_parse(d, identifier) is None,
{
}

} // verus!

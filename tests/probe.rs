use ttl::{
    build_echo_request, build_echo_request_at, parse_icmp_response, Addr, IcmpResponseType,
    ProbeId, DEFAULT_PAYLOAD_SIZE, ICMP_HEADER_SIZE, MIN_PAYLOAD_SIZE,
};

fn ipv4_header() -> Vec<u8> {
    let mut h = vec![0u8; 20];
    h[0] = 0x45;
    h[8] = 64;
    h[9] = 1;
    h
}

fn echo_reply(identifier: u16, sequence: u16) -> Vec<u8> {
    let mut d = ipv4_header();
    d.extend_from_slice(&[0, 0, 0, 0]);
    d.extend_from_slice(&identifier.to_be_bytes());
    d.extend_from_slice(&sequence.to_be_bytes());
    d.extend_from_slice(&[0u8; 8]);
    d
}

fn icmp_error(kind: u8, code: u8, inner_type: u8, identifier: u16, sequence: u16) -> Vec<u8> {
    let mut d = ipv4_header();
    d.extend_from_slice(&[kind, code, 0, 0, 0, 0, 0, 0]);
    d.extend_from_slice(&ipv4_header());
    d.extend_from_slice(&[inner_type, 0, 0, 0]);
    d.extend_from_slice(&identifier.to_be_bytes());
    d.extend_from_slice(&sequence.to_be_bytes());
    d
}

fn folded_sum(b: &[u8]) -> u32 {
    let mut sum: u32 = 0;
    for pair in b.chunks(2) {
        let hi = pair[0] as u32;
        let lo = if pair.len() > 1 { pair[1] as u32 } else { 0 };
        sum += (hi << 8) | lo;
    }
    while sum >> 16 != 0 {
        sum = (sum >> 16) + (sum & 0xffff);
    }
    sum
}

#[test]
fn test_probe_id_round_trip() {
    let original = ProbeId::new(15, 42);
    let sequence = original.to_sequence();
    let decoded = ProbeId::from_sequence(sequence);
    assert_eq!(original.ttl, decoded.ttl);
    assert_eq!(original.seq, decoded.seq);
}

#[test]
fn probe_id_round_trip_every_pair() {
    for t in 0..=255u8 {
        for s in 0..=255u8 {
            let id = ProbeId::new(t, s);
            let sequence = id.to_sequence();
            assert_eq!(sequence, ((t as u16) << 8) | s as u16);
            assert_eq!(ProbeId::from_sequence(sequence), id);
        }
    }
}

#[test]
fn test_build_echo_request() {
    let packet = build_echo_request(1234, 5678, DEFAULT_PAYLOAD_SIZE);
    assert_eq!(packet.len(), ICMP_HEADER_SIZE + DEFAULT_PAYLOAD_SIZE);
    assert_eq!(packet[0], 8);
    assert_eq!(packet[1], 0);
}

#[test]
fn test_build_echo_request_custom_size() {
    let packet = build_echo_request(1234, 5678, 1400);
    assert_eq!(packet.len(), ICMP_HEADER_SIZE + 1400);

    let packet = build_echo_request(1234, 5678, 0);
    assert_eq!(packet.len(), ICMP_HEADER_SIZE + MIN_PAYLOAD_SIZE);
}

#[test]
fn echo_request_layout_and_checksum() {
    let ts: u64 = 0x0102_0304_0506_0708;
    let packet = build_echo_request_at(0x1234, 0xabcd, 20, ts);
    assert_eq!(packet.len(), 28);
    assert_eq!(&packet[4..8], &[0x12, 0x34, 0xab, 0xcd]);
    assert_eq!(&packet[8..16], &[1, 2, 3, 4, 5, 6, 7, 8]);
    for i in 0..12 {
        assert_eq!(packet[16 + i], i as u8);
    }
    assert_ne!(&packet[2..4], &[0, 0]);
    assert_eq!(folded_sum(&packet), 0xffff);
}

#[test]
fn echo_request_filler_wraps_at_256() {
    let packet = build_echo_request_at(1, 2, 300, 0);
    assert_eq!(packet.len(), 308);
    assert_eq!(packet[16 + 255], 255);
    assert_eq!(packet[16 + 256], 0);
    assert_eq!(packet[16 + 291], 35);
    assert_eq!(folded_sum(&packet), 0xffff);
}

#[test]
fn echo_reply_with_our_identifier_is_attributed() {
    let d = echo_reply(0x4242, ProbeId::new(3, 7).to_sequence());
    let responder = Addr::v4(192, 0, 2, 1);
    let r = parse_icmp_response(&d, responder, 0x4242).unwrap();
    assert_eq!(r.responder, responder);
    assert_eq!(r.probe_id, ProbeId::new(3, 7));
    assert_eq!(r.response_type, IcmpResponseType::EchoReply);
}

#[test]
fn foreign_identifier_is_dropped() {
    let d = echo_reply(0x1111, ProbeId::new(3, 7).to_sequence());
    assert!(parse_icmp_response(&d, Addr::v4(192, 0, 2, 1), 0x4242).is_none());
    let e = icmp_error(11, 0, 8, 0x1111, 0x0100);
    assert!(parse_icmp_response(&e, Addr::v4(10, 0, 0, 1), 0x4242).is_none());
}

#[test]
fn time_exceeded_recovers_quoted_probe() {
    let d = icmp_error(11, 0, 8, 0x4242, ProbeId::new(5, 9).to_sequence());
    let r = parse_icmp_response(&d, Addr::v4(10, 0, 0, 5), 0x4242).unwrap();
    assert_eq!(r.probe_id, ProbeId::new(5, 9));
    assert_eq!(r.response_type, IcmpResponseType::TimeExceeded);
}

#[test]
fn dest_unreachable_keeps_code() {
    let d = icmp_error(3, 13, 8, 0x4242, ProbeId::new(2, 1).to_sequence());
    let r = parse_icmp_response(&d, Addr::v4(10, 0, 0, 2), 0x4242).unwrap();
    assert_eq!(r.response_type, IcmpResponseType::DestUnreachable(13));
    assert_eq!(r.probe_id, ProbeId::new(2, 1));
}

#[test]
fn quoted_non_echo_is_dropped() {
    let d = icmp_error(11, 0, 13, 0x4242, 0x0101);
    assert!(parse_icmp_response(&d, Addr::v4(10, 0, 0, 1), 0x4242).is_none());
}

#[test]
fn short_and_unknown_packets_are_dropped() {
    let responder = Addr::v4(10, 0, 0, 1);
    assert!(parse_icmp_response(&[], responder, 1).is_none());
    assert!(parse_icmp_response(&[0x45; 19], responder, 1).is_none());
    let full = echo_reply(1, 1);
    assert!(parse_icmp_response(&full[..27], responder, 1).is_none());
    assert!(parse_icmp_response(&full[..28], responder, 1).is_some());
    let err = icmp_error(11, 0, 8, 1, 1);
    assert!(parse_icmp_response(&err[..err.len() - 1], responder, 1).is_none());
    let mut other = echo_reply(1, 1);
    other[20] = 5;
    assert!(parse_icmp_response(&other, responder, 1).is_none());
}

#[test]
fn header_length_field_is_honoured() {
    let mut d = vec![0u8; 24];
    d[0] = 0x46;
    d.extend_from_slice(&[0, 0, 0, 0, 0x42, 0x42, 0x02, 0x03]);
    let r = parse_icmp_response(&d, Addr::v4(10, 0, 0, 1), 0x4242).unwrap();
    assert_eq!(r.probe_id, ProbeId::new(2, 3));
}

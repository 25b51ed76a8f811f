use ttl::{
    first_batch, new_pending_map, next_seq, parse_icmp_response, reap_timeout_us, Addr, Config,
    EnrichValue, Enrichment, IxInfo, PendingTable, ProbeId, Session, Target, TickPlan,
    LOOKUP_BATCH,
};

const ID: u16 = 0x5151;

fn ipv4_header() -> Vec<u8> {
    let mut h = vec![0u8; 20];
    h[0] = 0x45;
    h
}

fn echo_reply(identifier: u16, sequence: u16) -> Vec<u8> {
    let mut d = ipv4_header();
    d.extend_from_slice(&[0, 0, 0, 0]);
    d.extend_from_slice(&identifier.to_be_bytes());
    d.extend_from_slice(&sequence.to_be_bytes());
    d
}

fn time_exceeded(identifier: u16, sequence: u16) -> Vec<u8> {
    let mut d = ipv4_header();
    d.extend_from_slice(&[11, 0, 0, 0, 0, 0, 0, 0]);
    d.extend_from_slice(&ipv4_header());
    d.extend_from_slice(&[8, 0, 0, 0]);
    d.extend_from_slice(&identifier.to_be_bytes());
    d.extend_from_slice(&sequence.to_be_bytes());
    d
}

fn target_addr() -> Addr {
    Addr::v4(10, 0, 0, 3)
}

fn session(max_ttl: u8, count: Option<u64>) -> Session {
    let config = Config { interval_us: 1_000_000, max_ttl, count, payload_size: 56 };
    Session::new(Target::new("example.net".to_string(), target_addr()), config)
}

fn deliver(s: &mut Session, p: &mut PendingTable, datagram: &[u8], from: Addr, now: u64) -> bool {
    match parse_icmp_response(datagram, from, ID) {
        Some(r) => s.apply_response(p, &r, now),
        None => false,
    }
}

#[test]
fn synthetic_path_of_three_routers() {
    let mut s = session(3, None);
    let mut p = new_pending_map();
    for ttl in 1..=3u8 {
        assert!(s.record_probe(&mut p, ProbeId::new(ttl, 0), 1_000));
    }
    assert_eq!(p.len(), 3);
    let r1 = Addr::v4(10, 0, 0, 1);
    let r2 = Addr::v4(10, 0, 0, 2);
    assert!(deliver(&mut s, &mut p, &time_exceeded(ID, ProbeId::new(1, 0).to_sequence()), r1, 1_400));
    assert!(!s.complete);
    assert!(deliver(&mut s, &mut p, &time_exceeded(ID, ProbeId::new(2, 0).to_sequence()), r2, 1_900));
    assert!(!s.complete);
    assert!(deliver(&mut s, &mut p, &echo_reply(ID, ProbeId::new(3, 0).to_sequence()), target_addr(), 2_500));
    assert!(s.complete);
    let expected = [(r1, 400u64), (r2, 900), (target_addr(), 1_500)];
    for (i, (ip, rtt)) in expected.iter().enumerate() {
        let h = s.hop(i as u8 + 1).unwrap();
        assert_eq!(h.ttl, i as u8 + 1);
        assert_eq!(h.sent, 1);
        assert_eq!(h.received, 1);
        assert_eq!(h.responders.len(), 1);
        assert_eq!(h.responders[0].ip, *ip);
        assert_eq!(h.responders[0].min_rtt, *rtt);
        assert_eq!(h.primary, Some(*ip));
    }
    assert_eq!(p.len(), 0);
    assert_eq!(s.total_sent, 3);
}

#[test]
fn identifier_mismatch_updates_nothing() {
    let mut s = session(3, None);
    let mut p = new_pending_map();
    assert!(s.record_probe(&mut p, ProbeId::new(3, 0), 1_000));
    let d = echo_reply(ID ^ 0xffff, ProbeId::new(3, 0).to_sequence());
    assert!(!deliver(&mut s, &mut p, &d, target_addr(), 1_200));
    for h in &s.hops {
        assert_eq!(h.received, 0);
        assert!(h.responders.is_empty());
    }
    assert!(!s.complete);
    assert_eq!(p.len(), 1);
}

#[test]
fn sequence_wrap_over_260_ticks() {
    let mut s = session(1, None);
    let mut p = new_pending_map();
    let mut seq: u8 = 0;
    let mut now: u64 = 10_000;
    for _ in 0..260 {
        match s.plan_tick() {
            TickPlan::Probe(ttls) => {
                assert_eq!(ttls, vec![1u8]);
                for ttl in ttls {
                    assert!(s.record_probe(&mut p, ProbeId::new(ttl, seq), now));
                    assert!(p.len() <= 1);
                    let d = echo_reply(ID, ProbeId::new(ttl, seq).to_sequence());
                    assert!(deliver(&mut s, &mut p, &d, target_addr(), now + 250));
                }
            }
            other => panic!("unexpected plan {:?}", other),
        }
        seq = next_seq(seq);
        now += 1_000_000;
        s.reap_pending(&mut p, now, reap_timeout_us(s.config.interval_us));
        assert!(p.len() <= 1);
    }
    let h = s.hop(1).unwrap();
    assert_eq!(h.sent, 260);
    assert_eq!(h.received, 260);
    assert_eq!(h.responders[0].received, 260);
    assert_eq!(seq, (260 % 256) as u8);
}

#[test]
fn late_or_duplicate_answers_are_dropped() {
    let mut s = session(2, None);
    let mut p = new_pending_map();
    assert!(s.record_probe(&mut p, ProbeId::new(2, 5), 100));
    let d = echo_reply(ID, ProbeId::new(2, 5).to_sequence());
    assert!(deliver(&mut s, &mut p, &d, target_addr(), 300));
    assert!(!deliver(&mut s, &mut p, &d, target_addr(), 400));
    let h = s.hop(2).unwrap();
    assert_eq!(h.received, 1);
    assert!(h.received <= h.sent);
    assert!(!deliver(&mut s, &mut p, &echo_reply(ID, ProbeId::new(1, 9).to_sequence()), target_addr(), 500));
}

#[test]
fn counters_never_decrease() {
    let mut s = session(2, None);
    let mut p = new_pending_map();
    let mut last: Vec<(u64, u64)> = s.hops.iter().map(|h| (h.sent, h.received)).collect();
    for tick in 0..20u64 {
        let seq = tick as u8;
        for ttl in 1..=2u8 {
            s.record_probe(&mut p, ProbeId::new(ttl, seq), tick * 1_000_000);
        }
        if tick % 3 != 0 {
            let d = time_exceeded(ID, ProbeId::new(1, seq).to_sequence());
            deliver(&mut s, &mut p, &d, Addr::v4(10, 0, 0, 1), tick * 1_000_000 + 500);
        }
        s.reap_pending(&mut p, tick * 1_000_000 + 999_999, 2_000_000);
        for (h, (sent, received)) in s.hops.iter().zip(last.iter()) {
            assert!(h.sent >= *sent);
            assert!(h.received >= *received);
            assert!(h.received <= h.sent);
        }
        last = s.hops.iter().map(|h| (h.sent, h.received)).collect();
    }
    assert_eq!(s.hop(1).unwrap().sent, 20);
    assert_eq!(s.hop(1).unwrap().received, 13);
    assert_eq!(s.hop(1).unwrap().loss_pct(), 3500);
    assert_eq!(s.hop(2).unwrap().loss_pct(), 10000);
}

#[test]
fn reaping_marks_timeouts() {
    let mut s = session(1, None);
    let mut p = new_pending_map();
    assert!(s.record_probe(&mut p, ProbeId::new(1, 0), 0));
    assert!(deliver(&mut s, &mut p, &echo_reply(ID, 1 << 8), target_addr(), 100));
    assert!(s.record_probe(&mut p, ProbeId::new(1, 1), 1_000_000));
    assert_eq!(s.reap_pending(&mut p, 2_500_000, 2_000_000), 0);
    assert_eq!(s.reap_pending(&mut p, 3_000_001, 2_000_000), 1);
    assert_eq!(p.len(), 0);
    let h = s.hop(1).unwrap();
    assert_eq!(h.responders[0].recent, vec![Some(100), None]);
    assert_eq!(h.sent, 2);
    assert_eq!(h.received, 1);
}

#[test]
fn reap_timeout_has_two_second_floor() {
    assert_eq!(reap_timeout_us(100_000), 2_000_000);
    assert_eq!(reap_timeout_us(1_000_000), 2_000_000);
    assert_eq!(reap_timeout_us(1_500_000), 3_000_000);
    assert_eq!(reap_timeout_us(u64::MAX), u64::MAX);
}

#[test]
fn tick_plan_honours_pause_count_and_completion() {
    let mut s = session(3, Some(2));
    let mut p = new_pending_map();
    s.paused = true;
    assert!(matches!(s.plan_tick(), TickPlan::Paused));
    s.paused = false;
    match s.plan_tick() {
        TickPlan::Probe(v) => assert_eq!(v, vec![1, 2, 3]),
        other => panic!("unexpected plan {:?}", other),
    }
    for ttl in 1..=3u8 {
        s.record_probe(&mut p, ProbeId::new(ttl, 0), 0);
    }
    let d = time_exceeded(ID, ProbeId::new(1, 0).to_sequence());
    assert!(deliver(&mut s, &mut p, &d, Addr::v4(10, 0, 0, 1), 10));
    let d = echo_reply(ID, ProbeId::new(2, 0).to_sequence());
    assert!(deliver(&mut s, &mut p, &d, target_addr(), 20));
    assert!(s.complete);
    match s.plan_tick() {
        TickPlan::Probe(v) => assert_eq!(v, vec![1, 2]),
        other => panic!("unexpected plan {:?}", other),
    }
    for ttl in 1..=3u8 {
        s.record_probe(&mut p, ProbeId::new(ttl, 1), 0);
    }
    assert_eq!(s.total_sent, 6);
    assert!(matches!(s.plan_tick(), TickPlan::CountReached));
}

#[test]
fn record_probe_rejects_unknown_ttl() {
    let mut s = session(2, None);
    let mut p = new_pending_map();
    assert!(!s.record_probe(&mut p, ProbeId::new(0, 0), 0));
    assert!(!s.record_probe(&mut p, ProbeId::new(3, 0), 0));
    assert_eq!(p.len(), 0);
    assert_eq!(s.total_sent, 0);
    assert_eq!(next_seq(255), 0);
    assert_eq!(next_seq(7), 8);
}

#[test]
fn hop_lookup_and_discovery() {
    let mut s = session(4, None);
    let mut p = new_pending_map();
    assert!(s.hop(0).is_none());
    assert!(s.hop(5).is_none());
    assert_eq!(s.hop(4).unwrap().ttl, 4);
    assert!(s.discovered_hops().is_empty());
    assert!(s.last_responding_hop().is_none());
    s.record_probe(&mut p, ProbeId::new(2, 0), 0);
    s.record_probe(&mut p, ProbeId::new(3, 0), 0);
    let d = time_exceeded(ID, ProbeId::new(2, 0).to_sequence());
    deliver(&mut s, &mut p, &d, Addr::v4(10, 0, 0, 2), 10);
    let found: Vec<u8> = s.discovered_hops().iter().map(|h| h.ttl).collect();
    assert_eq!(found, vec![2, 3]);
    assert_eq!(s.last_responding_hop().unwrap().ttl, 2);
}

#[test]
fn enrichment_with_hostnames_present_issues_no_lookups() {
    let mut s = session(2, None);
    let mut p = new_pending_map();
    s.record_probe(&mut p, ProbeId::new(1, 0), 0);
    let r1 = Addr::v4(10, 0, 0, 1);
    deliver(&mut s, &mut p, &time_exceeded(ID, ProbeId::new(1, 0).to_sequence()), r1, 10);
    assert_eq!(s.addrs_missing_hostname(), vec![r1]);
    s.apply_enrichment(r1, &EnrichValue::Hostname("core1.example.net".to_string()));
    let before = format!("{:?}", s.hops);
    let todo = s.addrs_missing_hostname();
    assert!(todo.is_empty());
    assert!(first_batch(&todo, LOOKUP_BATCH).is_empty());
    assert_eq!(format!("{:?}", s.hops), before);
    assert_eq!(s.hops[0].responders[0].hostname.as_deref(), Some("core1.example.net"));
}

#[test]
fn enrichment_reaches_every_hop_of_an_address() {
    let mut s = session(3, None);
    let mut p = new_pending_map();
    let r = Addr::v4(10, 0, 0, 9);
    for ttl in 1..=3u8 {
        s.record_probe(&mut p, ProbeId::new(ttl, 0), 0);
        deliver(&mut s, &mut p, &time_exceeded(ID, ProbeId::new(ttl, 0).to_sequence()), r, 5);
    }
    assert_eq!(s.addrs_missing_ix(), vec![r, r, r]);
    let info = IxInfo { name: "LINX".to_string(), city: Some("London".to_string()), country: None };
    s.apply_enrichment(r, &EnrichValue::Ix(info));
    assert!(s.addrs_missing_ix().is_empty());
    for h in &s.hops {
        assert_eq!(h.responders[0].ix.as_ref().unwrap().name, "LINX");
        assert!(h.responders[0].hostname.is_none());
    }
    assert_eq!(s.addrs_lacking(Enrichment::Hostname).len(), 3);
}

#[test]
fn batches_take_the_first_addresses() {
    let addrs: Vec<Addr> = (0..15u32).map(Addr::V4).collect();
    let batch = first_batch(&addrs, LOOKUP_BATCH);
    assert_eq!(batch.len(), 10);
    assert_eq!(batch[9], Addr::V4(9));
    assert_eq!(first_batch(&addrs[..3].to_vec(), LOOKUP_BATCH).len(), 3);
}

#[test]
fn export_name_uses_target_and_start_time() {
    let mut s = session(1, None);
    s.started_at = 1_700_000_000_000_000;
    assert_eq!(s.export_file_name().unwrap(), "ttl-example.net-20231114-221320.json");
    assert_eq!(ttl::export_file_name("a", "b"), "ttl-a-b.json");
}

#[test]
fn reaping_counts_and_marks_each_expired_probe() {
    let mut s = session(2, None);
    let mut p = new_pending_map();
    let r1 = Addr::v4(10, 0, 0, 1);
    assert!(s.record_probe(&mut p, ProbeId::new(1, 0), 0));
    assert!(deliver(&mut s, &mut p, &time_exceeded(ID, ProbeId::new(1, 0).to_sequence()), r1, 10));
    for seq in 1..=3u8 {
        assert!(s.record_probe(&mut p, ProbeId::new(1, seq), seq as u64));
    }
    assert!(s.record_probe(&mut p, ProbeId::new(2, 1), 1));
    assert!(s.record_probe(&mut p, ProbeId::new(1, 4), 5_000_000));
    assert_eq!(s.reap_pending(&mut p, 3_000_000, 2_000_000), 4);
    assert_eq!(p.len(), 1);
    let h = s.hop(1).unwrap();
    assert_eq!(h.responders[0].recent, vec![Some(10), None, None, None]);
    assert_eq!(h.responders[0].received, 1);
    assert!(s.hop(2).unwrap().responders.is_empty());
    assert_eq!(s.reap_pending(&mut p, 3_000_000, 2_000_000), 0);
}

#[test]
fn tick_plan_stays_within_count() {
    let mut s = session(3, Some(2));
    let mut p = new_pending_map();
    for ttl in 1..=3u8 {
        s.record_probe(&mut p, ProbeId::new(ttl, 0), 0);
    }
    s.record_probe(&mut p, ProbeId::new(1, 1), 0);
    s.record_probe(&mut p, ProbeId::new(2, 1), 0);
    assert_eq!(s.total_sent, 5);
    match s.plan_tick() {
        TickPlan::Probe(v) => assert_eq!(v, vec![1]),
        other => panic!("unexpected plan {:?}", other),
    }
    s.record_probe(&mut p, ProbeId::new(1, 2), 0);
    assert!(matches!(s.plan_tick(), TickPlan::CountReached));
}

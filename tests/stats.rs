use ttl::{isqrt, Addr, Hop, ResponderStats, RECENT_WINDOW};

#[test]
fn mean_and_variance_are_exact() {
    let mut st = ResponderStats::new(Addr::v4(10, 0, 0, 1));
    for rtt in [10u64, 20, 30, 40] {
        st.record_response(rtt);
    }
    assert_eq!(st.received, 4);
    assert_eq!(st.rtt_sum, 100);
    assert_eq!(st.rtt_sq_sum, 3000);
    assert_eq!(st.avg_rtt(), 25);
    // population variance 125, standard deviation 11.18
    assert_eq!(st.stddev(), 11);
    assert_eq!(st.min_rtt, 10);
    assert_eq!(st.max_rtt, 40);
}

#[test]
fn streaming_matches_batch_formulas() {
    let samples = [1200u64, 980, 1530, 1010, 999, 2500, 1200];
    let mut st = ResponderStats::new(Addr::v4(10, 0, 0, 1));
    let mut mean = 0.0f64;
    let mut m2 = 0.0f64;
    for (k, &x) in samples.iter().enumerate() {
        st.record_response(x);
        let delta = x as f64 - mean;
        mean += delta / (k + 1) as f64;
        m2 += delta * (x as f64 - mean);
    }
    let n = samples.len() as f64;
    let sum: u64 = samples.iter().sum();
    assert_eq!(st.avg_rtt(), sum / samples.len() as u64);
    assert!((st.rtt_sum as f64 / n - mean).abs() < 1e-9);
    assert_eq!(st.stddev(), (m2 / n).sqrt() as u64);
}

#[test]
fn stddev_needs_two_samples() {
    let mut st = ResponderStats::new(Addr::v4(10, 0, 0, 1));
    assert_eq!(st.stddev(), 0);
    assert_eq!(st.avg_rtt(), 0);
    st.record_response(500);
    assert_eq!(st.stddev(), 0);
    assert_eq!(st.avg_rtt(), 500);
    st.record_response(500);
    assert_eq!(st.stddev(), 0);
}

#[test]
fn jitter_follows_rfc3550() {
    let mut st = ResponderStats::new(Addr::v4(10, 0, 0, 1));
    st.record_response(100);
    assert_eq!(st.jitter_x16, 0);
    st.record_response(200);
    // J = 0 + (100 - 0) / 16 = 6.25 microseconds
    assert_eq!(st.jitter_x16, 100);
    assert_eq!(st.jitter(), 6);
    st.record_response(100);
    // J16 = 100 + 100 - (100 + 8) / 16
    assert_eq!(st.jitter_x16, 194);
    assert_eq!(st.jitter(), 12);
}

#[test]
fn loss_is_one_minus_ratio() {
    let mut st = ResponderStats::new(Addr::v4(10, 0, 0, 1));
    assert_eq!(st.loss_pct(), 0);
    st.sent = 4;
    st.received = 3;
    assert_eq!(st.loss_pct(), 2500);
    st.sent = 3;
    st.received = 2;
    assert_eq!(st.loss_pct(), 3333);
    st.sent = 5;
    st.received = 0;
    assert_eq!(st.loss_pct(), 10000);
    st.sent = 5;
    st.received = 5;
    assert_eq!(st.loss_pct(), 0);
}

#[test]
fn recent_window_is_bounded() {
    let mut st = ResponderStats::new(Addr::v4(10, 0, 0, 1));
    for i in 0..70u64 {
        if i % 7 == 0 {
            st.record_timeout();
        } else {
            st.record_response(i);
        }
    }
    assert_eq!(st.recent.len(), RECENT_WINDOW);
    assert_eq!(st.recent[59], Some(69));
    assert_eq!(st.recent[0], Some(10));
    assert_eq!(st.recent[4], None);
    assert_eq!(st.received, 60);
}

#[test]
fn integer_square_root() {
    assert_eq!(isqrt(0), 0);
    assert_eq!(isqrt(1), 1);
    assert_eq!(isqrt(3), 1);
    assert_eq!(isqrt(4), 2);
    assert_eq!(isqrt(125), 11);
    assert_eq!(isqrt(u128::MAX), u64::MAX);
    assert_eq!(isqrt((1u128 << 64) - 1), (1u64 << 32) - 1);
}

#[test]
fn primary_is_most_answered_first_seen_on_ties() {
    let a = Addr::v4(10, 0, 0, 1);
    let b = Addr::v4(10, 0, 0, 2);
    let mut hop = Hop::new(4);
    assert_eq!(hop.primary, None);
    assert!(hop.primary_stats().is_none());
    hop.record_sent();
    hop.record_response(a, 100);
    hop.record_sent();
    hop.record_response(b, 200);
    assert_eq!(hop.primary, Some(a));
    hop.record_sent();
    hop.record_response(b, 210);
    assert_eq!(hop.primary, Some(b));
    assert_eq!(hop.primary_stats().unwrap().ip, b);
    assert_eq!(hop.received, 3);
    assert_eq!(hop.responders.len(), 2);
    assert_eq!(hop.responders[1].sent, 3);
    assert_eq!(hop.responders[0].sent, 1);
    hop.record_sent();
    assert_eq!(hop.loss_pct(), 2500);
}

#[test]
fn hop_timeout_marks_every_responder() {
    let mut hop = Hop::new(2);
    hop.record_sent();
    hop.record_response(Addr::v4(10, 0, 0, 1), 100);
    hop.record_sent();
    hop.record_response(Addr::V6(1), 100);
    hop.record_timeout();
    assert_eq!(hop.responders[0].recent, vec![Some(100), None]);
    assert_eq!(hop.responders[1].recent, vec![Some(100), None]);
    assert_eq!(hop.received, 2);
}

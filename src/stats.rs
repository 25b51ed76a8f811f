use vstd::prelude::*;
use crate::addr::Addr;

verus! {

/// Largest round-trip time a sample may carry, in microseconds (about 71
/// minutes, far beyond any reap timeout).
pub const MAX_RTT_US: u64 = 0xffff_ffff;
/// Most samples one responder aggregates; keeps the exact variance in 128 bits.
pub const MAX_SAMPLES: u64 = 0xffff_ffff;
/// Length of the rolling window of recent samples.
pub const RECENT_WINDOW: usize = 60;

/// Autonomous-system enrichment of a responder.
#[derive(Clone, Debug)]
pub struct AsnInfo {
    pub number: u32,
    pub name: String,
    pub prefix: Option<String>,
}

/// Geographic enrichment of a responder; coordinates in millionths of a degree.
#[derive(Clone, Debug)]
pub struct GeoInfo {
    pub city: Option<String>,
    pub region: Option<String>,
    pub country: String,
    pub latitude_e6: Option<i64>,
    pub longitude_e6: Option<i64>,
}

/// Internet-Exchange enrichment of a responder.
#[derive(Clone, Debug)]
pub struct IxInfo {
    pub name: String,
    pub city: Option<String>,
    pub country: Option<String>,
}

/// Statistics of one responder at one hop. Round-trip times are microseconds.
/// The mean and variance are held exactly: `rtt_sum` is the sum of the
/// samples and `rtt_sq_sum` the sum of their squares, so the mean is
/// `rtt_sum / received` and Welford's `m2` is `rtt_sum_sq - rtt_sum^2 / received`.
#[derive(Clone, Debug)]
pub struct ResponderStats {
    pub ip: Addr,
    pub hostname: Option<String>,
    pub asn: Option<AsnInfo>,
    pub geo: Option<GeoInfo>,
    pub ix: Option<IxInfo>,
    /// The hop's sent count at this responder's last response.
    pub sent: u64,
    pub received: u64,
    /// `u64::MAX` until the first sample.
    pub min_rtt: u64,
    pub max_rtt: u64,
    pub rtt_sum: u128,
    pub rtt_sq_sum: u128,
    /// RFC 3550 interarrival jitter, scaled by 16.
    pub jitter_x16: u64,
    pub last_rtt: Option<u64>,
    /// The last samples, oldest first; `None` marks a timeout.
    pub recent: Vec<Option<u64>>,
}

/// Appends to the rolling window, dropping the oldest entry past its length.
pub open spec fn window_push(w: Seq<Option<u64>>, x: Option<u64>) -> Seq<Option<u64>> {
    if w.len() + 1 > RECENT_WINDOW {
        w.push(x).drop_first()
    } else {
        w.push(x)
    }
}

/// The window after `n` timeouts.
pub open spec fn push_timeouts(w: Seq<Option<u64>>, n: nat) -> Seq<Option<u64>>
    decreases n,
{
    if n == 0 {
        w
    } else {
        window_push(push_timeouts(w, (n - 1) as nat), None)
    }
}

/// `after` is `before` but for its rolling window.
pub open spec fn same_but_recent(before: ResponderStats, after: ResponderStats) -> bool {
    &&& after.ip == before.ip
    &&& after.hostname == before.hostname
    &&& after.asn == before.asn
    &&& after.geo == before.geo
    &&& after.ix == before.ix
    &&& after.sent == before.sent
    &&& after.received == before.received
    &&& after.min_rtt == before.min_rtt
    &&& after.max_rtt == before.max_rtt
    &&& after.rtt_sum == before.rtt_sum
    &&& after.rtt_sq_sum == before.rtt_sq_sum
    &&& after.jitter_x16 == before.jitter_x16
    &&& after.last_rtt == before.last_rtt
}

/// One step of the RFC 3550 jitter estimator on the scaled value:
/// `J += (|D| - J) / 16`, rounded as in the RFC's integer form.
pub open spec fn jitter_step(j16: int, d: int) -> int {
    j16 + d - (j16 + 8) / 16
}

pub open spec fn abs_diff(a: u64, b: u64) -> int {
    if a >= b {
        a - b
    } else {
        b - a
    }
}

/// `n * m2` for `n` samples with sum `s` and sum of squares `q`.
pub open spec fn scaled_m2(n: int, s: int, q: int) -> int {
    n * q - s * s
}

/// Whether `r` is the integer square root of `v`.
pub open spec fn is_isqrt(r: int, v: int) -> bool {
    0 <= r && r * r <= v < (r + 1) * (r + 1)
}

/// Integer square root: the largest `r` with `r * r <= v`.
pub fn isqrt(v: u128) -> (r: u64)
    ensures
        is_isqrt(r as int, v as int),
{
    let mut lo: u128 = 0;
    let mut hi: u128 = 0x1_0000_0000_0000_0000;
    assert(hi * hi > v) by (nonlinear_arith)
        requires
            hi == 0x1_0000_0000_0000_0000u128,
    ;
    while hi - lo > 1
        invariant
            lo < hi <= 0x1_0000_0000_0000_0000u128,
            lo * lo <= v,
            v < hi * hi,
        decreases hi - lo,
    {
        let mid = lo + (hi - lo) / 2;
        assert(mid * mid < 0x1_0000_0000_0000_0000_0000_0000_0000_0000int) by (nonlinear_arith)
            requires
                mid < 0x1_0000_0000_0000_0000u128,
        ;
        if mid * mid <= v {
            lo = mid;
        } else {
            hi = mid;
        }
    }
    assert(hi == lo + 1);
    lo as u64
}

impl ResponderStats {
    /// Internal consistency of the aggregates.
    pub open spec fn wf(&self) -> bool {
        &&& self.received <= MAX_SAMPLES
        &&& self.recent@.len() <= RECENT_WINDOW
        &&& self.jitter_x16 <= 16 * MAX_RTT_US
        &&& self.rtt_sum <= self.received * MAX_RTT_US
        &&& self.rtt_sq_sum <= self.received * (MAX_RTT_US * MAX_RTT_US)
        &&& (self.received == 0 ==> self.rtt_sum == 0 && self.rtt_sq_sum == 0
            && self.min_rtt == u64::MAX && self.max_rtt == 0)
        &&& (self.received > 0 ==> {
            &&& self.min_rtt <= self.max_rtt <= MAX_RTT_US
            &&& self.min_rtt * self.received <= self.rtt_sum <= self.max_rtt * self.received
            &&& scaled_m2(self.received as int, self.rtt_sum as int, self.rtt_sq_sum as int) >= 0
        })
        &&& (self.last_rtt matches Some(l) ==> l <= MAX_RTT_US)
    }

    /// `after` is `before` with one sample `rtt` folded in and the sent count
    /// mirrored as `sent`.
    pub open spec fn response_step(before: ResponderStats, after: ResponderStats, rtt: u64, sent: u64) -> bool {
        &&& after.ip == before.ip
        &&& after.hostname == before.hostname
        &&& after.asn == before.asn
        &&& after.geo == before.geo
        &&& after.ix == before.ix
        &&& after.sent == sent
        &&& after.received == before.received + 1
        &&& after.min_rtt == if rtt < before.min_rtt {
            rtt
        } else {
            before.min_rtt
        }
        &&& after.max_rtt == if rtt > before.max_rtt {
            rtt
        } else {
            before.max_rtt
        }
        &&& after.rtt_sum == before.rtt_sum + rtt
        &&& after.rtt_sq_sum == before.rtt_sq_sum + rtt * rtt
        &&& after.jitter_x16 == match before.last_rtt {
            Some(last) => jitter_step(before.jitter_x16 as int, abs_diff(rtt, last)),
            None => before.jitter_x16 as int,
        }
        &&& after.last_rtt == Some(rtt)
        &&& after.recent@ == window_push(before.recent@, Some(rtt))
    }

    /// `after` is `before` with one timeout marked in the rolling window.
    pub open spec fn timeout_step(before: ResponderStats, after: ResponderStats) -> bool {
        &&& after.recent@ == window_push(before.recent@, None)
        &&& after.ip == before.ip
        &&& after.hostname == before.hostname
        &&& after.asn == before.asn
        &&& after.geo == before.geo
        &&& after.ix == before.ix
        &&& after.sent == before.sent
        &&& after.received == before.received
        &&& after.min_rtt == before.min_rtt
        &&& after.max_rtt == before.max_rtt
        &&& after.rtt_sum == before.rtt_sum
        &&& after.rtt_sq_sum == before.rtt_sq_sum
        &&& after.jitter_x16 == before.jitter_x16
        &&& after.last_rtt == before.last_rtt
    }

    /// Fresh statistics for a responder seen for the first time.
    pub fn new(ip: Addr) -> (r: ResponderStats)
        ensures
            r.wf(),
            r.ip == ip,
            r.hostname is None,
            r.asn is None,
            r.geo is None,
            r.ix is None,
            r.sent == 0,
            r.received == 0,
            r.min_rtt == u64::MAX,
            r.max_rtt == 0,
            r.rtt_sum == 0,
            r.rtt_sq_sum == 0,
            r.jitter_x16 == 0,
            r.last_rtt is None,
            r.recent@.len() == 0,
    {
        ResponderStats {
            ip,
            hostname: None,
            asn: None,
            geo: None,
            ix: None,
            sent: 0,
            received: 0,
            min_rtt: u64::MAX,
            max_rtt: 0,
            rtt_sum: 0,
            rtt_sq_sum: 0,
            jitter_x16: 0,
            last_rtt: None,
            recent: Vec::new(),
        }
    }

    /// Folds one round-trip sample into the statistics.
    pub fn record_response(&mut self, rtt: u64)
        requires
            old(self).wf(),
            rtt <= MAX_RTT_US,
            old(self).received < MAX_SAMPLES,
        ensures
            final(self).wf(),
            ResponderStats::response_step(*old(self), *final(self), rtt, old(self).sent),
    {
        let ghost old_self = *self;
        let n = self.received;
        self.received = n + 1;
        if rtt < self.min_rtt {
            self.min_rtt = rtt;
        }
        if rtt > self.max_rtt {
            self.max_rtt = rtt;
        }
        let s = self.rtt_sum;
        let q = self.rtt_sq_sum;
        let x = rtt as u128;
        assert(x * x <= MAX_RTT_US * MAX_RTT_US) by (nonlinear_arith)
            requires
                x <= MAX_RTT_US,
        ;
        assert(s + x <= (n + 1) * MAX_RTT_US) by (nonlinear_arith)
            requires
                s <= n * MAX_RTT_US,
                x <= MAX_RTT_US,
        ;
        assert(q + x * x <= (n + 1) * (MAX_RTT_US * MAX_RTT_US)) by (nonlinear_arith)
            requires
                q <= n * (MAX_RTT_US * MAX_RTT_US),
                x * x <= MAX_RTT_US * MAX_RTT_US,
        ;
        assert((n + 1) * (MAX_RTT_US * MAX_RTT_US) < 0x1_0000_0000_0000_0000_0000_0000_0000_0000int)
            by (nonlinear_arith)
            requires
                n < MAX_SAMPLES,
        ;
        self.rtt_sum = s + x;
        self.rtt_sq_sum = q + x * x;
        proof {
            let min1 = self.min_rtt as int;
            let max1 = self.max_rtt as int;
            if n == 0 {
                assert(min1 == x && max1 == x);
                assert(scaled_m2(1, x as int, (x * x) as int) == 0) by (nonlinear_arith);
            } else {
                let min0 = old_self.min_rtt as int;
                let max0 = old_self.max_rtt as int;
                assert(min1 * (n + 1) <= s + x) by (nonlinear_arith)
                    requires
                        min1 <= min0,
                        min1 <= x,
                        min0 * n <= s,
                        n > 0,
                ;
                assert(s + x <= max1 * (n + 1)) by (nonlinear_arith)
                    requires
                        max1 >= max0,
                        max1 >= x,
                        s <= max0 * n,
                        n > 0,
                ;
                lemma_scaled_m2_step(n as int, s as int, q as int, x as int);
            }
        }
        match self.last_rtt {
            Some(last) => {
                let d = if rtt >= last {
                    rtt - last
                } else {
                    last - rtt
                };
                let j = self.jitter_x16;
                assert(j + d - (j + 8) / 16 <= 16 * MAX_RTT_US) by (nonlinear_arith)
                    requires
                        j <= 16 * MAX_RTT_US,
                        d <= MAX_RTT_US,
                ;
                assert(j + d >= (j + 8) / 16) by (nonlinear_arith);
                self.jitter_x16 = j + d - (j + 8) / 16;
            },
            None => {},
        }
        self.last_rtt = Some(rtt);
        self.push_recent(Some(rtt));
    }

    fn push_recent(&mut self, x: Option<u64>)
        requires
            old(self).recent@.len() <= RECENT_WINDOW,
        ensures
            final(self).recent@ == window_push(old(self).recent@, x),
            final(self).recent@.len() <= RECENT_WINDOW,
            final(self).ip == old(self).ip,
            final(self).hostname == old(self).hostname,
            final(self).asn == old(self).asn,
            final(self).geo == old(self).geo,
            final(self).ix == old(self).ix,
            final(self).sent == old(self).sent,
            final(self).received == old(self).received,
            final(self).min_rtt == old(self).min_rtt,
            final(self).max_rtt == old(self).max_rtt,
            final(self).rtt_sum == old(self).rtt_sum,
            final(self).rtt_sq_sum == old(self).rtt_sq_sum,
            final(self).jitter_x16 == old(self).jitter_x16,
            final(self).last_rtt == old(self).last_rtt,
    {
        let ghost w = self.recent@;
        self.recent.push(x);
        if self.recent.len() > RECENT_WINDOW {
            self.recent.remove(0);
            assert(self.recent@ =~= w.push(x).drop_first());
        }
    }

    /// Marks a probe tick without an answer in the rolling window.
    pub fn record_timeout(&mut self)
        requires
            old(self).wf(),
        ensures
            final(self).wf(),
            ResponderStats::timeout_step(*old(self), *final(self)),
    {
        self.push_recent(None);
    }

    /// Loss in hundredths of a percent: `(1 - received / sent) * 10000`,
    /// rounded down; zero when nothing was sent or nothing was lost.
    pub fn loss_pct(&self) -> (r: u64)
        ensures
            r == loss_hundredths(self.sent as int, self.received as int),
    {
        loss_of(self.sent, self.received)
    }

    /// Mean round-trip time in microseconds, rounded down; zero before any sample.
    pub fn avg_rtt(&self) -> (r: u64)
        requires
            self.wf(),
        ensures
            r == if self.received == 0 {
                0
            } else {
                (self.rtt_sum as int) / (self.received as int)
            },
    {
        if self.received == 0 {
            0
        } else {
            let n = self.received as u128;
            let s = self.rtt_sum;
            assert(s / n <= MAX_RTT_US) by (nonlinear_arith)
                requires
                    s <= n * MAX_RTT_US,
                    n > 0,
            ;
            (s / n) as u64
        }
    }

    /// Population standard deviation in microseconds, rounded down: the
    /// integer square root of `m2 / received`; zero below two samples.
    pub fn stddev(&self) -> (r: u64)
        requires
            self.wf(),
        ensures
            self.received < 2 ==> r == 0,
            self.received >= 2 ==> is_isqrt(
                r as int,
                scaled_m2(self.received as int, self.rtt_sum as int, self.rtt_sq_sum as int) / (
                self.received * self.received),
            ),
    {
        if self.received < 2 {
            return 0;
        }
        let n = self.received as u128;
        let s = self.rtt_sum;
        let q = self.rtt_sq_sum;
        assert(n * q <= 0xffff_ffff_ffff_ffff_ffff_ffff_ffff_ffffu128) by (nonlinear_arith)
            requires
                n <= MAX_SAMPLES,
                q <= n * (MAX_RTT_US * MAX_RTT_US),
        ;
        assert(s * s <= n * q) by (nonlinear_arith)
            requires
                n * q - s * s >= 0,
        ;
        assert(n * n <= 0xffff_ffff_ffff_ffff_ffff_ffff_ffff_ffffu128) by (nonlinear_arith)
            requires
                n <= MAX_SAMPLES,
        ;
        assert(n * n > 0) by (nonlinear_arith)
            requires
                n >= 2,
        ;
        isqrt((n * q - s * s) / (n * n))
    }

    /// RFC 3550 jitter in microseconds, rounded down.
    pub fn jitter(&self) -> (r: u64)
        ensures
            r == self.jitter_x16 / 16,
    {
        self.jitter_x16 / 16
    }
}

/// Loss in hundredths of a percent for `received` answers to `sent` probes.
pub open spec fn loss_hundredths(sent: int, received: int) -> int {
    if sent == 0 || received >= sent {
        0
    } else {
        (sent - received) * 10000 / sent
    }
}

pub(crate) fn loss_of(sent: u64, received: u64) -> (r: u64)
    ensures
        r == loss_hundredths(sent as int, received as int),
        r <= 10000,
{
    if sent == 0 || received >= sent {
        0
    } else {
        let lost = (sent - received) as u128;
        let total = sent as u128;
        assert((lost * 10000) as int / (total as int) <= 10000) by (nonlinear_arith)
            requires
                lost <= total,
                total > 0,
        ;
        (lost * 10000 / total) as u64
    }
}

/// Adding one sample keeps `n * m2` nonnegative.
proof fn lemma_scaled_m2_step(n: int, s: int, q: int, x: int)
    requires
        n > 0,
        scaled_m2(n, s, q) >= 0,
    ensures
        scaled_m2(n + 1, s + x, q + x * x) >= 0,
{
    // (n+1)(q+x^2) - (s+x)^2 = (nq - s^2) + q + n x^2 - 2 s x, and
    // n (q + n x^2 - 2 s x) >= s^2 + n^2 x^2 - 2 n s x = (s - n x)^2 >= 0.
    assert(n * (q + n * x * x - 2 * s * x) >= (s - n * x) * (s - n * x)) by (nonlinear_arith)
        requires
            n * q - s * s >= 0,
    ;
    assert((s - n * x) * (s - n * x) >= 0) by (nonlinear_arith);
    assert(q + n * x * x - 2 * s * x >= 0) by (nonlinear_arith)
        requires
            n > 0,
            n * (q + n * x * x - 2 * s * x) >= 0,
    ;
    let xx = x * x;
    assert((n + 1) * (q + xx) == n * q + n * xx + q + xx) by (nonlinear_arith);
    assert((s + x) * (s + x) == s * s + 2 * (s * x) + xx) by (nonlinear_arith)
        requires
            xx == x * x,
    ;
    assert(n * x * x == n * xx) by (nonlinear_arith)
        requires
            xx == x * x,
    ;
    assert(2 * s * x == 2 * (s * x)) by (nonlinear_arith);
}

/// Sum of a sample sequence.
pub open spec fn seq_sum(s: Seq<u64>) -> int
    decreases s.len(),
{
    if s.len() == 0 {
        0
    } else {
        seq_sum(s.drop_last()) + s.last()
    }
}

/// Sum of the squares of a sample sequence.
pub open spec fn seq_sq_sum(s: Seq<u64>) -> int
    decreases s.len(),
{
    if s.len() == 0 {
        0
    } else {
        seq_sq_sum(s.drop_last()) + s.last() * s.last()
    }
}

/// `sum_i (n * s[i] - t)^2`: with `n` the count and `t` the sum, this is
/// `n^3` times the population variance of `s`.
pub open spec fn sum_sq_dev(s: Seq<u64>, n: int, t: int) -> int
    decreases s.len(),
{
    if s.len() == 0 {
        0
    } else {
        sum_sq_dev(s.drop_last(), n, t) + (n * s.last() - t) * (n * s.last() - t)
    }
}

impl ResponderStats {
    /// The aggregates are those of exactly the samples `samples`.
    pub open spec fn aggregates_of(&self, samples: Seq<u64>) -> bool {
        &&& self.received == samples.len()
        &&& self.rtt_sum == seq_sum(samples)
        &&& self.rtt_sq_sum == seq_sq_sum(samples)
    }
}

/// Streaming: statistics that aggregate `samples` and then take one
/// `record_response(rtt)` step (as its contract states it) aggregate
/// `samples` followed by `rtt`. Fresh statistics aggregate the empty sequence,
/// so after any run of responses the mean `rtt_sum / received` is the
/// arithmetic mean of the samples.
pub proof fn lemma_stream_step(before: ResponderStats, after: ResponderStats, samples: Seq<u64>, rtt: u64)
    requires
        before.aggregates_of(samples),
        after.received == before.received + 1,
        after.rtt_sum == before.rtt_sum + rtt,
        after.rtt_sq_sum == before.rtt_sq_sum + rtt * rtt,
    ensures
        after.aggregates_of(samples.push(rtt)),
{
    assert(samples.push(rtt).drop_last() =~= samples);
}

proof fn lemma_sum_sq_dev_expand(s: Seq<u64>, n: int, t: int)
    ensures
        sum_sq_dev(s, n, t) == n * n * seq_sq_sum(s) - 2 * n * t * seq_sum(s) + s.len() * t * t,
    decreases s.len(),
{
    if s.len() > 0 {
        let p = s.drop_last();
        let x = s.last() as int;
        lemma_sum_sq_dev_expand(p, n, t);
        assert((n * x - t) * (n * x - t) == n * n * (x * x) - 2 * n * t * x + t * t)
            by (nonlinear_arith);
        assert(n * n * (seq_sq_sum(p) + x * x) == n * n * seq_sq_sum(p) + n * n * (x * x))
            by (nonlinear_arith);
        assert(2 * n * t * (seq_sum(p) + x) == 2 * n * t * seq_sum(p) + 2 * n * t * x)
            by (nonlinear_arith);
        assert((p.len() + 1) * t * t == p.len() * t * t + t * t) by (nonlinear_arith);
    }
}

/// Variance: for `n` samples with sum `S` and sum of squares `Q`, the held
/// `n * m2 = n * Q - S^2` satisfies `n * (n * m2) = sum_i (n * x_i - S)^2`,
/// that is `m2 / n` is exactly the population variance of the samples.
pub proof fn lemma_m2_is_population_variance(samples: Seq<u64>)
    requires
        samples.len() > 0,
    ensures
        samples.len() * scaled_m2(samples.len() as int, seq_sum(samples), seq_sq_sum(samples))
            == sum_sq_dev(samples, samples.len() as int, seq_sum(samples)),
{
    let n = samples.len() as int;
    let t = seq_sum(samples);
    let q = seq_sq_sum(samples);
    lemma_sum_sq_dev_expand(samples, n, t);
    assert(n * (n * q - t * t) == n * n * q - 2 * n * t * t + n * t * t) by (nonlinear_arith);
}

/// Welford's recurrence holds of the held aggregates: with
/// `M_k = k * m2_k`, adding sample `x` as the `k`-th gives
/// `(k - 1) * M_k - k * M_(k-1) = ((k - 1) * x - S_(k-1)) * (k * x - S_k)`,
/// which is `m2_k = m2_(k-1) + (x - mean_(k-1)) * (x - mean_k)` times `k (k - 1)`.
pub proof fn lemma_welford_recurrence(samples: Seq<u64>)
    requires
        samples.len() >= 2,
    ensures
        ({
            let k = samples.len() as int;
            let x = samples.last() as int;
            let p = samples.drop_last();
            (k - 1) * scaled_m2(k, seq_sum(samples), seq_sq_sum(samples)) - k * scaled_m2(
                k - 1,
                seq_sum(p),
                seq_sq_sum(p),
            ) == ((k - 1) * x - seq_sum(p)) * (k * x - seq_sum(samples))
        }),
{
    let k = samples.len() as int;
    let x = samples.last() as int;
    let p = samples.drop_last();
    let s0 = seq_sum(p);
    let q0 = seq_sq_sum(p);
    let a = k - 1;
    let xx = x * x;
    let ss = s0 * s0;
    assert(k * x - x == a * x) by (nonlinear_arith)
        requires
            a == k - 1,
    ;
    assert(k * (q0 + xx) == k * q0 + k * xx) by (nonlinear_arith);
    assert((s0 + x) * (s0 + x) == ss + 2 * (s0 * x) + xx) by (nonlinear_arith)
        requires
            xx == x * x,
            ss == s0 * s0,
    ;
    assert(a * (k * q0 + k * xx - (ss + 2 * (s0 * x) + xx)) == a * (k * q0) + a * (k * xx) - a
        * ss - 2 * (a * (s0 * x)) - a * xx) by (nonlinear_arith);
    assert(k * (a * q0 - ss) == a * (k * q0) - k * ss) by (nonlinear_arith);
    assert(a * (k * xx) - a * xx == a * (a * xx)) by (nonlinear_arith)
        requires
            a == k - 1,
    ;
    assert(k * ss == a * ss + ss) by (nonlinear_arith)
        requires
            a == k - 1,
    ;
    assert((a * x - s0) * (a * x - s0) == a * (a * xx) - 2 * (a * (s0 * x)) + ss)
        by (nonlinear_arith)
        requires
            xx == x * x,
            ss == s0 * s0,
    ;
    assert(k * (q0 + x * x) - (s0 + x) * (s0 + x) == k * q0 + k * xx - (ss + 2 * (s0 * x) + xx));
    assert(k * x - (s0 + x) == a * x - s0);
}

} // verus!

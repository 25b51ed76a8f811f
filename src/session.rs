use vstd::prelude::*;
use crate::addr::Addr;
use crate::clock::wall_clock_micros;
use crate::correlate::ParsedResponse;
use crate::hop::{has_ip, Hop};
use crate::pending::{lemma_count_nonneg, lemma_count_positive, PendingKey, PendingProbe, PendingTable, pending_expired};
use crate::probe_id::{IcmpResponseType, ProbeId};
use crate::pending::keys_at_ttl;
use crate::stats::{ResponderStats, push_timeouts, same_but_recent, MAX_RTT_US, MAX_SAMPLES};

verus! {

/// Probe configuration consumed by the core.
#[derive(Clone, Copy, Debug)]
pub struct Config {
    /// Time between ticks, in microseconds.
    pub interval_us: u64,
    /// Highest TTL probed.
    pub max_ttl: u8,
    /// Probes per hop after which the engine stops.
    pub count: Option<u64>,
    /// ICMP payload size in bytes.
    pub payload_size: usize,
}

/// The traced destination.
#[derive(Clone, Debug)]
pub struct Target {
    pub original: String,
    pub resolved: Addr,
    pub hostname: Option<String>,
}

impl Target {
    pub fn new(original: String, resolved: Addr) -> (r: Target)
        ensures
            r.original == original,
            r.resolved == resolved,
            r.hostname is None,
    {
        Target { original, resolved, hostname: None }
    }
}

/// A tracing session: one hop per TTL from 1 to `config.max_ttl`.
pub struct Session {
    pub target: Target,
    /// Start time, UTC microseconds since the Unix epoch.
    pub started_at: i64,
    pub hops: Vec<Hop>,
    pub config: Config,
    /// An echo reply from the target has been seen.
    pub complete: bool,
    pub total_sent: u64,
    /// Set by the user interface; the engine sends nothing while it holds.
    pub paused: bool,
}

/// The pending-table key of a probe to the session's target.
pub open spec fn key_for(id: ProbeId, target: Addr) -> PendingKey {
    (id, 0u8, target, false)
}

/// Round-trip time from send to receive instant; zero if the clock stood still.
pub open spec fn elapsed(sent_at: u64, now: u64) -> u64 {
    if now >= sent_at {
        (now - sent_at) as u64
    } else {
        0
    }
}

/// No hop's sent or received count went down, and the hop sequence kept its length.
pub open spec fn counters_advance(before: Session, after: Session) -> bool {
    &&& after.hops@.len() == before.hops@.len()
    &&& after.total_sent >= before.total_sent
    &&& forall|i: int|
        0 <= i < before.hops@.len() ==> before.hops@[i].sent <= #[trigger] after.hops@[i].sent
            && before.hops@[i].received <= after.hops@[i].received
}

impl Session {
    pub open spec fn wf(&self) -> bool {
        &&& self.hops@.len() == self.config.max_ttl
        &&& forall|i: int|
            0 <= i < self.hops@.len() ==> (#[trigger] self.hops@[i]).ttl == i + 1 && self.hops@[i].wf()
    }

    /// The session and the pending table agree: every pending probe belongs
    /// to a hop, and each hop's answers plus its pending probes never exceed
    /// the probes it sent.
    pub open spec fn tracks(&self, pending: &PendingTable) -> bool {
        &&& self.wf()
        &&& pending.wf()
        &&& forall|k: PendingKey|
            #[trigger] pending.spec_get(k) is Some ==> 1 <= k.0.ttl <= self.hops@.len()
        &&& forall|i: int|
            0 <= i < self.hops@.len() ==> (#[trigger] self.hops@[i]).received + pending.pending_at(
                i + 1,
            ) <= self.hops@[i].sent
    }

    /// Creates a session whose hops, one per TTL, have seen nothing yet.
    pub fn new(target: Target, config: Config) -> (r: Session)
        ensures
            r.wf(),
            forall|p: PendingTable| #[trigger] p.wf() && p.entries().len() == 0 ==> r.tracks(&p),
            r.target == target,
            r.config == config,
            !r.complete,
            r.total_sent == 0,
            !r.paused,
            forall|i: int|
                0 <= i < r.hops@.len() ==> (#[trigger] r.hops@[i]).sent == 0 && r.hops@[i].received
                    == 0 && r.hops@[i].responders@.len() == 0 && r.hops@[i].primary is None,
    {
        let max_ttl = config.max_ttl;
        let mut hops: Vec<Hop> = Vec::new();
        let mut t: u16 = 1;
        while t <= max_ttl as u16
            invariant
                1 <= t <= max_ttl as u16 + 1,
                hops@.len() == t - 1,
                forall|i: int|
                    0 <= i < hops@.len() ==> (#[trigger] hops@[i]).ttl == i + 1 && hops@[i].wf()
                        && hops@[i].sent == 0 && hops@[i].received == 0
                        && hops@[i].responders@.len() == 0 && hops@[i].primary is None,
            decreases max_ttl as u16 + 1 - t,
        {
            hops.push(Hop::new(t as u8));
            t = t + 1;
        }
        let now = wall_clock_micros();
        let started_at: i64 = if now > i64::MAX as u64 {
            i64::MAX
        } else {
            now as i64
        };
        Session {
            target,
            started_at,
            hops,
            config,
            complete: false,
            total_sent: 0,
            paused: false,
        }
    }

    /// The hop probed with TTL `ttl`.
    pub fn hop(&self, ttl: u8) -> (r: Option<&Hop>)
        ensures
            (ttl == 0 || ttl > self.hops@.len()) ==> r is None,
            (1 <= ttl <= self.hops@.len()) ==> r == Some(&self.hops@[ttl - 1]),
    {
        if ttl == 0 || ttl as usize > self.hops.len() {
            None
        } else {
            Some(&self.hops[ttl as usize - 1])
        }
    }

    /// The hop probed with TTL `ttl`, for changing it in place.
    pub fn hop_mut(&mut self, ttl: u8) -> (r: Option<&mut Hop>)
        ensures
            (ttl == 0 || ttl > old(self).hops@.len()) ==> r is None && *final(self) == *old(self),
            (1 <= ttl <= old(self).hops@.len()) ==> (r matches Some(h) && *h == old(self).hops@[ttl
                - 1] && final(self).hops@ == old(self).hops@.update(ttl - 1, *final(h))
                && final(self).target == old(self).target && final(self).config == old(self).config
                && final(self).complete == old(self).complete && final(self).total_sent
                == old(self).total_sent && final(self).paused == old(self).paused
                && final(self).started_at == old(self).started_at),
    {
        if ttl == 0 || ttl as usize > self.hops.len() {
            None
        } else {
            Some(&mut self.hops[ttl as usize - 1])
        }
    }

    /// Hops that have sent or received anything, in TTL order.
    pub fn discovered_hops(&self) -> (r: Vec<&Hop>)
        ensures
            r@.len() == discovered(self.hops@).len(),
            forall|i: int| 0 <= i < r@.len() ==> *r@[i] == discovered(self.hops@)[i],
    {
        let mut out: Vec<&Hop> = Vec::new();
        let mut i: usize = 0;
        while i < self.hops.len()
            invariant
                i <= self.hops@.len(),
                out@.len() == discovered(self.hops@.take(i as int)).len(),
                forall|j: int| 0 <= j < out@.len() ==> *out@[j] == discovered(self.hops@.take(i as int))[j],
            decreases self.hops@.len() - i,
        {
            assert(self.hops@.take(i + 1).drop_last() =~= self.hops@.take(i as int));
            let h = &self.hops[i];
            if h.received > 0 || h.sent > 0 {
                out.push(h);
            }
            i = i + 1;
        }
        assert(self.hops@.take(self.hops@.len() as int) =~= self.hops@);
        out
    }

    /// The hop with the highest TTL that has received an answer.
    pub fn last_responding_hop(&self) -> (r: Option<&Hop>)
        ensures
            r is None ==> forall|i: int| 0 <= i < self.hops@.len() ==> self.hops@[i].received == 0,
            r matches Some(h) ==> exists|i: int|
                0 <= i < self.hops@.len() && *h == self.hops@[i] && h.received > 0 && forall|j: int|
                    i < j < self.hops@.len() ==> self.hops@[j].received == 0,
    {
        let mut i: usize = self.hops.len();
        while i > 0
            invariant
                i <= self.hops@.len(),
                forall|j: int| i <= j < self.hops@.len() ==> self.hops@[j].received == 0,
            decreases i,
        {
            if self.hops[i - 1].received > 0 {
                return Some(&self.hops[i - 1]);
            }
            i = i - 1;
        }
        None
    }

    /// Whether the engine still probes TTL `ttl`: always before the target
    /// answered, afterwards only hops that have answered at least once.
    pub fn should_probe(&self, ttl: u8) -> (r: bool)
        ensures
            r == spec_should_probe(*self, ttl),
    {
        !self.complete || match self.hop(ttl) {
            Some(h) => h.received > 0,
            None => false,
        }
    }

    /// Notes a probe about to be handed to the kernel: it becomes pending
    /// under its identity (replacing any probe pending under the same key),
    /// and the hop's and the session's sent counts go up. Nothing happens
    /// for a TTL outside the session or when a count is at its maximum.
    pub fn record_probe(&mut self, pending: &mut PendingTable, id: ProbeId, now: u64) -> (r: bool)
        requires
            old(self).tracks(old(pending)),
        ensures
            final(self).tracks(final(pending)),
            counters_advance(*old(self), *final(self)),
            r == (1 <= id.ttl <= old(self).hops@.len() && old(self).hops@[id.ttl - 1].sent
                < u64::MAX && old(self).total_sent < u64::MAX),
            !r ==> *final(self) == *old(self) && *final(pending) == *old(pending),
            r ==> {
                &&& final(self).total_sent == old(self).total_sent + 1
                &&& final(self).target == old(self).target
                &&& final(self).config == old(self).config
                &&& final(self).complete == old(self).complete
                &&& final(self).paused == old(self).paused
                &&& final(self).started_at == old(self).started_at
                &&& forall|i: int|
                    0 <= i < old(self).hops@.len() ==> if i == id.ttl - 1 {
                        (#[trigger] final(self).hops@[i]).sent == old(self).hops@[i].sent + 1
                            && final(self).hops@[i].received == old(self).hops@[i].received
                            && final(self).hops@[i].responders == old(self).hops@[i].responders
                            && final(self).hops@[i].primary == old(self).hops@[i].primary
                            && final(self).hops@[i].ttl == old(self).hops@[i].ttl
                    } else {
                        final(self).hops@[i] == old(self).hops@[i]
                    }
                &&& forall|k: PendingKey| #[trigger] final(pending).spec_get(k) == if k == key_for(id, old(self).target.resolved) {
                    Some(PendingProbe { sent_at: now, target: old(self).target.resolved, flow_id: 0, original_src_port: None, packet_size: None })
                } else {
                    old(pending).spec_get(k)
                }
            },
    {
        if id.ttl == 0 || id.ttl as usize > self.hops.len() {
            return false;
        }
        let i = id.ttl as usize - 1;
        if self.hops[i].sent == u64::MAX || self.total_sent == u64::MAX {
            return false;
        }
        let target = self.target.resolved;
        let key: PendingKey = (id, 0u8, target, false);
        let probe = PendingProbe { sent_at: now, target, flow_id: 0, original_src_port: None, packet_size: None };
        pending.insert(key, probe);
        let ghost before = self.hops@;
        let mut h = self.hops.remove(i);
        h.record_sent();
        self.hops.insert(i, h);
        assert(self.hops@ =~= before.update(i as int, h));
        self.total_sent = self.total_sent + 1;
        proof {
            assert forall|j: int| 0 <= j < self.hops@.len() implies (#[trigger] self.hops@[j]).received + pending.pending_at(j + 1) <= self.hops@[j].sent by {
                if j != i {
                    assert(self.hops@[j] == before[j]);
                }
            }
        }
        true
    }

    /// Applies a correlated response received at `now`: the pending probe is
    /// taken out, and if it was there, answered within `MAX_RTT_US`, and its
    /// responder can take another sample, the hop counts the answer with the
    /// round-trip time. An echo reply from the target completes the session.
    /// Returns whether the answer was counted.
    pub fn apply_response(&mut self, pending: &mut PendingTable, resp: &ParsedResponse, now: u64) -> (r: bool)
        requires
            old(self).tracks(old(pending)),
        ensures
            final(self).tracks(final(pending)),
            counters_advance(*old(self), *final(self)),
            final(self).target == old(self).target,
            final(self).config == old(self).config,
            final(self).total_sent == old(self).total_sent,
            final(self).paused == old(self).paused,
            final(self).started_at == old(self).started_at,
            ({
                let key = key_for(resp.probe_id, old(self).target.resolved);
                &&& forall|k: PendingKey| #[trigger] final(pending).spec_get(k) == if k == key {
                    None
                } else {
                    old(pending).spec_get(k)
                }
                &&& r == (old(pending).spec_get(key) matches Some(p) && answer_countable(
                    *old(self),
                    resp.probe_id.ttl,
                    resp.responder,
                    elapsed(p.sent_at, now),
                ))
                &&& r ==> (old(pending).spec_get(key) matches Some(p) && Hop::response_recorded(
                    old(self).hops@[resp.probe_id.ttl - 1],
                    final(self).hops@[resp.probe_id.ttl - 1],
                    resp.responder,
                    elapsed(p.sent_at, now),
                ))
                &&& forall|i: int|
                    0 <= i < old(self).hops@.len() && !(r && i == resp.probe_id.ttl - 1) ==> #[trigger] final(self).hops@[i] == old(self).hops@[i]
                &&& final(self).complete == (old(self).complete || (r && resp.responder == old(self).target.resolved
                    && resp.response_type == IcmpResponseType::EchoReply))
            }),
    {
        let target = self.target.resolved;
        let key: PendingKey = (resp.probe_id, 0u8, target, false);
        let ghost old_pending = *pending;
        let p = match pending.remove(&key) {
            None => return false,
            Some(p) => p,
        };
        let rtt = if now >= p.sent_at { now - p.sent_at } else { 0 };
        let ttl = resp.probe_id.ttl;
        proof {
            lemma_count_positive(old_pending.entries(), key);
        }
        let i = ttl as usize - 1;
        if rtt > MAX_RTT_US {
            return false;
        }
        match self.hops[i].find_responder(resp.responder) {
            Some(j) => {
                if self.hops[i].responders[j].received >= MAX_SAMPLES {
                    proof {
                        assert(!self.hops@[i as int].can_record(resp.responder));
                    }
                    return false;
                }
                proof {
                    assert forall|m: int| 0 <= m < self.hops@[i as int].responders@.len() && self.hops@[i as int].responders@[m].ip == resp.responder implies (#[trigger] self.hops@[i as int].responders@[m]).received < MAX_SAMPLES by {
                        if m != j {
                            assert(self.hops@[i as int].responders@[m].ip != self.hops@[i as int].responders@[j as int].ip);
                        }
                    }
                }
            },
            None => {},
        }
        let ghost before = self.hops@;
        let mut h = self.hops.remove(i);
        h.record_response(resp.responder, rtt);
        self.hops.insert(i, h);
        assert(self.hops@ =~= before.update(i as int, h));
        if resp.responder.same(&target) && match resp.response_type {
            IcmpResponseType::EchoReply => true,
            _ => false,
        } {
            self.complete = true;
        }
        proof {
            assert forall|j: int| 0 <= j < self.hops@.len() implies (#[trigger] self.hops@[j]).ttl == j + 1 && self.hops@[j].wf() by {
                if j != i {
                    assert(self.hops@[j] == before[j]);
                }
            }
            assert forall|j: int| 0 <= j < self.hops@.len() implies (#[trigger] self.hops@[j]).received + pending.pending_at(j + 1) <= self.hops@[j].sent by {
                if j != i {
                    assert(self.hops@[j] == before[j]);
                }
            }
        }
        true
    }

    /// Expires every probe pending longer than `timeout` at `now`: each
    /// leaves the table and marks a timeout in the rolling window of every
    /// responder at its hop. Returns how many were reaped.
    pub fn reap_pending(&mut self, pending: &mut PendingTable, now: u64, timeout: u64) -> (r: usize)
        requires
            old(self).tracks(old(pending)),
        ensures
            final(self).tracks(final(pending)),
            counters_advance(*old(self), *final(self)),
            r == old(pending).expired(now, timeout).len(),
            final(self).target == old(self).target,
            final(self).config == old(self).config,
            final(self).total_sent == old(self).total_sent,
            final(self).complete == old(self).complete,
            final(self).paused == old(self).paused,
            final(self).started_at == old(self).started_at,
            forall|i: int|
                0 <= i < old(self).hops@.len() ==> {
                    let a = old(self).hops@[i];
                    let b = #[trigger] final(self).hops@[i];
                    &&& b.ttl == a.ttl
                    &&& b.sent == a.sent
                    &&& b.received == a.received
                    &&& b.primary == a.primary
                    &&& b.responders@.len() == a.responders@.len()
                    &&& forall|j: int|
                        0 <= j < a.responders@.len() ==> same_but_recent(
                            a.responders@[j],
                            #[trigger] b.responders@[j],
                        ) && b.responders@[j].recent@ == push_timeouts(
                            a.responders@[j].recent@,
                            old(pending).expired_at(i + 1, now, timeout),
                        )
                },
            forall|k: PendingKey| #[trigger] final(pending).spec_get(k) == if pending_expired(old(pending).spec_get(k), now, timeout) {
                None
            } else {
                old(pending).spec_get(k)
            },
    {
        let ghost old_pending = *pending;
        let gone = pending.reap_expired(now, timeout);
        let ghost start = *self;
        let mut n: usize = 0;
        while n < gone.len()
            invariant
                self.tracks(pending),
                self.hops@.len() == start.hops@.len(),
                self.target == start.target,
                self.config == start.config,
                self.total_sent == start.total_sent,
                self.complete == start.complete,
                self.paused == start.paused,
                self.started_at == start.started_at,
                forall|i: int|
                    0 <= i < start.hops@.len() ==> {
                        let a = start.hops@[i];
                        let b = #[trigger] self.hops@[i];
                        &&& b.ttl == a.ttl
                        &&& b.sent == a.sent
                        &&& b.received == a.received
                        &&& b.primary == a.primary
                        &&& b.responders@.len() == a.responders@.len()
                        &&& forall|j: int|
                            0 <= j < a.responders@.len() ==> same_but_recent(
                                a.responders@[j],
                                #[trigger] b.responders@[j],
                            ) && b.responders@[j].recent@ == push_timeouts(
                                a.responders@[j].recent@,
                                keys_at_ttl(gone@.take(n as int), i + 1),
                            )
                    },
                forall|i: int| 0 <= i < gone@.len() ==> pending_expired(old_pending.spec_get(#[trigger] gone@[i]), now, timeout),
                forall|k: PendingKey| #[trigger] old_pending.spec_get(k) is Some ==> 1 <= k.0.ttl <= start.hops@.len(),
                n <= gone@.len(),
            decreases gone@.len() - n,
        {
            let ttl = gone[n].0.ttl;
            proof {
                assert(old_pending.spec_get(gone@[n as int]) is Some);
                assert(gone@.take(n + 1).drop_last() =~= gone@.take(n as int));
            }
            let i = ttl as usize - 1;
            let ghost before = self.hops@;
            let mut h = self.hops.remove(i);
            h.record_timeout();
            self.hops.insert(i, h);
            assert(self.hops@ =~= before.update(i as int, h));
            proof {
                assert forall|m: int| 0 <= m < self.hops@.len() implies (#[trigger] self.hops@[m]).ttl == m + 1 && self.hops@[m].wf() by {
                    if m != i {
                        assert(self.hops@[m] == before[m]);
                    }
                }
                assert forall|m: int| 0 <= m < self.hops@.len() implies (#[trigger] self.hops@[m]).received + pending.pending_at(m + 1) <= self.hops@[m].sent by {
                    if m != i {
                        assert(self.hops@[m] == before[m]);
                    }
                }
                assert forall|m: int| 0 <= m < start.hops@.len() implies {
                    let a = start.hops@[m];
                    let b = #[trigger] self.hops@[m];
                    &&& b.ttl == a.ttl
                    &&& b.sent == a.sent
                    &&& b.received == a.received
                    &&& b.primary == a.primary
                    &&& b.responders@.len() == a.responders@.len()
                    &&& forall|j: int|
                        0 <= j < a.responders@.len() ==> same_but_recent(
                            a.responders@[j],
                            #[trigger] b.responders@[j],
                        ) && b.responders@[j].recent@ == push_timeouts(
                            a.responders@[j].recent@,
                            keys_at_ttl(gone@.take(n + 1), m + 1),
                        )
                } by {
                    let a = start.hops@[m];
                    let b = self.hops@[m];
                    if m != i {
                        assert(b == before[m]);
                        assert(keys_at_ttl(gone@.take(n + 1), m + 1) == keys_at_ttl(gone@.take(n as int), m + 1));
                    } else {
                        let k0 = keys_at_ttl(gone@.take(n as int), m + 1);
                        assert(keys_at_ttl(gone@.take(n + 1), m + 1) == k0 + 1);
                        assert forall|j: int| 0 <= j < a.responders@.len() implies same_but_recent(
                            a.responders@[j],
                            #[trigger] b.responders@[j],
                        ) && b.responders@[j].recent@ == push_timeouts(
                            a.responders@[j].recent@,
                            (k0 + 1) as nat,
                        ) by {
                            assert(same_but_recent(a.responders@[j], before[m].responders@[j]));
                            assert(ResponderStats::timeout_step(before[m].responders@[j], b.responders@[j]));
                        }
                    }
                }
            }
            n = n + 1;
        }
        proof {
            assert(gone@.take(gone@.len() as int) =~= gone@);
        }
        gone.len()
    }
}

/// Hops that have sent or received anything, in TTL order.
pub open spec fn discovered(hops: Seq<Hop>) -> Seq<Hop>
    decreases hops.len(),
{
    if hops.len() == 0 {
        Seq::empty()
    } else {
        let rest = discovered(hops.drop_last());
        if hops.last().received > 0 || hops.last().sent > 0 {
            rest.push(hops.last())
        } else {
            rest
        }
    }
}

pub open spec fn spec_should_probe(s: Session, ttl: u8) -> bool {
    !s.complete || (1 <= ttl <= s.hops@.len() && s.hops@[ttl - 1].received > 0)
}

/// An answer from `ip` at TTL `ttl` taking `rtt` can be counted: the hop
/// exists, the time is within range, and the responder can take a sample.
pub open spec fn answer_countable(s: Session, ttl: u8, ip: Addr, rtt: u64) -> bool {
    &&& 1 <= ttl <= s.hops@.len()
    &&& rtt <= MAX_RTT_US
    &&& s.hops@[ttl - 1].can_record(ip)
}

/// Reap timeout for a tick interval: twice the interval, but at least two seconds.
pub fn reap_timeout_us(interval_us: u64) -> (r: u64)
    ensures
        r == if 2 * interval_us > 2_000_000 {
            if 2 * interval_us > u64::MAX { u64::MAX as int } else { 2 * interval_us }
        } else {
            2_000_000
        },
{
    let twice = if interval_us > u64::MAX / 2 {
        u64::MAX
    } else {
        interval_us * 2
    };
    if twice > 2_000_000 {
        twice
    } else {
        2_000_000
    }
}

/// Every hop of a session that agrees with its pending table has answered
/// no more probes than it sent. With `counters_advance`, which every
/// operation on the session ensures, this is the counters' law: sent and
/// received never decrease and received never exceeds sent.
pub proof fn lemma_received_within_sent(s: Session, pending: PendingTable)
    requires
        s.tracks(&pending),
    ensures
        forall|i: int| 0 <= i < s.hops@.len() ==> (#[trigger] s.hops@[i]).received <= s.hops@[i].sent,
{
    assert forall|i: int| 0 <= i < s.hops@.len() implies (#[trigger] s.hops@[i]).received <= s.hops@[i].sent by {
        lemma_count_nonneg(pending.entries(), i + 1);
    }
}

/// Over a session's lifetime the counters only grow: steps that each
/// advance the counters, as every operation on the session ensures, compose.
pub proof fn lemma_counters_advance_compose(a: Session, b: Session, c: Session)
    requires
        counters_advance(a, b),
        counters_advance(b, c),
    ensures
        counters_advance(a, c),
{
    assert forall|i: int| 0 <= i < a.hops@.len() implies a.hops@[i].sent <= #[trigger] c.hops@[i].sent
        && a.hops@[i].received <= c.hops@[i].received by {
        assert(a.hops@[i].sent <= b.hops@[i].sent);
        assert(b.hops@[i].sent <= c.hops@[i].sent);
    }
}

} // verus!

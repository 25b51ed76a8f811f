use vstd::prelude::*;
use crate::addr::Addr;
use crate::stats::{loss_hundredths, loss_of, ResponderStats, MAX_RTT_US, MAX_SAMPLES};

verus! {

/// One TTL position along the path. Responders are kept in the order they
/// were first seen, each address once.
#[derive(Clone, Debug)]
pub struct Hop {
    pub ttl: u8,
    pub sent: u64,
    pub received: u64,
    pub responders: Vec<ResponderStats>,
    /// The responder with the most answers, the first seen among equals.
    pub primary: Option<Addr>,
}

/// Total answers over a sequence of responders.
pub open spec fn total_received(s: Seq<ResponderStats>) -> int
    decreases s.len(),
{
    if s.len() == 0 {
        0
    } else {
        total_received(s.drop_last()) + s.last().received
    }
}

/// No address appears twice.
pub open spec fn distinct_ips(s: Seq<ResponderStats>) -> bool {
    forall|i: int, j: int| 0 <= i < j < s.len() ==> s[i].ip != s[j].ip
}

/// Whether the address has statistics in the sequence.
pub open spec fn has_ip(s: Seq<ResponderStats>, ip: Addr) -> bool {
    exists|i: int| 0 <= i < s.len() && s[i].ip == ip
}

/// `i` holds the greatest received count, and no earlier responder ties it.
pub open spec fn is_primary_index(s: Seq<ResponderStats>, i: int) -> bool {
    &&& 0 <= i < s.len()
    &&& forall|j: int| 0 <= j < s.len() ==> s[j].received <= s[i].received
    &&& forall|j: int| 0 <= j < i ==> s[j].received < s[i].received
}

/// `primary` names the first-seen responder with the most answers, and is
/// absent exactly when there are no responders.
pub open spec fn primary_agrees(s: Seq<ResponderStats>, primary: Option<Addr>) -> bool {
    if s.len() == 0 {
        primary is None
    } else {
        exists|i: int| is_primary_index(s, i) && primary == Some(s[i].ip)
    }
}

/// The statistics `st` are those of a responder seen for the first time at
/// `ip` and answering once with `rtt`, while the hop had sent `sent` probes.
pub open spec fn first_response(st: ResponderStats, ip: Addr, rtt: u64, sent: u64) -> bool {
    &&& st.ip == ip
    &&& st.hostname is None
    &&& st.asn is None
    &&& st.geo is None
    &&& st.ix is None
    &&& st.sent == sent
    &&& st.received == 1
    &&& st.min_rtt == rtt
    &&& st.max_rtt == rtt
    &&& st.rtt_sum == rtt
    &&& st.rtt_sq_sum == rtt * rtt
    &&& st.jitter_x16 == 0
    &&& st.last_rtt == Some(rtt)
    &&& st.recent@ == seq![Some(rtt)]
}

proof fn lemma_total_update(s: Seq<ResponderStats>, i: int, v: ResponderStats)
    requires
        0 <= i < s.len(),
    ensures
        total_received(s.update(i, v)) == total_received(s) - s[i].received + v.received,
    decreases s.len(),
{
    if i < s.len() - 1 {
        lemma_total_update(s.drop_last(), i, v);
        assert(s.update(i, v).drop_last() =~= s.drop_last().update(i, v));
    } else {
        assert(s.update(i, v).drop_last() =~= s.drop_last());
    }
}

proof fn lemma_total_push(s: Seq<ResponderStats>, v: ResponderStats)
    ensures
        total_received(s.push(v)) == total_received(s) + v.received,
{
    assert(s.push(v).drop_last() =~= s);
}

proof fn lemma_total_ge_each(s: Seq<ResponderStats>, i: int)
    requires
        0 <= i < s.len(),
        forall|j: int| 0 <= j < s.len() ==> s[j].received >= 0,
    ensures
        total_received(s) >= s[i].received,
    decreases s.len(),
{
    if i < s.len() - 1 {
        lemma_total_ge_each(s.drop_last(), i);
    } else {
        lemma_total_nonneg(s.drop_last());
    }
}

proof fn lemma_total_nonneg(s: Seq<ResponderStats>)
    ensures
        total_received(s) >= 0,
    decreases s.len(),
{
    if s.len() > 0 {
        lemma_total_nonneg(s.drop_last());
    }
}

impl Hop {
    pub open spec fn wf(&self) -> bool {
        &&& distinct_ips(self.responders@)
        &&& forall|i: int| 0 <= i < self.responders@.len() ==> (#[trigger] self.responders@[i]).wf()
        &&& self.received == total_received(self.responders@)
        &&& primary_agrees(self.responders@, self.primary)
    }

    /// The responders' statistics at `ip` may take one more sample.
    pub open spec fn can_record(&self, ip: Addr) -> bool {
        forall|i: int|
            0 <= i < self.responders@.len() && self.responders@[i].ip == ip ==> (
            #[trigger] self.responders@[i]).received < MAX_SAMPLES
    }

    pub fn new(ttl: u8) -> (r: Hop)
        ensures
            r.wf(),
            r.ttl == ttl,
            r.sent == 0,
            r.received == 0,
            r.responders@.len() == 0,
            r.primary is None,
    {
        Hop { ttl, sent: 0, received: 0, responders: Vec::new(), primary: None }
    }

    /// Counts one probe sent at this TTL.
    pub fn record_sent(&mut self)
        requires
            old(self).sent < u64::MAX,
        ensures
            final(self).sent == old(self).sent + 1,
            final(self).ttl == old(self).ttl,
            final(self).received == old(self).received,
            final(self).responders == old(self).responders,
            final(self).primary == old(self).primary,
    {
        self.sent = self.sent + 1;
    }

    /// Index of the responder at `ip`, if it has statistics here.
    pub fn find_responder(&self, ip: Addr) -> (r: Option<usize>)
        requires
            distinct_ips(self.responders@),
        ensures
            r is None ==> !has_ip(self.responders@, ip),
            r matches Some(i) ==> i < self.responders@.len() && self.responders@[i as int].ip
                == ip,
    {
        let mut i: usize = 0;
        while i < self.responders.len()
            invariant
                i <= self.responders@.len(),
                forall|j: int| 0 <= j < i ==> self.responders@[j].ip != ip,
            decreases self.responders@.len() - i,
        {
            if self.responders[i].ip.same(&ip) {
                return Some(i);
            }
            i = i + 1;
        }
        None
    }

    /// `after` is `before` with one answer from `ip` counted, as
    /// `record_response` performs it.
    pub open spec fn response_recorded(before: Hop, after: Hop, ip: Addr, rtt: u64) -> bool {
        &&& after.ttl == before.ttl
        &&& after.sent == before.sent
        &&& after.received == before.received + 1
        &&& has_ip(before.responders@, ip) ==> {
            &&& after.responders@.len() == before.responders@.len()
            &&& forall|i: int|
                0 <= i < before.responders@.len() ==> if before.responders@[i].ip == ip {
                    ResponderStats::response_step(
                        before.responders@[i],
                        after.responders@[i],
                        rtt,
                        before.sent,
                    )
                } else {
                    after.responders@[i] == before.responders@[i]
                }
        }
        &&& !has_ip(before.responders@, ip) ==> {
            &&& after.responders@.len() == before.responders@.len() + 1
            &&& after.responders@.drop_last() == before.responders@
            &&& first_response(after.responders@.last(), ip, rtt, before.sent)
        }
    }

    /// Counts one answer from `ip` taking `rtt` microseconds: the responder's
    /// statistics are created on its first answer, take the sample with the
    /// hop's sent count mirrored, and the primary responder is recomputed.
    pub fn record_response(&mut self, ip: Addr, rtt: u64)
        requires
            old(self).wf(),
            rtt <= MAX_RTT_US,
            old(self).received < u64::MAX,
            old(self).can_record(ip),
        ensures
            final(self).wf(),
            Hop::response_recorded(*old(self), *final(self), ip, rtt),
    {
        let ghost before = self.responders@;
        self.received = self.received + 1;
        match self.find_responder(ip) {
            Some(i) => {
                let mut st = self.responders.remove(i);
                assert(before.remove(i as int) == self.responders@);
                st.sent = self.sent;
                st.record_response(rtt);
                self.responders.insert(i, st);
                assert(self.responders@ =~= before.update(i as int, st));
                proof {
                    lemma_total_update(before, i as int, st);
                    assert forall|a: int, b: int|
                        0 <= a < b < self.responders@.len() implies self.responders@[a].ip
                        != self.responders@[b].ip by {
                        assert(before[a].ip == self.responders@[a].ip);
                        assert(before[b].ip == self.responders@[b].ip);
                    }
                    assert forall|a: int|
                        0 <= a < before.len() && before[a].ip == ip implies a == i by {
                        if a != i {
                            assert(before[a].ip != before[i as int].ip);
                        }
                    }
                }
            },
            None => {
                let mut st = ResponderStats::new(ip);
                st.sent = self.sent;
                st.record_response(rtt);
                self.responders.push(st);
                proof {
                    lemma_total_push(before, st);
                    assert(self.responders@.drop_last() =~= before);
                    assert(st.recent@ =~= seq![Some(rtt)]);
                }
            },
        }
        self.update_primary();
    }

    /// Marks a tick without an answer in every responder's rolling window.
    pub fn record_timeout(&mut self)
        requires
            old(self).wf(),
        ensures
            final(self).wf(),
            final(self).ttl == old(self).ttl,
            final(self).sent == old(self).sent,
            final(self).received == old(self).received,
            final(self).primary == old(self).primary,
            final(self).responders@.len() == old(self).responders@.len(),
            forall|i: int|
                0 <= i < old(self).responders@.len() ==> ResponderStats::timeout_step(
                    old(self).responders@[i],
                    #[trigger] final(self).responders@[i],
                ),
    {
        let ghost before = self.responders@;
        let ghost start = *self;
        let n = self.responders.len();
        let mut i: usize = 0;
        while i < n
            invariant
                self.ttl == start.ttl,
                self.sent == start.sent,
                self.received == start.received,
                self.primary == start.primary,
                n == before.len(),
                i <= n,
                self.responders@.len() == n,
                forall|j: int| 0 <= j < n ==> (#[trigger] self.responders@[j]).wf(),
                forall|j: int|
                    0 <= j < i ==> ResponderStats::timeout_step(
                        before[j],
                        #[trigger] self.responders@[j],
                    ),
                forall|j: int| i <= j < n ==> #[trigger] self.responders@[j] == before[j],
            decreases n - i,
        {
            let ghost cur = self.responders@;
            let mut st = self.responders.remove(i);
            st.record_timeout();
            self.responders.insert(i, st);
            assert(self.responders@ =~= cur.update(i as int, st));
            i = i + 1;
        }
        proof {
            let after = self.responders@;
            assert forall|a: int| 0 <= a < after.len() implies after[a].received
                == before[a].received && after[a].ip == before[a].ip by {}
            lemma_total_same_counts(before, after);
            if before.len() > 0 {
                let k = choose|k: int|
                    is_primary_index(before, k) && start.primary == Some(before[k].ip);
                assert(is_primary_index(after, k));
            }
        }
    }

    /// Recomputes the primary responder: the one with the most answers, the
    /// first seen among equals; none without responders.
    pub fn update_primary(&mut self)
        ensures
            primary_agrees(final(self).responders@, final(self).primary),
            final(self).ttl == old(self).ttl,
            final(self).sent == old(self).sent,
            final(self).received == old(self).received,
            final(self).responders == old(self).responders,
    {
        let n = self.responders.len();
        if n == 0 {
            self.primary = None;
            return;
        }
        let mut best: usize = 0;
        let mut j: usize = 1;
        while j < n
            invariant
                n == self.responders@.len(),
                best < j <= n,
                forall|m: int|
                    0 <= m < j ==> self.responders@[m].received <= self.responders@[best as int].received,
                forall|m: int|
                    0 <= m < best ==> self.responders@[m].received < self.responders@[best as int].received,
            decreases n - j,
        {
            if self.responders[j].received > self.responders[best].received {
                best = j;
            }
            j = j + 1;
        }
        self.primary = Some(self.responders[best].ip);
        assert(is_primary_index(self.responders@, best as int));
    }

    /// Statistics of the primary responder.
    pub fn primary_stats(&self) -> (r: Option<&ResponderStats>)
        requires
            self.wf(),
        ensures
            self.primary is None ==> r is None,
            self.primary matches Some(ip) ==> r matches Some(st) && st.ip == ip && has_ip(
                self.responders@,
                ip,
            ) && exists|i: int|
                0 <= i < self.responders@.len() && self.responders@[i] == *st,
    {
        match self.primary {
            None => None,
            Some(ip) => {
                proof {
                    let k = choose|k: int|
                        is_primary_index(self.responders@, k) && self.primary == Some(
                            self.responders@[k].ip,
                        );
                    assert(self.responders@[k].ip == ip);
                }
                match self.find_responder(ip) {
                    Some(i) => Some(&self.responders[i]),
                    None => None,
                }
            },
        }
    }

    /// Hop loss in hundredths of a percent, as for a responder.
    pub fn loss_pct(&self) -> (r: u64)
        ensures
            r == loss_hundredths(self.sent as int, self.received as int),
    {
        loss_of(self.sent, self.received)
    }
}

pub(crate) proof fn lemma_total_same_counts(a: Seq<ResponderStats>, b: Seq<ResponderStats>)
    requires
        a.len() == b.len(),
        forall|i: int| 0 <= i < a.len() ==> a[i].received == b[i].received,
    ensures
        total_received(a) == total_received(b),
    decreases a.len(),
{
    if a.len() > 0 {
        lemma_total_same_counts(a.drop_last(), b.drop_last());
    }
}

/// After any sequence of responses the primary responder is one with the
/// greatest received count at its hop, and there is none only when the hop
/// has no responders.
pub proof fn lemma_primary_has_most_answers(h: Hop)
    requires
        h.wf(),
    ensures
        h.responders@.len() == 0 <==> h.primary is None,
        h.primary matches Some(p) ==> exists|i: int|
            0 <= i < h.responders@.len() && h.responders@[i].ip == p && forall|j: int|
                0 <= j < h.responders@.len() ==> h.responders@[j].received
                    <= h.responders@[i].received,
{
    if h.responders@.len() > 0 {
        let k = choose|k: int| is_primary_index(h.responders@, k) && h.primary == Some(h.responders@[k].ip);
        assert(is_primary_index(h.responders@, k));
    }
}

/// A hop's answers never exceed the answers it counts in total: each
/// responder's count is bounded by the hop's.
pub proof fn lemma_responder_within_hop(h: Hop, i: int)
    requires
        h.wf(),
        0 <= i < h.responders@.len(),
    ensures
        h.responders@[i].received <= h.received,
{
    lemma_total_ge_each(h.responders@, i);
}

/// An answer counted at a hop where fewer answers than probes were counted
/// (it answers an earlier probe) keeps the sent count, raises the received
/// count by one, and leaves received at most sent.
pub proof fn lemma_answer_within_sent(before: Hop, after: Hop, ip: Addr, rtt: u64)
    requires
        before.received < before.sent,
        Hop::response_recorded(before, after, ip, rtt),
    ensures
        after.sent == before.sent,
        after.received == before.received + 1,
        after.received <= after.sent,
{
}

} // verus!

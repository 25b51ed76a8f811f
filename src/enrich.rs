use vstd::prelude::*;
use crate::addr::Addr;
use crate::hop::{is_primary_index, lemma_total_same_counts, Hop};
use crate::pending::PendingTable;
use crate::session::Session;
use crate::stats::{IxInfo, ResponderStats};

verus! {

/// Most addresses a worker looks up per tick.
pub const LOOKUP_BATCH: usize = 10;

/// Which enrichment a scan looks for.
#[derive(Clone, Copy, Debug, PartialEq, Eq, Structural)]
pub enum Enrichment {
    Hostname,
    Ix,
}

pub open spec fn lacks(st: ResponderStats, e: Enrichment) -> bool {
    match e {
        Enrichment::Hostname => st.hostname is None,
        Enrichment::Ix => st.ix is None,
    }
}

/// Addresses of the responders that lack the enrichment, in order.
pub open spec fn responders_lacking(rs: Seq<ResponderStats>, e: Enrichment) -> Seq<Addr>
    decreases rs.len(),
{
    if rs.len() == 0 {
        Seq::empty()
    } else if lacks(rs.last(), e) {
        responders_lacking(rs.drop_last(), e).push(rs.last().ip)
    } else {
        responders_lacking(rs.drop_last(), e)
    }
}

/// Addresses lacking the enrichment, hop by hop in TTL order; an address
/// that answers at several hops appears once per hop.
pub open spec fn hops_lacking(hops: Seq<Hop>, e: Enrichment) -> Seq<Addr>
    decreases hops.len(),
{
    if hops.len() == 0 {
        Seq::empty()
    } else {
        hops_lacking(hops.drop_last(), e) + responders_lacking(hops.last().responders@, e)
    }
}

/// `after` differs from `before` at most in hostnames and IX data.
pub open spec fn same_but_enrichment(before: ResponderStats, after: ResponderStats) -> bool {
    &&& after.ip == before.ip
    &&& after.asn == before.asn
    &&& after.geo == before.geo
    &&& after.sent == before.sent
    &&& after.received == before.received
    &&& after.min_rtt == before.min_rtt
    &&& after.max_rtt == before.max_rtt
    &&& after.rtt_sum == before.rtt_sum
    &&& after.rtt_sq_sum == before.rtt_sq_sum
    &&& after.jitter_x16 == before.jitter_x16
    &&& after.last_rtt == before.last_rtt
    &&& after.recent == before.recent
}

/// The value that enrichment `e` writes at responders with address `ip`.
pub enum EnrichValue {
    Hostname(String),
    Ix(IxInfo),
}

/// `after` is `before` with `value` written if its address is `ip`.
pub open spec fn enriched(before: ResponderStats, after: ResponderStats, ip: Addr, value: EnrichValue) -> bool {
    &&& same_but_enrichment(before, after)
    &&& if before.ip == ip {
        match value {
            EnrichValue::Hostname(h) => after.hostname == Some(h) && after.ix == before.ix,
            EnrichValue::Ix(x) => after.ix == Some(x) && after.hostname == before.hostname,
        }
    } else {
        after.hostname == before.hostname && after.ix == before.ix
    }
}

impl IxInfo {
    /// A copy equal to `self`.
    pub fn duplicate(&self) -> (r: IxInfo)
        ensures
            r == *self,
    {
        IxInfo { name: self.name.clone(), city: copy_opt(&self.city), country: copy_opt(&self.country) }
    }
}

pub(crate) fn copy_opt(o: &Option<String>) -> (r: Option<String>)
    ensures
        r == *o,
{
    match o {
        Some(s) => Some(s.clone()),
        None => None,
    }
}

impl EnrichValue {
    pub fn duplicate(&self) -> (r: EnrichValue)
        ensures
            r == *self,
    {
        match self {
            EnrichValue::Hostname(h) => EnrichValue::Hostname(h.clone()),
            EnrichValue::Ix(x) => EnrichValue::Ix(x.duplicate()),
        }
    }
}

impl Hop {
    /// Addresses of this hop's responders that lack the enrichment.
    pub fn addrs_lacking(&self, e: Enrichment) -> (r: Vec<Addr>)
        ensures
            r@ == responders_lacking(self.responders@, e),
    {
        let mut out: Vec<Addr> = Vec::new();
        let mut j: usize = 0;
        while j < self.responders.len()
            invariant
                j <= self.responders@.len(),
                out@ == responders_lacking(self.responders@.take(j as int), e),
            decreases self.responders@.len() - j,
        {
            assert(self.responders@.take(j + 1).drop_last() =~= self.responders@.take(j as int));
            let st = &self.responders[j];
            let missing = match e {
                Enrichment::Hostname => st.hostname.is_none(),
                Enrichment::Ix => st.ix.is_none(),
            };
            if missing {
                out.push(st.ip);
            }
            j = j + 1;
        }
        assert(self.responders@.take(self.responders@.len() as int) =~= self.responders@);
        out
    }

    /// Writes the enrichment into the statistics of the responder at `ip`.
    pub fn apply_enrichment(&mut self, ip: Addr, value: &EnrichValue)
        requires
            old(self).wf(),
        ensures
            final(self).wf(),
            final(self).ttl == old(self).ttl,
            final(self).sent == old(self).sent,
            final(self).received == old(self).received,
            final(self).primary == old(self).primary,
            final(self).responders@.len() == old(self).responders@.len(),
            forall|j: int|
                0 <= j < old(self).responders@.len() ==> enriched(
                    old(self).responders@[j],
                    #[trigger] final(self).responders@[j],
                    ip,
                    *value,
                ),
    {
        let ghost start = *self;
        let n = self.responders.len();
        let mut j: usize = 0;
        while j < n
            invariant
                n == start.responders@.len(),
                j <= n,
                self.ttl == start.ttl,
                self.sent == start.sent,
                self.received == start.received,
                self.primary == start.primary,
                self.responders@.len() == n,
                forall|m: int|
                    0 <= m < j ==> enriched(start.responders@[m], #[trigger] self.responders@[m], ip, *value),
                forall|m: int| j <= m < n ==> #[trigger] self.responders@[m] == start.responders@[m],
            decreases n - j,
        {
            if self.responders[j].ip.same(&ip) {
                let ghost cur = self.responders@;
                let mut st = self.responders.remove(j);
                match value {
                    EnrichValue::Hostname(h) => {
                        st.hostname = Some(h.clone());
                    },
                    EnrichValue::Ix(x) => {
                        st.ix = Some(x.duplicate());
                    },
                }
                self.responders.insert(j, st);
                assert(self.responders@ =~= cur.update(j as int, st));
            }
            j = j + 1;
        }
        proof {
            let a = start.responders@;
            let b = self.responders@;
            lemma_total_same_counts(a, b);
            assert forall|x: int, y: int| 0 <= x < y < b.len() implies b[x].ip != b[y].ip by {
                assert(enriched(a[x], b[x], ip, *value));
                assert(enriched(a[y], b[y], ip, *value));
            }
            assert forall|m: int| 0 <= m < b.len() implies (#[trigger] b[m]).wf() by {
                assert(enriched(a[m], b[m], ip, *value));
                assert(a[m].wf());
            }
            if a.len() > 0 {
                let k = choose|k: int| is_primary_index(a, k) && start.primary == Some(a[k].ip);
                assert(enriched(a[k], b[k], ip, *value));
                assert forall|m: int| 0 <= m < b.len() implies b[m].received <= b[k].received by {
                    assert(enriched(a[m], b[m], ip, *value));
                }
                assert forall|m: int| 0 <= m < k implies b[m].received < b[k].received by {
                    assert(enriched(a[m], b[m], ip, *value));
                }
                assert(is_primary_index(b, k));
            }
        }
    }
}

impl Session {
    /// Addresses lacking the enrichment over all hops, in TTL order.
    pub fn addrs_lacking(&self, e: Enrichment) -> (r: Vec<Addr>)
        ensures
            r@ == hops_lacking(self.hops@, e),
    {
        let mut out: Vec<Addr> = Vec::new();
        let mut i: usize = 0;
        while i < self.hops.len()
            invariant
                i <= self.hops@.len(),
                out@ == hops_lacking(self.hops@.take(i as int), e),
            decreases self.hops@.len() - i,
        {
            assert(self.hops@.take(i + 1).drop_last() =~= self.hops@.take(i as int));
            let mut part = self.hops[i].addrs_lacking(e);
            out.append(&mut part);
            i = i + 1;
        }
        assert(self.hops@.take(self.hops@.len() as int) =~= self.hops@);
        out
    }

    /// Addresses of responders without a hostname.
    pub fn addrs_missing_hostname(&self) -> (r: Vec<Addr>)
        ensures
            r@ == hops_lacking(self.hops@, Enrichment::Hostname),
    {
        self.addrs_lacking(Enrichment::Hostname)
    }

    /// Addresses of responders without IX data.
    pub fn addrs_missing_ix(&self) -> (r: Vec<Addr>)
        ensures
            r@ == hops_lacking(self.hops@, Enrichment::Ix),
    {
        self.addrs_lacking(Enrichment::Ix)
    }

    /// Writes the enrichment into every hop's statistics for `ip`; counts,
    /// samples and the primary responders stay as they were.
    pub fn apply_enrichment(&mut self, ip: Addr, value: &EnrichValue)
        requires
            old(self).wf(),
        ensures
            final(self).wf(),
            forall|p: PendingTable| old(self).tracks(&p) ==> #[trigger] final(self).tracks(&p),
            final(self).target == old(self).target,
            final(self).config == old(self).config,
            final(self).complete == old(self).complete,
            final(self).total_sent == old(self).total_sent,
            final(self).paused == old(self).paused,
            final(self).started_at == old(self).started_at,
            final(self).hops@.len() == old(self).hops@.len(),
            forall|i: int|
                0 <= i < old(self).hops@.len() ==> {
                    let a = old(self).hops@[i];
                    let b = #[trigger] final(self).hops@[i];
                    &&& b.ttl == a.ttl
                    &&& b.sent == a.sent
                    &&& b.received == a.received
                    &&& b.primary == a.primary
                    &&& b.responders@.len() == a.responders@.len()
                    &&& forall|j: int|
                        0 <= j < a.responders@.len() ==> enriched(
                            a.responders@[j],
                            #[trigger] b.responders@[j],
                            ip,
                            *value,
                        )
                },
    {
        let ghost start = *self;
        let n = self.hops.len();
        let mut i: usize = 0;
        while i < n
            invariant
                n == start.hops@.len(),
                i <= n,
                self.hops@.len() == n,
                self.target == start.target,
                self.config == start.config,
                self.complete == start.complete,
                self.total_sent == start.total_sent,
                self.paused == start.paused,
                self.started_at == start.started_at,
                start.wf(),
                forall|m: int| 0 <= m < n ==> (#[trigger] self.hops@[m]).ttl == m + 1 && self.hops@[m].wf(),
                forall|m: int|
                    0 <= m < i ==> {
                        let a = start.hops@[m];
                        let b = #[trigger] self.hops@[m];
                        &&& b.ttl == a.ttl
                        &&& b.sent == a.sent
                        &&& b.received == a.received
                        &&& b.primary == a.primary
                        &&& b.responders@.len() == a.responders@.len()
                        &&& forall|j: int|
                            0 <= j < a.responders@.len() ==> enriched(
                                a.responders@[j],
                                #[trigger] b.responders@[j],
                                ip,
                                *value,
                            )
                    },
                forall|m: int| i <= m < n ==> #[trigger] self.hops@[m] == start.hops@[m],
            decreases n - i,
        {
            let ghost cur = self.hops@;
            let mut h = self.hops.remove(i);
            h.apply_enrichment(ip, value);
            self.hops.insert(i, h);
            assert(self.hops@ =~= cur.update(i as int, h));
            i = i + 1;
        }
        proof {
            assert forall|p: PendingTable| start.tracks(&p) implies #[trigger] self.tracks(&p) by {
                assert forall|m: int| 0 <= m < self.hops@.len() implies (#[trigger] self.hops@[m]).received + p.pending_at(m + 1) <= self.hops@[m].sent by {
                    assert(start.hops@[m].received + p.pending_at(m + 1) <= start.hops@[m].sent);
                }
            }
        }
    }
}

/// The first `limit` addresses of a scan, in order.
pub fn first_batch(addrs: &Vec<Addr>, limit: usize) -> (r: Vec<Addr>)
    ensures
        r@ == addrs@.take(if limit < addrs@.len() { limit as int } else { addrs@.len() as int }),
{
    let n = if limit < addrs.len() { limit } else { addrs.len() };
    let mut out: Vec<Addr> = Vec::new();
    let mut i: usize = 0;
    while i < n
        invariant
            n <= addrs@.len(),
            i <= n,
            out@ == addrs@.take(i as int),
        decreases n - i,
    {
        out.push(addrs[i]);
        i = i + 1;
        assert(out@ =~= addrs@.take(i as int));
    }
    out
}

} // verus!

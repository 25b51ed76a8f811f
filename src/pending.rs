use vstd::prelude::*;
use crate::addr::Addr;
use crate::probe_id::ProbeId;

verus! {

/// A probe handed to the kernel and not yet answered or reaped.
#[derive(Clone, Copy, Debug, PartialEq, Eq, Structural)]
pub struct PendingProbe {
    /// Monotonic send time in microseconds.
    pub sent_at: u64,
    pub target: Addr,
    /// Flow of a multi-flow sweep; zero in single-flow mode.
    pub flow_id: u8,
    /// Source port of a UDP or TCP probe; none for ICMP.
    pub original_src_port: Option<u16>,
    /// Probe size during path-MTU discovery.
    pub packet_size: Option<u16>,
}

/// Key of a pending probe: identity, flow, target, and whether it is a
/// path-MTU probe.
pub type PendingKey = (ProbeId, u8, Addr, bool);

/// In-flight probes, each key at most once.
pub struct PendingTable {
    entries: Vec<(PendingKey, PendingProbe)>,
}

/// The probe pending under `k` in an entry sequence.
pub open spec fn lookup(s: Seq<(PendingKey, PendingProbe)>, k: PendingKey) -> Option<PendingProbe>
    decreases s.len(),
{
    if s.len() == 0 {
        None
    } else if s.last().0 == k {
        Some(s.last().1)
    } else {
        lookup(s.drop_last(), k)
    }
}

/// Number of entries whose probe was sent with TTL `ttl`.
pub open spec fn count_ttl(s: Seq<(PendingKey, PendingProbe)>, ttl: int) -> int
    decreases s.len(),
{
    if s.len() == 0 {
        0
    } else {
        count_ttl(s.drop_last(), ttl) + if s.last().0.0.ttl == ttl {
            1int
        } else {
            0
        }
    }
}

pub open spec fn unique_keys(s: Seq<(PendingKey, PendingProbe)>) -> bool {
    forall|i: int, j: int| 0 <= i < j < s.len() ==> s[i].0 != s[j].0
}

/// A probe sent at `sent_at` has waited longer than `timeout` at `now`.
pub open spec fn is_expired(sent_at: u64, now: u64, timeout: u64) -> bool {
    now > sent_at + timeout
}

/// A probe is pending and has waited longer than `timeout` at `now`.
pub open spec fn pending_expired(o: Option<PendingProbe>, now: u64, timeout: u64) -> bool {
    match o {
        Some(p) => is_expired(p.sent_at, now, timeout),
        None => false,
    }
}

/// Keys of the expired entries, in entry order.
pub open spec fn expired_keys(s: Seq<(PendingKey, PendingProbe)>, now: u64, timeout: u64) -> Seq<PendingKey>
    decreases s.len(),
{
    if s.len() == 0 {
        Seq::empty()
    } else if is_expired(s.last().1.sent_at, now, timeout) {
        expired_keys(s.drop_last(), now, timeout).push(s.last().0)
    } else {
        expired_keys(s.drop_last(), now, timeout)
    }
}

/// Number of keys sent with TTL `ttl`.
pub open spec fn keys_at_ttl(ks: Seq<PendingKey>, ttl: int) -> nat
    decreases ks.len(),
{
    if ks.len() == 0 {
        0
    } else {
        keys_at_ttl(ks.drop_last(), ttl) + if ks.last().0.ttl == ttl {
            1nat
        } else {
            0
        }
    }
}

proof fn lemma_expired_keys_from(s: Seq<(PendingKey, PendingProbe)>, now: u64, timeout: u64, x: int)
    requires
        0 <= x < expired_keys(s, now, timeout).len(),
    ensures
        exists|b: int| 0 <= b < s.len() && s[b].0 == #[trigger] expired_keys(s, now, timeout)[x],
    decreases s.len(),
{
    let p = s.drop_last();
    let e = expired_keys(p, now, timeout);
    if x < e.len() {
        lemma_expired_keys_from(p, now, timeout, x);
        let b = choose|b: int| 0 <= b < p.len() && p[b].0 == e[x];
        assert(s[b] == p[b]);
    } else {
        assert(s[s.len() - 1].0 == expired_keys(s, now, timeout)[x]);
    }
}

proof fn lemma_expired_keys_distinct(s: Seq<(PendingKey, PendingProbe)>, now: u64, timeout: u64)
    requires
        unique_keys(s),
    ensures
        expired_keys(s, now, timeout).no_duplicates(),
    decreases s.len(),
{
    if s.len() > 0 {
        let p = s.drop_last();
        assert(unique_keys(p)) by {
            assert forall|i: int, j: int| 0 <= i < j < p.len() implies p[i].0 != p[j].0 by {
                assert(p[i] == s[i] && p[j] == s[j]);
            }
        }
        lemma_expired_keys_distinct(p, now, timeout);
        let e = expired_keys(p, now, timeout);
        if is_expired(s.last().1.sent_at, now, timeout) {
            assert forall|x: int| 0 <= x < e.len() implies e[x] != s.last().0 by {
                lemma_expired_keys_from(p, now, timeout, x);
                let b = choose|b: int| 0 <= b < p.len() && p[b].0 == e[x];
                assert(p[b] == s[b]);
            }
            let r = e.push(s.last().0);
            assert forall|i: int, j: int| 0 <= i < r.len() && 0 <= j < r.len() && i != j implies r[i] != r[j] by {
                if i < e.len() && j < e.len() {
                } else if i < e.len() {
                    assert(r[j] == s.last().0);
                } else {
                    assert(r[i] == s.last().0);
                }
            }
        }
    }
}

proof fn lemma_lookup_found(s: Seq<(PendingKey, PendingProbe)>, i: int)
    requires
        unique_keys(s),
        0 <= i < s.len(),
    ensures
        lookup(s, s[i].0) == Some(s[i].1),
    decreases s.len(),
{
    if i < s.len() - 1 {
        lemma_lookup_found(s.drop_last(), i);
    }
}

proof fn lemma_lookup_absent(s: Seq<(PendingKey, PendingProbe)>, k: PendingKey)
    requires
        forall|i: int| 0 <= i < s.len() ==> s[i].0 != k,
    ensures
        lookup(s, k) is None,
    decreases s.len(),
{
    if s.len() > 0 {
        lemma_lookup_absent(s.drop_last(), k);
    }
}

proof fn lemma_lookup_some(s: Seq<(PendingKey, PendingProbe)>, k: PendingKey)
    requires
        lookup(s, k) is Some,
    ensures
        exists|i: int| 0 <= i < s.len() && s[i].0 == k && lookup(s, k) == Some(s[i].1),
    decreases s.len(),
{
    if s.last().0 != k {
        lemma_lookup_some(s.drop_last(), k);
        let i = choose|i: int| 0 <= i < s.len() - 1 && s.drop_last()[i].0 == k && lookup(s.drop_last(), k) == Some(s.drop_last()[i].1);
        assert(s[i] == s.drop_last()[i]);
    }
}

proof fn lemma_lookup_update(s: Seq<(PendingKey, PendingProbe)>, i: int, v: PendingProbe, k: PendingKey)
    requires
        unique_keys(s),
        0 <= i < s.len(),
    ensures
        lookup(s.update(i, (s[i].0, v)), k) == if k == s[i].0 {
            Some(v)
        } else {
            lookup(s, k)
        },
    decreases s.len(),
{
    let t = s.update(i, (s[i].0, v));
    if i < s.len() - 1 {
        assert(t.drop_last() =~= s.drop_last().update(i, (s[i].0, v)));
        lemma_lookup_update(s.drop_last(), i, v, k);
        if k == s[i].0 {
            assert(s.last().0 != k);
        }
    } else {
        assert(t.drop_last() =~= s.drop_last());
    }
}

proof fn lemma_lookup_remove(s: Seq<(PendingKey, PendingProbe)>, i: int, k: PendingKey)
    requires
        unique_keys(s),
        0 <= i < s.len(),
    ensures
        lookup(s.remove(i), k) == if k == s[i].0 {
            None
        } else {
            lookup(s, k)
        },
    decreases s.len(),
{
    let t = s.remove(i);
    if i < s.len() - 1 {
        assert(t.drop_last() =~= s.drop_last().remove(i));
        assert(t.last() == s.last());
        lemma_lookup_remove(s.drop_last(), i, k);
        if k == s[i].0 {
            assert(s.last().0 != k);
        }
    } else {
        assert(t =~= s.drop_last());
        if k == s[i].0 {
            assert forall|j: int| 0 <= j < t.len() implies t[j].0 != k by {
                assert(t[j] == s[j]);
            }
            lemma_lookup_absent(t, k);
        }
    }
}

proof fn lemma_count_update(s: Seq<(PendingKey, PendingProbe)>, i: int, x: (PendingKey, PendingProbe), ttl: int)
    requires
        0 <= i < s.len(),
        x.0.0.ttl == s[i].0.0.ttl,
    ensures
        count_ttl(s.update(i, x), ttl) == count_ttl(s, ttl),
    decreases s.len(),
{
    if i < s.len() - 1 {
        assert(s.update(i, x).drop_last() =~= s.drop_last().update(i, x));
        lemma_count_update(s.drop_last(), i, x, ttl);
    } else {
        assert(s.update(i, x).drop_last() =~= s.drop_last());
    }
}

proof fn lemma_count_remove(s: Seq<(PendingKey, PendingProbe)>, i: int, ttl: int)
    requires
        0 <= i < s.len(),
    ensures
        count_ttl(s.remove(i), ttl) == count_ttl(s, ttl) - if s[i].0.0.ttl == ttl {
            1int
        } else {
            0
        },
    decreases s.len(),
{
    if i < s.len() - 1 {
        assert(s.remove(i).drop_last() =~= s.drop_last().remove(i));
        lemma_count_remove(s.drop_last(), i, ttl);
    } else {
        assert(s.remove(i) =~= s.drop_last());
    }
}

proof fn lemma_count_push(s: Seq<(PendingKey, PendingProbe)>, x: (PendingKey, PendingProbe), ttl: int)
    ensures
        count_ttl(s.push(x), ttl) == count_ttl(s, ttl) + if x.0.0.ttl == ttl {
            1int
        } else {
            0
        },
{
    assert(s.push(x).drop_last() =~= s);
}

pub(crate) proof fn lemma_count_nonneg(s: Seq<(PendingKey, PendingProbe)>, ttl: int)
    ensures
        count_ttl(s, ttl) >= 0,
    decreases s.len(),
{
    if s.len() > 0 {
        lemma_count_nonneg(s.drop_last(), ttl);
    }
}

/// An entry present under `k` counts towards its TTL.
pub(crate) proof fn lemma_count_positive(s: Seq<(PendingKey, PendingProbe)>, k: PendingKey)
    requires
        lookup(s, k) is Some,
    ensures
        count_ttl(s, k.0.ttl as int) >= 1,
    decreases s.len(),
{
    lemma_count_nonneg(s.drop_last(), k.0.ttl as int);
    if s.last().0 != k {
        lemma_count_positive(s.drop_last(), k);
    }
}

fn key_eq(a: &PendingKey, b: &PendingKey) -> (r: bool)
    ensures
        r == (*a == *b),
{
    a.0.same(&b.0) && a.1 == b.1 && a.2.same(&b.2) && a.3 == b.3
}

impl PendingTable {
    /// The entries, oldest insertion first.
    pub closed spec fn entries(&self) -> Seq<(PendingKey, PendingProbe)> {
        self.entries@
    }

    pub open spec fn wf(&self) -> bool {
        unique_keys(self.entries())
    }

    /// The probe pending under `k`.
    pub open spec fn spec_get(&self, k: PendingKey) -> Option<PendingProbe> {
        lookup(self.entries(), k)
    }

    /// Keys of the probes that have waited longer than `timeout` at `now`,
    /// oldest insertion first.
    pub open spec fn expired(&self, now: u64, timeout: u64) -> Seq<PendingKey> {
        expired_keys(self.entries(), now, timeout)
    }

    /// Number of pending probes sent with TTL `ttl` that have waited longer
    /// than `timeout` at `now`.
    pub open spec fn expired_at(&self, ttl: int, now: u64, timeout: u64) -> nat {
        keys_at_ttl(self.expired(now, timeout), ttl)
    }

    /// Number of pending probes sent with TTL `ttl`.
    pub open spec fn pending_at(&self, ttl: int) -> int {
        count_ttl(self.entries(), ttl)
    }

    pub fn new() -> (r: PendingTable)
        ensures
            r.wf(),
            r.entries().len() == 0,
            forall|k: PendingKey| r.spec_get(k) is None,
            forall|t: int| r.pending_at(t) == 0,
    {
        PendingTable { entries: Vec::new() }
    }

    pub fn len(&self) -> (r: usize)
        ensures
            r == self.entries().len(),
    {
        self.entries.len()
    }

    fn position(&self, k: &PendingKey) -> (r: Option<usize>)
        requires
            self.wf(),
        ensures
            r is None ==> forall|i: int| 0 <= i < self.entries().len() ==> self.entries()[i].0 != *k,
            r matches Some(i) ==> i < self.entries().len() && self.entries()[i as int].0 == *k,
    {
        let mut i: usize = 0;
        while i < self.entries.len()
            invariant
                i <= self.entries@.len(),
                forall|j: int| 0 <= j < i ==> self.entries@[j].0 != *k,
            decreases self.entries@.len() - i,
        {
            if key_eq(&self.entries[i].0, k) {
                return Some(i);
            }
            i = i + 1;
        }
        None
    }

    /// Records a probe under `k`. A probe already pending under the same key
    /// is replaced and its sample is lost.
    pub fn insert(&mut self, k: PendingKey, p: PendingProbe)
        requires
            old(self).wf(),
        ensures
            final(self).wf(),
            forall|k2: PendingKey| #[trigger] final(self).spec_get(k2) == if k2 == k {
                Some(p)
            } else {
                old(self).spec_get(k2)
            },
            forall|t: int| #[trigger] final(self).pending_at(t) <= old(self).pending_at(t) + if t == k.0.ttl {
                1int
            } else {
                0
            },
            forall|t: int| t != k.0.ttl ==> #[trigger] final(self).pending_at(t) == old(self).pending_at(t),
    {
        let ghost s = self.entries@;
        match self.position(&k) {
            Some(i) => {
                self.entries.set(i, (k, p));
                proof {
                    assert(self.entries@ == s.update(i as int, (s[i as int].0, p)));
                    assert forall|k2: PendingKey| #[trigger] lookup(self.entries@, k2) == if k2 == k {
                        Some(p)
                    } else {
                        lookup(s, k2)
                    } by {
                        lemma_lookup_update(s, i as int, p, k2);
                    }
                    assert forall|t: int| #[trigger] count_ttl(self.entries@, t) == count_ttl(s, t) by {
                        lemma_count_update(s, i as int, (k, p), t);
                    }
                    assert forall|a: int, b: int| 0 <= a < b < self.entries@.len() implies self.entries@[a].0 != self.entries@[b].0 by {
                        assert(self.entries@[a].0 == s[a].0);
                        assert(self.entries@[b].0 == s[b].0);
                    }
                }
            },
            None => {
                self.entries.push((k, p));
                proof {
                    assert forall|t: int| #[trigger] count_ttl(self.entries@, t) == count_ttl(s, t) + if (k, p).0.0.ttl == t { 1int } else { 0 } by {
                        lemma_count_push(s, (k, p), t);
                    }
                    assert(self.entries@.drop_last() =~= s);
                }
            },
        }
    }

    /// Takes out the probe pending under `k`, if any.
    pub fn remove(&mut self, k: &PendingKey) -> (r: Option<PendingProbe>)
        requires
            old(self).wf(),
        ensures
            final(self).wf(),
            r == old(self).spec_get(*k),
            forall|k2: PendingKey| #[trigger] final(self).spec_get(k2) == if k2 == *k {
                None
            } else {
                old(self).spec_get(k2)
            },
            forall|t: int| #[trigger] final(self).pending_at(t) == old(self).pending_at(t) - if r is Some && t == k.0.ttl {
                1int
            } else {
                0
            },
    {
        let ghost s = self.entries@;
        match self.position(k) {
            Some(i) => {
                let (_, p) = self.entries.remove(i);
                proof {
                    lemma_lookup_found(s, i as int);
                    assert forall|k2: PendingKey| #[trigger] lookup(self.entries@, k2) == if k2 == *k {
                        None
                    } else {
                        lookup(s, k2)
                    } by {
                        lemma_lookup_remove(s, i as int, k2);
                    }
                    assert forall|t: int| #[trigger] count_ttl(self.entries@, t) == count_ttl(s, t) - if s[i as int].0.0.ttl == t { 1int } else { 0 } by {
                        lemma_count_remove(s, i as int, t);
                    }
                    assert forall|a: int, b: int| 0 <= a < b < self.entries@.len() implies self.entries@[a].0 != self.entries@[b].0 by {
                        if a < i {
                            assert(self.entries@[a] == s[a]);
                        } else {
                            assert(self.entries@[a] == s[a + 1]);
                        }
                        if b < i {
                            assert(self.entries@[b] == s[b]);
                        } else {
                            assert(self.entries@[b] == s[b + 1]);
                        }
                    }
                }
                Some(p)
            },
            None => {
                proof {
                    lemma_lookup_absent(s, *k);
                }
                None
            },
        }
    }

    /// Takes out every probe that has waited longer than `timeout` at `now`
    /// and returns their keys, oldest insertion first.
    pub fn reap_expired(&mut self, now: u64, timeout: u64) -> (r: Vec<PendingKey>)
        requires
            old(self).wf(),
        ensures
            final(self).wf(),
            forall|k: PendingKey| #[trigger] final(self).spec_get(k) == match old(self).spec_get(k) {
                Some(p) => if is_expired(p.sent_at, now, timeout) {
                    None
                } else {
                    Some(p)
                },
                None => None,
            },
            forall|i: int| 0 <= i < r@.len() ==> pending_expired(old(self).spec_get(#[trigger] r@[i]), now, timeout),
            forall|k: PendingKey| pending_expired(old(self).spec_get(k), now, timeout) ==> r@.contains(k),
            forall|t: int| #[trigger] final(self).pending_at(t) <= old(self).pending_at(t),
            r@ == old(self).expired(now, timeout),
            r@.no_duplicates(),
    {
        let ghost s = self.entries@;
        let mut kept: Vec<(PendingKey, PendingProbe)> = Vec::new();
        let mut gone: Vec<PendingKey> = Vec::new();
        let n = self.entries.len();
        let mut i: usize = 0;
        while i < n
            invariant
                n == s.len(),
                self.entries@ == s,
                unique_keys(s),
                i <= n,
                unique_keys(kept@),
                forall|a: int| 0 <= a < kept@.len() ==> exists|b: int| 0 <= b < i && #[trigger] kept@[a] == s[b],
                forall|k: PendingKey| #[trigger] lookup(kept@, k) == match lookup(s.take(i as int), k) {
                    Some(p) => if is_expired(p.sent_at, now, timeout) { None } else { Some(p) },
                    None => None,
                },
                forall|a: int| 0 <= a < gone@.len() ==> pending_expired(lookup(s, #[trigger] gone@[a]), now, timeout),
                forall|b: int| 0 <= b < i && is_expired(s[b].1.sent_at, now, timeout) ==> gone@.contains(#[trigger] s[b].0),
                forall|t: int| #[trigger] count_ttl(kept@, t) <= count_ttl(s.take(i as int), t),
                gone@ == expired_keys(s.take(i as int), now, timeout),
            decreases n - i,
        {
            let e = self.entries[i];
            let ghost pre = s.take(i as int);
            proof {
                assert(s.take(i + 1) =~= pre.push(s[i as int]));
                assert(s.take(i + 1).drop_last() =~= pre);
                lemma_lookup_found(s, i as int);
                assert forall|k: PendingKey| #[trigger] lookup(s.take(i + 1), k) == if k == s[i as int].0 { Some(s[i as int].1) } else { lookup(pre, k) } by {
                    assert(s.take(i + 1).drop_last() =~= pre);
                }
                assert forall|t: int| #[trigger] count_ttl(s.take(i + 1), t) == count_ttl(pre, t) + if s[i as int].0.0.ttl == t { 1int } else { 0 } by {
                    lemma_count_push(pre, s[i as int], t);
                }
            }
            proof {
                assert forall|j: int| 0 <= j < pre.len() implies pre[j].0 != e.0 by {
                    assert(s[j].0 != s[i as int].0);
                }
                lemma_lookup_absent(pre, e.0);
            }
            if now > e.1.sent_at && now - e.1.sent_at > timeout {
                let ghost gb = gone@;
                gone.push(e.0);
                proof {
                    assert forall|b: int| 0 <= b < i + 1 && is_expired(s[b].1.sent_at, now, timeout) implies gone@.contains(#[trigger] s[b].0) by {
                        if b == i {
                            assert(gone@[gone@.len() - 1] == s[b].0);
                        } else {
                            assert(gb.contains(s[b].0));
                            let idx = choose|idx: int| 0 <= idx < gb.len() && gb[idx] == s[b].0;
                            assert(gone@[idx] == gb[idx]);
                        }
                    }
                    assert forall|a: int| 0 <= a < gone@.len() implies pending_expired(lookup(s, #[trigger] gone@[a]), now, timeout) by {
                        if a < gb.len() {
                            assert(gone@[a] == gb[a]);
                        }
                    }
                }
            } else {
                let ghost kb = kept@;
                proof {
                    assert forall|a: int| 0 <= a < kb.len() implies kb[a].0 != e.0 by {
                        let b = choose|b: int| 0 <= b < i && kb[a] == s[b];
                        assert(s[b].0 != s[i as int].0);
                    }
                }
                kept.push(e);
                proof {
                    assert forall|t: int| #[trigger] count_ttl(kept@, t) == count_ttl(kb, t) + if e.0.0.ttl == t { 1int } else { 0 } by {
                        lemma_count_push(kb, e, t);
                    }
                    assert forall|k: PendingKey| #[trigger] lookup(kept@, k) == if k == e.0 { Some(e.1) } else { lookup(kb, k) } by {
                        assert(kept@.drop_last() =~= kb);
                    }
                    assert forall|a: int| 0 <= a < kept@.len() implies exists|b: int| 0 <= b < i + 1 && #[trigger] kept@[a] == s[b] by {
                        if a == kept@.len() - 1 {
                            assert(kept@[a] == s[i as int]);
                        } else {
                            assert(kept@[a] == kb[a]);
                        }
                    }
                }
            }
            proof {
                if !is_expired(e.1.sent_at, now, timeout) {
                    lemma_count_nonneg(kept@, e.0.0.ttl as int);
                }
                assert forall|t: int| #[trigger] count_ttl(kept@, t) <= count_ttl(s.take(i + 1), t) by {
                    lemma_count_nonneg(kept@, t);
                }
            }
            i = i + 1;
        }
        proof {
            assert(s.take(n as int) =~= s);
            lemma_expired_keys_distinct(s, now, timeout);
            assert forall|k: PendingKey| pending_expired(lookup(s, k), now, timeout) implies gone@.contains(k) by {
                lemma_lookup_some(s, k);
                let b = choose|b: int| 0 <= b < s.len() && s[b].0 == k && lookup(s, k) == Some(s[b].1);
            }
        }
        self.entries = kept;
        gone
    }
}

/// Creates an empty pending table.
pub fn new_pending_map() -> (r: PendingTable)
    ensures
        r.wf(),
        r.entries().len() == 0,
        forall|k: PendingKey| r.spec_get(k) is None,
        forall|t: int| r.pending_at(t) == 0,
{
    PendingTable::new()
}

} // verus!

use vstd::prelude::*;
use crate::addr::Addr;

verus! {

/// Microseconds from `at` to `now`; zero if `now` is earlier.
pub open spec fn age(at: u64, now: u64) -> int {
    if now >= at {
        now - at
    } else {
        0
    }
}

/// Per-address results, each remembered with the time it was stored and
/// trusted for `ttl_us` microseconds. Each address appears once.
pub struct TtlCache<V> {
    entries: Vec<(Addr, V, u64)>,
    ttl_us: u64,
}

/// The entry stored for `ip`.
pub open spec fn find_entry<V>(s: Seq<(Addr, V, u64)>, ip: Addr) -> Option<(V, u64)>
    decreases s.len(),
{
    if s.len() == 0 {
        None
    } else if s.last().0 == ip {
        Some((s.last().1, s.last().2))
    } else {
        find_entry(s.drop_last(), ip)
    }
}

proof fn lemma_find_absent<V>(s: Seq<(Addr, V, u64)>, ip: Addr)
    requires
        forall|i: int| 0 <= i < s.len() ==> s[i].0 != ip,
    ensures
        find_entry(s, ip) is None,
    decreases s.len(),
{
    if s.len() > 0 {
        lemma_find_absent(s.drop_last(), ip);
    }
}

proof fn lemma_find_at<V>(s: Seq<(Addr, V, u64)>, i: int)
    requires
        0 <= i < s.len(),
        forall|a: int, b: int| 0 <= a < b < s.len() ==> s[a].0 != s[b].0,
    ensures
        find_entry(s, s[i].0) == Some((s[i].1, s[i].2)),
    decreases s.len(),
{
    if i < s.len() - 1 {
        lemma_find_at(s.drop_last(), i);
    }
}

proof fn lemma_find_update<V>(s: Seq<(Addr, V, u64)>, i: int, x: (Addr, V, u64), ip: Addr)
    requires
        0 <= i < s.len(),
        x.0 == s[i].0,
        forall|a: int, b: int| 0 <= a < b < s.len() ==> s[a].0 != s[b].0,
    ensures
        find_entry(s.update(i, x), ip) == if ip == x.0 {
            Some((x.1, x.2))
        } else {
            find_entry(s, ip)
        },
    decreases s.len(),
{
    let t = s.update(i, x);
    if i < s.len() - 1 {
        assert(t.drop_last() =~= s.drop_last().update(i, x));
        lemma_find_update(s.drop_last(), i, x, ip);
    } else {
        assert(t.drop_last() =~= s.drop_last());
        if ip != x.0 {
        }
    }
}

impl<V> TtlCache<V> {
    pub closed spec fn entries(&self) -> Seq<(Addr, V, u64)> {
        self.entries@
    }

    pub closed spec fn ttl(&self) -> u64 {
        self.ttl_us
    }

    pub open spec fn wf(&self) -> bool {
        forall|a: int, b: int|
            0 <= a < b < self.entries().len() ==> self.entries()[a].0 != self.entries()[b].0
    }

    /// The value stored for `ip` and still trusted at `now`.
    pub open spec fn spec_fresh(&self, ip: Addr, now: u64) -> Option<V> {
        match find_entry(self.entries(), ip) {
            Some((v, at)) => if age(at, now) < self.ttl() {
                Some(v)
            } else {
                None
            },
            None => None,
        }
    }

    pub fn new(ttl_us: u64) -> (r: TtlCache<V>)
        ensures
            r.wf(),
            r.ttl() == ttl_us,
            forall|ip: Addr| find_entry(r.entries(), ip) is None,
    {
        TtlCache { entries: Vec::new(), ttl_us }
    }

    fn position(&self, ip: Addr) -> (r: Option<usize>)
        ensures
            r is None ==> forall|i: int| 0 <= i < self.entries().len() ==> self.entries()[i].0 != ip,
            r matches Some(i) ==> i < self.entries().len() && self.entries()[i as int].0 == ip,
    {
        let mut i: usize = 0;
        while i < self.entries.len()
            invariant
                i <= self.entries@.len(),
                forall|j: int| 0 <= j < i ==> self.entries@[j].0 != ip,
            decreases self.entries@.len() - i,
        {
            if self.entries[i].0.same(&ip) {
                return Some(i);
            }
            i = i + 1;
        }
        None
    }

    /// The value stored for `ip`, if stored less than the time to live before `now`.
    pub fn get(&self, ip: Addr, now: u64) -> (r: Option<&V>)
        requires
            self.wf(),
        ensures
            r matches Some(v) ==> self.spec_fresh(ip, now) == Some(*v),
            r is None ==> self.spec_fresh(ip, now) is None,
    {
        match self.position(ip) {
            Some(i) => {
                proof {
                    lemma_find_at(self.entries@, i as int);
                }
                let at = self.entries[i].2;
                let a = if now >= at { now - at } else { 0 };
                if a < self.ttl_us {
                    Some(&self.entries[i].1)
                } else {
                    None
                }
            },
            None => {
                proof {
                    lemma_find_absent(self.entries@, ip);
                }
                None
            },
        }
    }

    /// Stores `v` for `ip` at time `now`, replacing what was stored.
    pub fn insert(&mut self, ip: Addr, v: V, now: u64)
        requires
            old(self).wf(),
        ensures
            final(self).wf(),
            final(self).ttl() == old(self).ttl(),
            forall|a: Addr| #[trigger] find_entry(final(self).entries(), a) == if a == ip {
                Some((v, now))
            } else {
                find_entry(old(self).entries(), a)
            },
    {
        let ghost s = self.entries@;
        match self.position(ip) {
            Some(i) => {
                self.entries.set(i, (ip, v, now));
                proof {
                    assert forall|a: Addr| #[trigger] find_entry(self.entries@, a) == if a == ip {
                        Some((v, now))
                    } else {
                        find_entry(s, a)
                    } by {
                        lemma_find_update(s, i as int, (ip, v, now), a);
                    }
                    assert forall|x: int, y: int| 0 <= x < y < self.entries@.len() implies self.entries@[x].0 != self.entries@[y].0 by {
                        assert(self.entries@[x].0 == s[x].0);
                        assert(self.entries@[y].0 == s[y].0);
                    }
                }
            },
            None => {
                self.entries.push((ip, v, now));
                proof {
                    assert forall|a: Addr| #[trigger] find_entry(self.entries@, a) == if a == ip {
                        Some((v, now))
                    } else {
                        find_entry(s, a)
                    } by {
                        assert(self.entries@.drop_last() =~= s);
                    }
                }
            },
        }
    }
}

} // verus!

use vstd::prelude::*;
use vstd::string::*;
use crate::addr::Addr;
use crate::cache::TtlCache;
use crate::enrich::copy_opt;

verus! {

/// How long a reverse-DNS answer, found or not, is trusted: one hour, in microseconds.
pub const DNS_CACHE_TTL_US: u64 = 3_600_000_000;

/// `name` without its trailing dots.
pub open spec fn without_trailing_dots(name: Seq<char>) -> Seq<char>
    decreases name.len(),
{
    if name.len() > 0 && name.last() == '.' {
        without_trailing_dots(name.drop_last())
    } else {
        name
    }
}

/// Removes every trailing `.` of a DNS name (`router.example.net.` becomes
/// `router.example.net`).
pub fn trim_trailing_dots(name: &str) -> (r: String)
    ensures
        r@ == without_trailing_dots(name@),
{
    let n = name.unicode_len();
    let mut end: usize = n;
    assert(name@.take(n as int) =~= name@);
    while end > 0 && name.get_char(end - 1) == '.'
        invariant
            end <= n,
            n == name@.len(),
            without_trailing_dots(name@) == without_trailing_dots(name@.take(end as int)),
        decreases end,
    {
        assert(name@.take(end as int).drop_last() =~= name@.take(end - 1));
        end = end - 1;
    }
    let kept = name.substring_char(0, end);
    assert(kept@ =~= name@.take(end as int));
    String::from_str(kept)
}

/// Reverse-DNS results per address, negative answers included.
pub struct DnsLookup {
    cache: TtlCache<Option<String>>,
}

impl DnsLookup {
    pub closed spec fn results(&self) -> TtlCache<Option<String>> {
        self.cache
    }

    pub open spec fn wf(&self) -> bool {
        self.results().wf() && self.results().ttl() == DNS_CACHE_TTL_US
    }

    pub fn new() -> (r: DnsLookup)
        ensures
            r.wf(),
            forall|ip: Addr, now: u64| r.results().spec_fresh(ip, now) is None,
    {
        DnsLookup { cache: TtlCache::new(DNS_CACHE_TTL_US) }
    }

    /// The answer cached for `ip` and still trusted at `now` (microseconds).
    pub fn cached(&self, ip: Addr, now: u64) -> (r: Option<Option<String>>)
        requires
            self.wf(),
        ensures
            r == self.results().spec_fresh(ip, now),
    {
        match self.cache.get(ip, now) {
            Some(v) => Some(copy_opt(v)),
            None => None,
        }
    }

    /// Caches the answer of a lookup made at `now`: the name with its
    /// trailing dots removed, or the failure.
    pub fn store(&mut self, ip: Addr, answer: Option<String>, now: u64) -> (r: Option<String>)
        requires
            old(self).wf(),
        ensures
            final(self).wf(),
            r matches Some(h) ==> answer matches Some(a) && h@ == without_trailing_dots(a@),
            r is None ==> answer is None,
            forall|a: Addr| #[trigger] crate::cache::find_entry(final(self).results().entries(), a) == if a == ip {
                Some((r, now))
            } else {
                crate::cache::find_entry(old(self).results().entries(), a)
            },
    {
        let name = match answer {
            Some(a) => Some(trim_trailing_dots(a.as_str())),
            None => None,
        };
        self.cache.insert(ip, copy_opt(&name), now);
        name
    }
}

} // verus!

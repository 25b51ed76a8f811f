use vstd::prelude::*;
use crate::addr::Addr;
use crate::cache::TtlCache;
use crate::clock::wall_clock_micros;
use crate::enrich::copy_opt;
use crate::stats::IxInfo;

verus! {

/// Format version of the on-disk cache.
pub const IX_CACHE_VERSION: u32 = 1;
/// Age at which the on-disk cache is no longer fresh: 24 hours, in seconds.
pub const IX_CACHE_MAX_AGE_SECS: u64 = 86400;
/// How long a per-address lookup result is trusted: one hour, in microseconds.
pub const IX_IP_CACHE_TTL_US: u64 = 3_600_000_000;

/// An exchange record of the provider.
#[derive(Clone, Debug)]
pub struct PdbIx {
    pub id: u32,
    pub name: String,
    pub city: Option<String>,
    pub country: Option<String>,
}

/// An exchange peering LAN of the provider.
#[derive(Clone, Copy, Debug)]
pub struct PdbIxlan {
    pub id: u32,
    pub ix_id: u32,
}

/// A prefix of a peering LAN.
#[derive(Clone, Debug)]
pub struct PdbIxpfx {
    pub ixlan_id: u32,
    pub prefix: String,
}

/// A prefix with the exchange it belongs to, as the disk cache stores it.
#[derive(Clone, Debug)]
pub struct PrefixCacheEntry {
    pub prefix: String,
    pub ix_name: String,
    pub ix_city: Option<String>,
    pub ix_country: Option<String>,
}

/// The disk cache: a format version, the fetch time in Unix seconds, and
/// the assembled prefixes.
#[derive(Clone, Debug)]
pub struct IxCache {
    pub version: u32,
    pub fetched_at: u64,
    pub prefixes: Vec<PrefixCacheEntry>,
}

/// A network given by an address and a prefix length.
#[derive(Clone, Copy, Debug, PartialEq, Eq, Structural)]
pub struct Prefix {
    pub addr: Addr,
    pub len: u8,
}

impl Prefix {
    pub open spec fn wf(self) -> bool {
        match self.addr {
            Addr::V4(_) => self.len <= 32,
            Addr::V6(_) => self.len <= 128,
        }
    }

    /// An address lies in the network when the two agree on the first `len`
    /// bits; an IPv4 network holds no IPv6 address and the reverse.
    pub open spec fn spec_contains(self, ip: Addr) -> bool {
        match (self.addr, ip) {
            (Addr::V4(a), Addr::V4(b)) => self.len == 0 || (a >> ((32 - self.len) as u32)) == (b >> ((
            32 - self.len) as u32)),
            (Addr::V6(a), Addr::V6(b)) => self.len == 0 || (a >> ((128 - self.len) as u128)) == (b
                >> ((128 - self.len) as u128)),
            _ => false,
        }
    }

    pub fn contains(&self, ip: Addr) -> (r: bool)
        requires
            self.wf(),
        ensures
            r == self.spec_contains(ip),
    {
        match (self.addr, ip) {
            (Addr::V4(a), Addr::V4(b)) => self.len == 0 || (a >> ((32 - self.len) as u32)) == (b >> ((
            32 - self.len) as u32)),
            (Addr::V6(a), Addr::V6(b)) => self.len == 0 || (a >> ((128 - self.len) as u128)) == (b
                >> ((128 - self.len) as u128)),
            _ => false,
        }
    }
}

/// The network that ipnetwork reads from a prefix text such as
/// `206.223.115.0/24`, if it reads one.
pub uninterp spec fn parsed_prefix(text: Seq<char>) -> Option<Prefix>;

/// Relies on `FromStr for ipnetwork::IpNetwork` (ipnetwork 0.20): IPv4 is
/// tried before IPv6, and a prefix longer than the address is refused.
#[verifier::external_body]
fn parse_prefix(text: &str) -> (r: Option<Prefix>)
    ensures
        r == parsed_prefix(text@),
        r matches Some(p) ==> p.wf(),
{
    match text.parse::<ipnetwork::IpNetwork>() {
        Ok(ipnetwork::IpNetwork::V4(n)) => Some(Prefix { addr: Addr::V4(u32::from(n.ip())), len: n.prefix() }),
        Ok(ipnetwork::IpNetwork::V6(n)) => Some(Prefix { addr: Addr::V6(u128::from(n.ip())), len: n.prefix() }),
        Err(_) => None,
    }
}

/// A parsed prefix with its exchange.
#[derive(Clone, Debug)]
pub struct PrefixEntry {
    pub network: Prefix,
    pub info: IxInfo,
}

impl IxCache {
    /// Fresh while younger than 24 hours at `now_secs`; a fetch time in the
    /// future counts as fresh.
    pub open spec fn spec_expired_at(&self, now_secs: u64) -> bool {
        now_secs >= self.fetched_at + IX_CACHE_MAX_AGE_SECS
    }

    /// Whether the cache is 24 hours old or more at `now_secs` (Unix seconds).
    pub fn is_expired_at(&self, now_secs: u64) -> (r: bool)
        ensures
            r == self.spec_expired_at(now_secs),
    {
        now_secs >= self.fetched_at && now_secs - self.fetched_at >= IX_CACHE_MAX_AGE_SECS
    }

    /// Whether the cache is 24 hours old or more by the wall clock.
    pub fn is_expired(&self) -> (r: bool)
        ensures
            exists|now: u64| r == self.spec_expired_at(now),
    {
        let now = wall_clock_micros() / 1_000_000;
        self.is_expired_at(now)
    }

    /// The cache has the current format version.
    pub open spec fn spec_current(&self) -> bool {
        self.version == IX_CACHE_VERSION
    }
}

/// The exchange of a LAN: the last LAN record with that id wins.
pub open spec fn lan_exchange(lans: Seq<PdbIxlan>, id: u32) -> Option<u32>
    decreases lans.len(),
{
    if lans.len() == 0 {
        None
    } else if lans.last().id == id {
        Some(lans.last().ix_id)
    } else {
        lan_exchange(lans.drop_last(), id)
    }
}

/// The exchange record with that id: the last one wins.
pub open spec fn exchange(ixs: Seq<PdbIx>, id: u32) -> Option<PdbIx>
    decreases ixs.len(),
{
    if ixs.len() == 0 {
        None
    } else if ixs.last().id == id {
        Some(ixs.last())
    } else {
        exchange(ixs.drop_last(), id)
    }
}

/// The cache entry for one prefix record, when its LAN and exchange are known.
pub open spec fn join_prefix(ixs: Seq<PdbIx>, lans: Seq<PdbIxlan>, p: PdbIxpfx) -> Option<PrefixCacheEntry> {
    match lan_exchange(lans, p.ixlan_id) {
        Some(ix_id) => match exchange(ixs, ix_id) {
            Some(ix) => Some(
                PrefixCacheEntry { prefix: p.prefix, ix_name: ix.name, ix_city: ix.city, ix_country: ix.country },
            ),
            None => None,
        },
        None => None,
    }
}

/// The joined prefix list, in the order of the prefix records, dropping
/// records whose LAN or exchange is unknown.
pub open spec fn joined(ixs: Seq<PdbIx>, lans: Seq<PdbIxlan>, pfxs: Seq<PdbIxpfx>) -> Seq<PrefixCacheEntry>
    decreases pfxs.len(),
{
    if pfxs.len() == 0 {
        Seq::empty()
    } else {
        let rest = joined(ixs, lans, pfxs.drop_last());
        match join_prefix(ixs, lans, pfxs.last()) {
            Some(e) => rest.push(e),
            None => rest,
        }
    }
}

fn find_lan(lans: &Vec<PdbIxlan>, id: u32) -> (r: Option<u32>)
    ensures
        r == lan_exchange(lans@, id),
{
    let mut i: usize = lans.len();
    assert(lans@.take(lans@.len() as int) =~= lans@);
    while i > 0
        invariant
            i <= lans@.len(),
            lan_exchange(lans@, id) == lan_exchange(lans@.take(i as int), id),
        decreases i,
    {
        assert(lans@.take(i as int).drop_last() =~= lans@.take(i - 1));
        if lans[i - 1].id == id {
            return Some(lans[i - 1].ix_id);
        }
        i = i - 1;
    }
    None
}

fn find_ix(ixs: &Vec<PdbIx>, id: u32) -> (r: Option<&PdbIx>)
    ensures
        r matches Some(x) ==> exchange(ixs@, id) == Some(*x),
        r is None ==> exchange(ixs@, id) is None,
{
    let mut i: usize = ixs.len();
    proof {
        assert(ixs@.take(ixs@.len() as int) =~= ixs@);
    }
    while i > 0
        invariant
            i <= ixs@.len(),
            exchange(ixs@, id) == exchange(ixs@.take(i as int), id),
        decreases i,
    {
        assert(ixs@.take(i as int).drop_last() =~= ixs@.take(i - 1));
        if ixs[i - 1].id == id {
            return Some(&ixs[i - 1]);
        }
        i = i - 1;
    }
    None
}

/// Joins the provider's three tables into cache entries: each prefix record
/// goes through its LAN to its exchange; records whose join fails are
/// dropped. The cache is stamped with the current version and `now_secs`.
pub fn assemble_cache(ixs: &Vec<PdbIx>, lans: &Vec<PdbIxlan>, pfxs: &Vec<PdbIxpfx>, now_secs: u64) -> (r: IxCache)
    ensures
        r.version == IX_CACHE_VERSION,
        r.fetched_at == now_secs,
        r.prefixes@ == joined(ixs@, lans@, pfxs@),
{
    proof {
        assert(lans@.take(lans@.len() as int) =~= lans@);
    }
    let mut out: Vec<PrefixCacheEntry> = Vec::new();
    let mut i: usize = 0;
    while i < pfxs.len()
        invariant
            i <= pfxs@.len(),
            out@ == joined(ixs@, lans@, pfxs@.take(i as int)),
        decreases pfxs@.len() - i,
    {
        assert(pfxs@.take(i + 1).drop_last() =~= pfxs@.take(i as int));
        let p = &pfxs[i];
        match find_lan(lans, p.ixlan_id) {
            Some(ix_id) => match find_ix(ixs, ix_id) {
                Some(ix) => {
                    out.push(
                        PrefixCacheEntry {
                            prefix: p.prefix.clone(),
                            ix_name: ix.name.clone(),
                            ix_city: copy_opt(&ix.city),
                            ix_country: copy_opt(&ix.country),
                        },
                    );
                },
                None => {},
            },
            None => {},
        }
        i = i + 1;
    }
    assert(pfxs@.take(pfxs@.len() as int) =~= pfxs@);
    IxCache { version: IX_CACHE_VERSION, fetched_at: now_secs, prefixes: out }
}

/// The in-memory table built from cache entries: those whose prefix text
/// parses, in order.
pub open spec fn populated(entries: Seq<PrefixCacheEntry>) -> Seq<PrefixEntry>
    decreases entries.len(),
{
    if entries.len() == 0 {
        Seq::empty()
    } else {
        let rest = populated(entries.drop_last());
        let e = entries.last();
        match parsed_prefix(e.prefix@) {
            Some(n) => rest.push(
                PrefixEntry { network: n, info: IxInfo { name: e.ix_name, city: e.ix_city, country: e.ix_country } },
            ),
            None => rest,
        }
    }
}

/// The exchange of the first table entry whose network holds `ip`.
pub open spec fn first_match(table: Seq<PrefixEntry>, ip: Addr) -> Option<IxInfo>
    decreases table.len(),
{
    if table.len() == 0 {
        None
    } else if table[0].network.spec_contains(ip) {
        Some(table[0].info)
    } else {
        first_match(table.drop_first(), ip)
    }
}

pub open spec fn table_wf(table: Seq<PrefixEntry>) -> bool {
    forall|i: int| 0 <= i < table.len() ==> (#[trigger] table[i]).network.wf()
}

fn copy_ix_opt(o: &Option<IxInfo>) -> (r: Option<IxInfo>)
    ensures
        r == *o,
{
    match o {
        Some(x) => Some(x.duplicate()),
        None => None,
    }
}

/// Exchange lookup by prefix containment, with a per-address result cache.
pub struct IxLookup {
    prefixes: Vec<PrefixEntry>,
    loaded: bool,
    ip_cache: TtlCache<Option<IxInfo>>,
}

impl IxLookup {
    pub closed spec fn table(&self) -> Seq<PrefixEntry> {
        self.prefixes@
    }

    pub closed spec fn spec_loaded(&self) -> bool {
        self.loaded
    }

    pub closed spec fn results(&self) -> TtlCache<Option<IxInfo>> {
        self.ip_cache
    }

    pub open spec fn wf(&self) -> bool {
        &&& table_wf(self.table())
        &&& self.results().wf()
        &&& self.results().ttl() == IX_IP_CACHE_TTL_US
    }

    /// An empty, unloaded lookup.
    pub fn new() -> (r: IxLookup)
        ensures
            r.wf(),
            !r.spec_loaded(),
            r.table().len() == 0,
            forall|ip: Addr, now: u64| r.results().spec_fresh(ip, now) is None,
    {
        IxLookup { prefixes: Vec::new(), loaded: false, ip_cache: TtlCache::new(IX_IP_CACHE_TTL_US) }
    }

    /// Number of prefixes in the table.
    pub fn prefix_count(&self) -> (r: usize)
        ensures
            r == self.table().len(),
    {
        self.prefixes.len()
    }

    pub fn is_loaded(&self) -> (r: bool)
        ensures
            r == self.spec_loaded(),
    {
        self.loaded
    }

    /// Replaces the table by the parseable entries of `cache`.
    pub fn populate_from_cache(&mut self, cache: &IxCache)
        requires
            old(self).wf(),
        ensures
            final(self).wf(),
            final(self).spec_loaded() == old(self).spec_loaded(),
            final(self).table() == populated(cache.prefixes@),
            final(self).results() == old(self).results(),
    {
        let mut entries: Vec<PrefixEntry> = Vec::new();
        let mut i: usize = 0;
        while i < cache.prefixes.len()
            invariant
                i <= cache.prefixes@.len(),
                entries@ == populated(cache.prefixes@.take(i as int)),
                table_wf(entries@),
            decreases cache.prefixes@.len() - i,
        {
            assert(cache.prefixes@.take(i + 1).drop_last() =~= cache.prefixes@.take(i as int));
            let p = &cache.prefixes[i];
            match parse_prefix(p.prefix.as_str()) {
                Some(network) => {
                    entries.push(
                        PrefixEntry {
                            network,
                            info: IxInfo {
                                name: p.ix_name.clone(),
                                city: copy_opt(&p.ix_city),
                                country: copy_opt(&p.ix_country),
                            },
                        },
                    );
                },
                None => {},
            }
            i = i + 1;
        }
        assert(cache.prefixes@.take(cache.prefixes@.len() as int) =~= cache.prefixes@);
        self.prefixes = entries;
    }

    /// Marks the table loaded: lookups scan it from now on.
    pub fn mark_loaded(&mut self)
        ensures
            final(self).spec_loaded(),
            final(self).table() == old(self).table(),
            final(self).results() == old(self).results(),
    {
        self.loaded = true;
    }

    /// The exchange of the first prefix holding `ip`, by a linear scan.
    pub fn find(&self, ip: Addr) -> (r: Option<IxInfo>)
        requires
            self.wf(),
        ensures
            r == first_match(self.table(), ip),
    {
        let mut i: usize = 0;
        assert(self.prefixes@.skip(0) =~= self.prefixes@);
        while i < self.prefixes.len()
            invariant
                i <= self.prefixes@.len(),
                table_wf(self.prefixes@),
                first_match(self.prefixes@, ip) == first_match(self.prefixes@.skip(i as int), ip),
            decreases self.prefixes@.len() - i,
        {
            assert(self.prefixes@.skip(i as int)[0] == self.prefixes@[i as int]);
            assert(self.prefixes@.skip(i as int).drop_first() =~= self.prefixes@.skip(i + 1));
            if self.prefixes[i].network.contains(ip) {
                return Some(self.prefixes[i].info.duplicate());
            }
            i = i + 1;
        }
        None
    }

    /// The result cached for `ip` and still trusted at `now` (microseconds).
    pub fn cached(&self, ip: Addr, now: u64) -> (r: Option<Option<IxInfo>>)
        requires
            self.wf(),
        ensures
            r == self.results().spec_fresh(ip, now),
    {
        match self.ip_cache.get(ip, now) {
            Some(v) => Some(copy_ix_opt(v)),
            None => None,
        }
    }

    /// Looks up the exchange of `ip` at `now` (microseconds): a result cached
    /// within the hour is returned as it is; otherwise, once the table is
    /// loaded, the table is scanned and the result cached. Unloaded, it finds
    /// nothing and caches nothing.
    pub fn lookup(&mut self, ip: Addr, now: u64) -> (r: Option<IxInfo>)
        requires
            old(self).wf(),
        ensures
            final(self).wf(),
            final(self).table() == old(self).table(),
            final(self).spec_loaded() == old(self).spec_loaded(),
            r == match old(self).results().spec_fresh(ip, now) {
                Some(hit) => hit,
                None => if old(self).spec_loaded() {
                    first_match(old(self).table(), ip)
                } else {
                    None
                },
            },
            (old(self).results().spec_fresh(ip, now) is Some || !old(self).spec_loaded())
                ==> final(self).results() == old(self).results(),
            (old(self).results().spec_fresh(ip, now) is None && old(self).spec_loaded()) ==> (
            forall|a: Addr| #[trigger] crate::cache::find_entry(final(self).results().entries(), a) == if a == ip {
                Some((r, now))
            } else {
                crate::cache::find_entry(old(self).results().entries(), a)
            }),
    {
        match self.cached(ip, now) {
            Some(hit) => return hit,
            None => {},
        }
        if !self.loaded {
            return None;
        }
        let result = self.find(ip);
        self.ip_cache.insert(ip, copy_ix_opt(&result), now);
        result
    }
}

/// Where the table comes from at load time.
#[derive(Clone, Copy, Debug, PartialEq, Eq, Structural)]
pub enum LoadStep {
    /// The disk cache is current and fresh: use it.
    UseCache,
    /// Fetch the provider's tables.
    Fetch,
}

/// What to do when fetching the provider's tables failed.
#[derive(Clone, Copy, Debug, PartialEq, Eq, Structural)]
pub enum FetchFailed {
    /// Use the disk cache although it is expired, and warn once.
    UseStale,
    /// No usable cache: report the error and stay unloaded.
    Fail,
}

/// Chooses the source of the table: a disk cache of the current version
/// that is fresh at `now_secs`, otherwise a fetch.
pub fn plan_load(disk: &Option<IxCache>, now_secs: u64) -> (r: LoadStep)
    ensures
        r == if (disk matches Some(c) && c.spec_current() && !c.spec_expired_at(now_secs)) {
            LoadStep::UseCache
        } else {
            LoadStep::Fetch
        },
{
    match disk {
        Some(c) => if c.version == IX_CACHE_VERSION && !c.is_expired_at(now_secs) {
            LoadStep::UseCache
        } else {
            LoadStep::Fetch
        },
        None => LoadStep::Fetch,
    }
}

/// After a failed fetch, a disk cache of the current version is used even
/// when expired; a missing or outdated one leaves the lookup unloaded.
pub fn after_fetch_failure(disk: &Option<IxCache>) -> (r: FetchFailed)
    ensures
        r == if (disk matches Some(c) && c.spec_current()) {
            FetchFailed::UseStale
        } else {
            FetchFailed::Fail
        },
{
    match disk {
        Some(c) => if c.version == IX_CACHE_VERSION {
            FetchFailed::UseStale
        } else {
            FetchFailed::Fail
        },
        None => FetchFailed::Fail,
    }
}

} // verus!

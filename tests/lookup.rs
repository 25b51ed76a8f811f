use std::time::{SystemTime, UNIX_EPOCH};
use ttl::{
    after_fetch_failure, assemble_cache, plan_load, trim_trailing_dots, Addr, Prefix,
    DnsLookup, FetchFailed, IxCache, IxLookup, LoadStep, PdbIx, PdbIxlan, PdbIxpfx,
    PrefixCacheEntry, IX_CACHE_VERSION,
};

fn entry(prefix: &str, name: &str) -> PrefixCacheEntry {
    PrefixCacheEntry {
        prefix: prefix.to_string(),
        ix_name: name.to_string(),
        ix_city: Some("London".to_string()),
        ix_country: Some("GB".to_string()),
    }
}

fn table_of(prefixes: &[&str]) -> IxLookup {
    let cache = IxCache {
        version: IX_CACHE_VERSION,
        fetched_at: 0,
        prefixes: prefixes.iter().map(|p| entry(p, p)).collect(),
    };
    let mut ix = IxLookup::new();
    ix.populate_from_cache(&cache);
    ix.mark_loaded();
    ix
}

#[test]
fn test_prefix_matching() {
    let network = Prefix { addr: Addr::v4(206, 223, 115, 0), len: 24 };
    let inside = Addr::v4(206, 223, 115, 100);
    let outside = Addr::v4(206, 223, 116, 100);

    assert!(network.contains(inside));
    assert!(!network.contains(outside));
}

#[test]
fn prefix_text_is_parsed_by_ipnetwork() {
    let mut ix = table_of(&["206.223.115.0/24"]);
    assert_eq!(ix.prefix_count(), 1);
    assert!(ix.lookup(Addr::v4(206, 223, 115, 100), 0).is_some());
    assert!(ix.lookup(Addr::v4(206, 223, 116, 100), 0).is_none());
    let ix = table_of(&["10.0.0.0/33", "not a prefix", "2001:db8::/129", ""]);
    assert_eq!(ix.prefix_count(), 0);
}

#[test]
fn prefix_edge_cases() {
    let mut ix = table_of(&["0.0.0.0/0"]);
    assert!(ix.lookup(Addr::v4(8, 8, 8, 8), 0).is_some());
    assert!(ix.lookup(Addr::V6(1), 0).is_none());
    let mut ix = table_of(&["192.0.2.7/32"]);
    assert!(ix.lookup(Addr::v4(192, 0, 2, 7), 0).is_some());
    assert!(ix.lookup(Addr::v4(192, 0, 2, 6), 0).is_none());
    let mut ix = table_of(&["2001:7f8:4::/64"]);
    assert!(ix.lookup(Addr::V6(0x2001_07f8_0004_0000_0000_0000_0000_0001), 0).is_some());
    assert!(ix.lookup(Addr::V6(0x2001_07f8_0005_0000_0000_0000_0000_0001), 0).is_none());
    assert!(ix.lookup(Addr::v4(10, 0, 0, 1), 0).is_none());
    let mut ix = table_of(&["10.0.0.0/8", "10.1.0.0/16"]);
    assert_eq!(ix.lookup(Addr::v4(10, 1, 2, 3), 0).unwrap().name, "10.0.0.0/8");
    let host = Prefix { addr: Addr::V6(5), len: 128 };
    assert!(host.contains(Addr::V6(5)));
    assert!(!host.contains(Addr::V6(4)));
}

#[test]
fn test_ix_cache_expiry() {
    let now = SystemTime::now().duration_since(UNIX_EPOCH).unwrap().as_secs();

    let fresh = IxCache { version: IX_CACHE_VERSION, fetched_at: now, prefixes: vec![] };
    assert!(!fresh.is_expired());

    let old = IxCache { version: IX_CACHE_VERSION, fetched_at: now - 25 * 60 * 60, prefixes: vec![] };
    assert!(old.is_expired());
}

#[test]
fn cache_expiry_boundary() {
    let c = IxCache { version: IX_CACHE_VERSION, fetched_at: 1_000, prefixes: vec![] };
    assert!(!c.is_expired_at(1_000));
    assert!(!c.is_expired_at(1_000 + 86_399));
    assert!(c.is_expired_at(1_000 + 86_400));
    assert!(!c.is_expired_at(10));
}

#[test]
fn ix_match_and_address_cache() {
    let cache = IxCache {
        version: IX_CACHE_VERSION,
        fetched_at: 0,
        prefixes: vec![entry("206.223.115.0/24", "LINX")],
    };
    let mut ix = IxLookup::new();
    let ip = Addr::v4(206, 223, 115, 42);
    assert!(ix.lookup(ip, 5).is_none());
    assert!(ix.cached(ip, 5).is_none());
    ix.populate_from_cache(&cache);
    ix.mark_loaded();
    assert!(ix.is_loaded());
    assert_eq!(ix.prefix_count(), 1);
    let first = ix.lookup(ip, 10).unwrap();
    assert_eq!(first.name, "LINX");
    assert_eq!(first.city.as_deref(), Some("London"));
    let hit = ix.cached(ip, 20).unwrap().unwrap();
    assert_eq!(hit.name, "LINX");
    assert_eq!(ix.lookup(ip, 20).unwrap().name, "LINX");
    assert!(ix.cached(ip, 10 + 3_600_000_000).is_none());
    assert!(ix.lookup(Addr::v4(206, 223, 116, 1), 30).is_none());
    assert!(matches!(ix.cached(Addr::v4(206, 223, 116, 1), 31), Some(None)));
}

#[test]
fn provider_outage_with_stale_cache() {
    let now = 10_000_000u64;
    let stale = IxCache {
        version: IX_CACHE_VERSION,
        fetched_at: now - 25 * 3600,
        prefixes: vec![entry("206.223.115.0/24", "LINX"), entry("bogus", "X")],
    };
    let disk = Some(stale);
    assert_eq!(plan_load(&disk, now), LoadStep::Fetch);
    assert_eq!(after_fetch_failure(&disk), FetchFailed::UseStale);
    let mut ix = IxLookup::new();
    ix.populate_from_cache(disk.as_ref().unwrap());
    assert!(!ix.is_loaded());
    ix.mark_loaded();
    assert_eq!(ix.prefix_count(), 1);
    assert_eq!(ix.lookup(Addr::v4(206, 223, 115, 1), 1).unwrap().name, "LINX");
}

#[test]
fn load_policy() {
    let now = 500_000u64;
    let fresh = IxCache { version: IX_CACHE_VERSION, fetched_at: now - 60, prefixes: vec![] };
    assert_eq!(plan_load(&Some(fresh), now), LoadStep::UseCache);
    let other = IxCache { version: IX_CACHE_VERSION + 1, fetched_at: now, prefixes: vec![] };
    assert_eq!(plan_load(&Some(other.clone()), now), LoadStep::Fetch);
    assert_eq!(after_fetch_failure(&Some(other)), FetchFailed::Fail);
    assert_eq!(plan_load(&None, now), LoadStep::Fetch);
    assert_eq!(after_fetch_failure(&None), FetchFailed::Fail);
}

#[test]
fn provider_tables_are_joined() {
    let ixs = vec![
        PdbIx { id: 1, name: "LINX".to_string(), city: Some("London".to_string()), country: Some("GB".to_string()) },
        PdbIx { id: 2, name: "AMS-IX".to_string(), city: None, country: Some("NL".to_string()) },
    ];
    let lans = vec![PdbIxlan { id: 10, ix_id: 1 }, PdbIxlan { id: 20, ix_id: 2 }, PdbIxlan { id: 30, ix_id: 99 }];
    let pfxs = vec![
        PdbIxpfx { ixlan_id: 20, prefix: "80.249.208.0/21".to_string() },
        PdbIxpfx { ixlan_id: 30, prefix: "192.0.2.0/24".to_string() },
        PdbIxpfx { ixlan_id: 10, prefix: "195.66.224.0/22".to_string() },
        PdbIxpfx { ixlan_id: 40, prefix: "198.51.100.0/24".to_string() },
    ];
    let cache = assemble_cache(&ixs, &lans, &pfxs, 1234);
    assert_eq!(cache.version, IX_CACHE_VERSION);
    assert_eq!(cache.fetched_at, 1234);
    assert_eq!(cache.prefixes.len(), 2);
    assert_eq!(cache.prefixes[0].prefix, "80.249.208.0/21");
    assert_eq!(cache.prefixes[0].ix_name, "AMS-IX");
    assert_eq!(cache.prefixes[0].ix_city, None);
    assert_eq!(cache.prefixes[1].ix_name, "LINX");
    assert_eq!(cache.prefixes[1].ix_country.as_deref(), Some("GB"));
}

#[test]
fn later_lan_record_wins() {
    let ixs = vec![
        PdbIx { id: 1, name: "A".to_string(), city: None, country: None },
        PdbIx { id: 2, name: "B".to_string(), city: None, country: None },
    ];
    let lans = vec![PdbIxlan { id: 10, ix_id: 1 }, PdbIxlan { id: 10, ix_id: 2 }];
    let pfxs = vec![PdbIxpfx { ixlan_id: 10, prefix: "192.0.2.0/24".to_string() }];
    let cache = assemble_cache(&ixs, &lans, &pfxs, 0);
    assert_eq!(cache.prefixes[0].ix_name, "B");
}

#[test]
fn trailing_dots_are_trimmed() {
    assert_eq!(trim_trailing_dots("router.example.net."), "router.example.net");
    assert_eq!(trim_trailing_dots("a.b.."), "a.b");
    assert_eq!(trim_trailing_dots("plain"), "plain");
    assert_eq!(trim_trailing_dots("..."), "");
    assert_eq!(trim_trailing_dots(""), "");
}

#[test]
fn dns_answers_are_cached_for_an_hour() {
    let mut dns = DnsLookup::new();
    let a = Addr::v4(192, 0, 2, 1);
    let b = Addr::v4(192, 0, 2, 2);
    assert!(dns.cached(a, 0).is_none());
    assert_eq!(dns.store(a, Some("host.example.".to_string()), 100).as_deref(), Some("host.example"));
    assert_eq!(dns.store(b, None, 100), None);
    assert_eq!(dns.cached(a, 200), Some(Some("host.example".to_string())));
    assert_eq!(dns.cached(b, 200), Some(None));
    assert_eq!(dns.cached(a, 100 + 3_600_000_000), None);
}

//! Path measurement core: probe identity, ICMP echo construction and
//! correlation, per-hop statistics, pending-probe bookkeeping, the probe
//! scheduler's decisions and the enrichment caches.
pub mod addr;
pub mod cache;
mod clock;
pub mod correlate;
pub mod engine;
pub mod export;
pub mod enrich;
pub mod hop;
pub mod ix;
pub mod packet;
pub mod pending;
pub mod probe_id;
pub mod rdns;
pub mod session;
pub mod sparkline;
pub mod stats;
pub mod ui;

pub use addr::Addr;
pub use probe_id::{IcmpResponseType, ProbeId, ProbeResult};
pub use correlate::{parse_icmp_response, ParsedResponse};
pub use packet::{
    build_echo_request, build_echo_request_at, DEFAULT_PAYLOAD_SIZE, ICMP_HEADER_SIZE,
    MAX_PAYLOAD_SIZE, MIN_PAYLOAD_SIZE,
};
pub use stats::{isqrt, AsnInfo, GeoInfo, IxInfo, ResponderStats, MAX_RTT_US, MAX_SAMPLES, RECENT_WINDOW};
pub use hop::Hop;
pub use pending::{new_pending_map, PendingKey, PendingProbe, PendingTable};
pub use session::{reap_timeout_us, Config, Session, Target};
pub use engine::{next_seq, TickPlan};
pub use enrich::{first_batch, EnrichValue, Enrichment, LOOKUP_BATCH};
pub use cache::TtlCache;
pub use ix::{
    after_fetch_failure, assemble_cache, plan_load, FetchFailed, IxCache, IxLookup,
    LoadStep, PdbIx, PdbIxlan, PdbIxpfx, Prefix, PrefixCacheEntry, PrefixEntry,
    IX_CACHE_MAX_AGE_SECS, IX_CACHE_VERSION, IX_IP_CACHE_TTL_US,
};
pub use rdns::{trim_trailing_dots, DnsLookup, DNS_CACHE_TTL_US};
pub use sparkline::{loss_sparkline_string, sparkline_levels, sparkline_string};
pub use export::export_file_name;
pub use ui::{UiAction, UiKey, UiState};

//! Configuration of the collection rounds: which (venue, symbol) pairs to
//! poll, how often to refresh, and how long a cached snapshot stays fresh.

use vstd::prelude::*;
use vstd::string::StringExecFns;

verus! {

/// One venue and the ordered list of instrument symbols polled on it.
#[derive(Debug)]
pub struct VenueConfig {
    pub name: String,
    pub symbols: Vec<String>,
}

/// Whole-process configuration, immutable after startup.
#[derive(Debug)]
pub struct AppConfig {
    pub update_interval_ms: u64,
    pub cache_ttl_secs: u64,
    pub venues: Vec<VenueConfig>,
    pub compact_mode: bool,
}

/// Largest cache TTL (in seconds) whose millisecond equivalent still fits
/// in an `i64`, so that freshness arithmetic cannot overflow.
pub const MAX_CACHE_TTL_SECS: u64 = 0x7fff_ffff_ffff_ffff / 1000;

/// The built-in instrument list: Bitfinex spot and perpetual, Deribit
/// index and perpetual, in that order.
pub open spec fn built_in_venues(venues: Seq<VenueConfig>) -> bool {
    &&& venues.len() == 2
    &&& venues[0].name@ == "Bitfinex"@
    &&& venues[0].symbols@.len() == 2
    &&& venues[0].symbols@[0]@ == "tBTCUSD"@
    &&& venues[0].symbols@[1]@ == "tBTCF0:USTF0"@
    &&& venues[1].name@ == "Deribit"@
    &&& venues[1].symbols@.len() == 2
    &&& venues[1].symbols@[0]@ == "BTC-USD"@
    &&& venues[1].symbols@[1]@ == "BTC-PERPETUAL"@
}

impl AppConfig {
    /// A configuration whose TTL arithmetic is safe on this machine.
    pub open spec fn wf(&self) -> bool {
        self.cache_ttl_secs <= MAX_CACHE_TTL_SECS
    }

    /// The cache TTL as a millisecond count.
    pub open spec fn ttl_ms(&self) -> int {
        self.cache_ttl_secs * 1000
    }

    /// Start from the default configuration and apply the command-line
    /// overrides, clamping the refresh interval to at least 100 ms and the
    /// cache TTL to at least 5 s.
    pub fn with_overrides(
        update_interval_ms: Option<u64>,
        cache_ttl_secs: Option<u64>,
        compact_mode: bool,
    ) -> (r: Self)
        ensures
            r.update_interval_ms == (match update_interval_ms {
                Some(ms) => if ms < 100 { 100u64 } else { ms },
                None => 1000u64,
            }),
            r.cache_ttl_secs == (match cache_ttl_secs {
                Some(ttl) => if ttl < 5 { 5u64 } else { ttl },
                None => 60u64,
            }),
            r.compact_mode == compact_mode,
            built_in_venues(r.venues@),
    {
        let mut base = Self::default();
        if let Some(ms) = update_interval_ms {
            base.update_interval_ms = if ms < 100 { 100 } else { ms };
        }
        if let Some(ttl) = cache_ttl_secs {
            base.cache_ttl_secs = if ttl < 5 { 5 } else { ttl };
        }
        base.compact_mode = compact_mode;
        base
    }
}

impl Default for AppConfig {
    /// The built-in instrument list: Bitfinex spot and perpetual, Deribit
    /// index and perpetual, refreshed every second with a 60 s cache TTL.
    fn default() -> (r: Self)
        ensures
            r.update_interval_ms == 1000u64,
            r.cache_ttl_secs == 60u64,
            r.compact_mode == false,
            built_in_venues(r.venues@),
    {
        let mut bitfinex_symbols: Vec<String> = Vec::new();
        bitfinex_symbols.push(String::from_str("tBTCUSD"));
        bitfinex_symbols.push(String::from_str("tBTCF0:USTF0"));
        let mut deribit_symbols: Vec<String> = Vec::new();
        deribit_symbols.push(String::from_str("BTC-USD"));
        deribit_symbols.push(String::from_str("BTC-PERPETUAL"));
        let mut venues: Vec<VenueConfig> = Vec::new();
        venues.push(VenueConfig { name: String::from_str("Bitfinex"), symbols: bitfinex_symbols });
        venues.push(VenueConfig { name: String::from_str("Deribit"), symbols: deribit_symbols });
        AppConfig {
            update_interval_ms: 1000,
            cache_ttl_secs: 60,
            venues,
            compact_mode: false,
        }
    }
}

} // verus!

//! Normalized market snapshots: the result of one successful fetch.
//!
//! Prices and funding rates are fixed-point integers with eight decimal
//! places; timestamps are milliseconds since the Unix epoch.  A snapshot is
//! immutable once produced: it is either built whole by an adapter or
//! copied whole out of the cache.

use vstd::prelude::*;
use vstd::string::StringExecFns;

verus! {

/// Point-in-time record of one instrument's price and funding data.
#[derive(Debug)]
pub struct MarketSnapshot {
    pub venue: String,
    pub instrument_label: String,
    pub symbol: String,
    pub spot_price: i64,
    pub perp_price: Option<i64>,
    pub funding_rate: i64,
    pub predicted_funding_rate: Option<i64>,
    pub next_funding_time: Option<i64>,
    pub last_updated: i64,
}

impl Clone for MarketSnapshot {
    fn clone(&self) -> (r: Self)
        ensures
            r == *self,
    {
        let r = MarketSnapshot {
            venue: self.venue.clone(),
            instrument_label: self.instrument_label.clone(),
            symbol: self.symbol.clone(),
            spot_price: self.spot_price,
            perp_price: self.perp_price,
            funding_rate: self.funding_rate,
            predicted_funding_rate: self.predicted_funding_rate,
            next_funding_time: self.next_funding_time,
            last_updated: self.last_updated,
        };
        r
    }
}

impl MarketSnapshot {
    /// A snapshot built from literal values, used to seed the display
    /// before the first live collection round; `now` is the caller's clock
    /// reading and becomes `last_updated`.
    pub fn placeholder(
        venue: &str,
        instrument_label: &str,
        symbol: &str,
        spot_price: i64,
        perp_price: Option<i64>,
        funding_rate: i64,
        predicted_funding_rate: Option<i64>,
        next_funding_time: Option<i64>,
        now: i64,
    ) -> (r: Self)
        ensures
            r.venue@ == venue@,
            r.instrument_label@ == instrument_label@,
            r.symbol@ == symbol@,
            r.spot_price == spot_price,
            r.perp_price == perp_price,
            r.funding_rate == funding_rate,
            r.predicted_funding_rate == predicted_funding_rate,
            r.next_funding_time == next_funding_time,
            r.last_updated == now,
    {
        MarketSnapshot {
            venue: String::from_str(venue),
            instrument_label: String::from_str(instrument_label),
            symbol: String::from_str(symbol),
            spot_price,
            perp_price,
            funding_rate,
            predicted_funding_rate,
            next_funding_time,
            last_updated: now,
        }
    }
}

} // verus!

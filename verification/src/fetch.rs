//! Fetch adapters: one variant per upstream payload shape.
//!
//! The network call itself and the JSON decoding happen outside the
//! library; the host hands each adapter the numeric fields it extracted,
//! as fixed-point integers with eight decimal places and millisecond
//! timestamps.  The adapters own the normalization rules: which fields are
//! required, which default when absent, and how the snapshot is stamped.

use vstd::prelude::*;
use vstd::string::StringExecFns;

use crate::snapshot::MarketSnapshot;
use crate::text::str_eq;

verus! {

/// Why a fetch failed; `Configuration` marks a (venue, symbol) pair that
/// no adapter recognizes and that therefore fails without a network call.
#[derive(Clone, Copy, Debug, PartialEq, Eq, Structural)]
pub enum FetchErrorKind {
    Configuration,
    Transport,
    Decode,
    MissingField,
}

/// A per-key fetch failure: its kind and a human-readable detail that the
/// collector embeds in the round's warnings.
#[derive(Debug)]
pub struct FetchError {
    pub kind: FetchErrorKind,
    pub detail: String,
}

impl FetchError {
    /// A required field could not be located in an otherwise well-formed
    /// payload.
    pub fn missing_field(detail: &str) -> (r: Self)
        ensures
            r.kind == FetchErrorKind::MissingField,
            r.detail@ == detail@,
    {
        FetchError { kind: FetchErrorKind::MissingField, detail: String::from_str(detail) }
    }
}

/// The closed set of upstream payload shapes the collector can poll.
#[derive(Clone, Copy, Debug, PartialEq, Eq, Structural)]
pub enum AdapterKind {
    BitfinexSpot,
    BitfinexPerp,
    DeribitIndex,
    DeribitPerp,
}

/// The static dispatch table from (venue, symbol) to adapter variant;
/// `None` marks a configuration error, not a network error.
pub open spec fn adapter_kind_spec(venue: Seq<char>, symbol: Seq<char>) -> Option<AdapterKind> {
    if venue == "Bitfinex"@ && symbol == "tBTCUSD"@ {
        Some(AdapterKind::BitfinexSpot)
    } else if venue == "Bitfinex"@ && symbol == "tBTCF0:USTF0"@ {
        Some(AdapterKind::BitfinexPerp)
    } else if venue == "Deribit"@ && symbol == "BTC-USD"@ {
        Some(AdapterKind::DeribitIndex)
    } else if venue == "Deribit"@ && symbol == "BTC-PERPETUAL"@ {
        Some(AdapterKind::DeribitPerp)
    } else {
        None
    }
}

/// Looks a (venue, symbol) pair up in the static dispatch table.
pub fn adapter_for(venue: &str, symbol: &str) -> (r: Option<AdapterKind>)
    ensures
        r == adapter_kind_spec(venue@, symbol@),
{
    proof {
        reveal_strlit("Bitfinex");
        reveal_strlit("Deribit");
        reveal_strlit("tBTCUSD");
        reveal_strlit("tBTCF0:USTF0");
        reveal_strlit("BTC-USD");
        reveal_strlit("BTC-PERPETUAL");
        assert("Bitfinex"@.len() == 8);
        assert("Deribit"@.len() == 7);
        assert("Bitfinex"@ != "Deribit"@);
    }
    if str_eq(venue, "Bitfinex") {
        if str_eq(symbol, "tBTCUSD") {
            Some(AdapterKind::BitfinexSpot)
        } else if str_eq(symbol, "tBTCF0:USTF0") {
            Some(AdapterKind::BitfinexPerp)
        } else {
            None
        }
    } else if str_eq(venue, "Deribit") {
        if str_eq(symbol, "BTC-USD") {
            Some(AdapterKind::DeribitIndex)
        } else if str_eq(symbol, "BTC-PERPETUAL") {
            Some(AdapterKind::DeribitPerp)
        } else {
            None
        }
    } else {
        None
    }
}

/// The fields the Bitfinex derivatives status entry carries, already
/// extracted from their positional slots.
#[derive(Debug)]
pub struct DerivStatusEntry {
    pub mark_price: Option<i64>,
    pub next_funding_time: Option<i64>,
    pub funding_rate: Option<i64>,
    pub predicted_funding_rate: Option<i64>,
}

/// The fields of a Deribit ticker payload; every one is optional there.
#[derive(Debug)]
pub struct DeribitTickerFields {
    pub mark_price: Option<i64>,
    pub last_price: Option<i64>,
    pub index_price: Option<i64>,
    pub current_funding: Option<i64>,
    pub funding_8h: Option<i64>,
    pub next_funding_time: Option<i64>,
    pub timestamp: Option<i64>,
}

/// Normalizes a Bitfinex spot ticker: the last price sits at index 6 of
/// the ticker array and is required; a spot instrument carries no funding
/// data.
pub fn bitfinex_spot_snapshot(symbol: &str, ticker: &Vec<i64>, now: i64) -> (r: Result<
    MarketSnapshot,
    FetchError,
>)
    ensures
        r is Ok <==> ticker@.len() > 6,
        r matches Ok(s) ==> {
            &&& s.venue@ == "Bitfinex"@
            &&& s.instrument_label@ == "Spot"@
            &&& s.symbol@ == symbol@
            &&& s.spot_price == ticker@[6]
            &&& s.perp_price is None
            &&& s.funding_rate == 0
            &&& s.predicted_funding_rate is None
            &&& s.next_funding_time is None
            &&& s.last_updated == now
        },
        r matches Err(e) ==> {
            &&& e.kind == FetchErrorKind::MissingField
            &&& e.detail@ == "bitfinex ticker missing last price field"@
        },
{
    if ticker.len() > 6 {
        Ok(MarketSnapshot {
            venue: String::from_str("Bitfinex"),
            instrument_label: String::from_str("Spot"),
            symbol: String::from_str(symbol),
            spot_price: ticker[6],
            perp_price: None,
            funding_rate: 0,
            predicted_funding_rate: None,
            next_funding_time: None,
            last_updated: now,
        })
    } else {
        Err(FetchError::missing_field("bitfinex ticker missing last price field"))
    }
}

/// Normalizes a Bitfinex perpetual: the last price (ticker index 6) is
/// required, then the first derivatives status entry supplies funding
/// data; missing optional fields default rather than fail, and a missing
/// mark price falls back to the last price.
pub fn bitfinex_perp_snapshot(
    symbol: &str,
    ticker: &Vec<i64>,
    deriv_status: &Vec<DerivStatusEntry>,
    now: i64,
) -> (r: Result<MarketSnapshot, FetchError>)
    ensures
        r is Ok <==> ticker@.len() > 6 && deriv_status@.len() > 0,
        r matches Ok(s) ==> {
            let entry = deriv_status@[0];
            &&& s.venue@ == "Bitfinex"@
            &&& s.instrument_label@ == "Perp"@
            &&& s.symbol@ == symbol@
            &&& s.spot_price == (match entry.mark_price {
                Some(m) => m,
                None => ticker@[6],
            })
            &&& s.perp_price == Some(ticker@[6])
            &&& s.funding_rate == (match entry.funding_rate {
                Some(f) => f,
                None => 0i64,
            })
            &&& s.predicted_funding_rate == entry.predicted_funding_rate
            &&& s.next_funding_time == entry.next_funding_time
            &&& s.last_updated == now
        },
        r matches Err(e) ==> {
            &&& e.kind == FetchErrorKind::MissingField
            &&& ticker@.len() <= 6 ==> e.detail@ == "bitfinex perp ticker missing last price"@
            &&& ticker@.len() > 6 ==> e.detail@ == "bitfinex deriv status empty"@
        },
{
    if ticker.len() <= 6 {
        return Err(FetchError::missing_field("bitfinex perp ticker missing last price"));
    }
    let last_price = ticker[6];
    if deriv_status.len() == 0 {
        return Err(FetchError::missing_field("bitfinex deriv status empty"));
    }
    let entry = &deriv_status[0];
    let mark_price = match entry.mark_price {
        Some(m) => m,
        None => last_price,
    };
    let funding_rate = match entry.funding_rate {
        Some(f) => f,
        None => 0,
    };
    Ok(MarketSnapshot {
        venue: String::from_str("Bitfinex"),
        instrument_label: String::from_str("Perp"),
        symbol: String::from_str(symbol),
        spot_price: mark_price,
        perp_price: Some(last_price),
        funding_rate,
        predicted_funding_rate: entry.predicted_funding_rate,
        next_funding_time: entry.next_funding_time,
        last_updated: now,
    })
}

/// Normalizes a Deribit index quote: the index price is required by the
/// decoder, and the payload's own timestamp, when present, becomes
/// `last_updated`.
pub fn deribit_index_snapshot(symbol: &str, index_price: i64, timestamp: Option<i64>, now: i64) -> (r:
    MarketSnapshot)
    ensures
        r.venue@ == "Deribit"@,
        r.instrument_label@ == "Index"@,
        r.symbol@ == symbol@,
        r.spot_price == index_price,
        r.perp_price is None,
        r.funding_rate == 0,
        r.predicted_funding_rate is None,
        r.next_funding_time is None,
        r.last_updated == (match timestamp {
            Some(t) => t,
            None => now,
        }),
{
    MarketSnapshot {
        venue: String::from_str("Deribit"),
        instrument_label: String::from_str("Index"),
        symbol: String::from_str(symbol),
        spot_price: index_price,
        perp_price: None,
        funding_rate: 0,
        predicted_funding_rate: None,
        next_funding_time: None,
        last_updated: match timestamp {
            Some(t) => t,
            None => now,
        },
    }
}

/// Normalizes a Deribit perpetual ticker, where every field is optional:
/// the mark price falls back to the last price, then the index price,
/// then zero; the spot price prefers the index price over the mark.
pub fn deribit_perp_snapshot(symbol: &str, fields: &DeribitTickerFields, now: i64) -> (r:
    MarketSnapshot)
    ensures
        ({
            let mark = match fields.mark_price {
                Some(m) => m,
                None => match fields.last_price {
                    Some(l) => l,
                    None => match fields.index_price {
                        Some(i) => i,
                        None => 0i64,
                    },
                },
            };
            &&& r.venue@ == "Deribit"@
            &&& r.instrument_label@ == "Perp"@
            &&& r.symbol@ == symbol@
            &&& r.spot_price == (match fields.index_price {
                Some(i) => i,
                None => mark,
            })
            &&& r.perp_price == Some(mark)
            &&& r.funding_rate == (match fields.current_funding {
                Some(f) => f,
                None => 0i64,
            })
            &&& r.predicted_funding_rate == fields.funding_8h
            &&& r.next_funding_time == fields.next_funding_time
            &&& r.last_updated == (match fields.timestamp {
                Some(t) => t,
                None => now,
            })
        }),
{
    let mark_price = match fields.mark_price {
        Some(m) => m,
        None => match fields.last_price {
            Some(l) => l,
            None => match fields.index_price {
                Some(i) => i,
                None => 0,
            },
        },
    };
    let spot_price = match fields.index_price {
        Some(i) => i,
        None => mark_price,
    };
    let funding_rate = match fields.current_funding {
        Some(f) => f,
        None => 0,
    };
    MarketSnapshot {
        venue: String::from_str("Deribit"),
        instrument_label: String::from_str("Perp"),
        symbol: String::from_str(symbol),
        spot_price,
        perp_price: Some(mark_price),
        funding_rate,
        predicted_funding_rate: fields.funding_8h,
        next_funding_time: fields.next_funding_time,
        last_updated: match fields.timestamp {
            Some(t) => t,
            None => now,
        },
    }
}

} // verus!

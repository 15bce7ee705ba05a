use quantumdesk::fetch::{
    adapter_for, bitfinex_perp_snapshot, bitfinex_spot_snapshot, deribit_index_snapshot,
    deribit_perp_snapshot, AdapterKind, DeribitTickerFields, DerivStatusEntry, FetchError,
    FetchErrorKind,
};

#[test]
fn dispatch_table_matches_the_four_feeds() {
    assert_eq!(
        adapter_for("Bitfinex", "tBTCUSD"),
        Some(AdapterKind::BitfinexSpot)
    );
    assert_eq!(
        adapter_for("Bitfinex", "tBTCF0:USTF0"),
        Some(AdapterKind::BitfinexPerp)
    );
    assert_eq!(
        adapter_for("Deribit", "BTC-USD"),
        Some(AdapterKind::DeribitIndex)
    );
    assert_eq!(
        adapter_for("Deribit", "BTC-PERPETUAL"),
        Some(AdapterKind::DeribitPerp)
    );
    assert_eq!(adapter_for("Bitfinex", "BTC-USD"), None);
    assert_eq!(adapter_for("Kraken", "XBTUSD"), None);
}

#[test]
fn bitfinex_spot_reads_index_six() {
    let ticker = vec![1, 2, 3, 4, 5, 6, 6_500_000_000_000, 8];
    let s = bitfinex_spot_snapshot("tBTCUSD", &ticker, 9_000).expect("last price present");
    assert_eq!(s.venue, "Bitfinex");
    assert_eq!(s.instrument_label, "Spot");
    assert_eq!(s.symbol, "tBTCUSD");
    assert_eq!(s.spot_price, 6_500_000_000_000);
    assert_eq!(s.perp_price, None);
    assert_eq!(s.funding_rate, 0);
    assert_eq!(s.predicted_funding_rate, None);
    assert_eq!(s.next_funding_time, None);
    assert_eq!(s.last_updated, 9_000);
}

#[test]
fn bitfinex_spot_short_ticker_is_missing_field() {
    let ticker = vec![1, 2, 3];
    let e = bitfinex_spot_snapshot("tBTCUSD", &ticker, 0).unwrap_err();
    assert_eq!(e.kind, FetchErrorKind::MissingField);
    assert_eq!(e.detail, "bitfinex ticker missing last price field");
}

#[test]
fn bitfinex_perp_uses_status_entry_with_defaults() {
    let ticker = vec![0, 0, 0, 0, 0, 0, 6_400_000_000_000];
    let status = vec![DerivStatusEntry {
        mark_price: None,
        next_funding_time: Some(123_456),
        funding_rate: None,
        predicted_funding_rate: Some(72_000),
    }];
    let s = bitfinex_perp_snapshot("tBTCF0:USTF0", &ticker, &status, 7_000).expect("both present");
    assert_eq!(s.instrument_label, "Perp");
    // Missing mark price falls back to the last price.
    assert_eq!(s.spot_price, 6_400_000_000_000);
    assert_eq!(s.perp_price, Some(6_400_000_000_000));
    // Missing funding defaults to zero instead of failing.
    assert_eq!(s.funding_rate, 0);
    assert_eq!(s.predicted_funding_rate, Some(72_000));
    assert_eq!(s.next_funding_time, Some(123_456));
    assert_eq!(s.last_updated, 7_000);
}

#[test]
fn bitfinex_perp_mark_price_wins_when_present() {
    let ticker = vec![0, 0, 0, 0, 0, 0, 6_400_000_000_000];
    let status = vec![DerivStatusEntry {
        mark_price: Some(6_410_000_000_000),
        next_funding_time: None,
        funding_rate: Some(65_000),
        predicted_funding_rate: None,
    }];
    let s = bitfinex_perp_snapshot("tBTCF0:USTF0", &ticker, &status, 0).unwrap();
    assert_eq!(s.spot_price, 6_410_000_000_000);
    assert_eq!(s.perp_price, Some(6_400_000_000_000));
    assert_eq!(s.funding_rate, 65_000);
}

#[test]
fn bitfinex_perp_errors_name_the_missing_piece() {
    let short = vec![1];
    let e = bitfinex_perp_snapshot("tBTCF0:USTF0", &short, &Vec::new(), 0).unwrap_err();
    assert_eq!(e.kind, FetchErrorKind::MissingField);
    assert_eq!(e.detail, "bitfinex perp ticker missing last price");

    let ticker = vec![0, 0, 0, 0, 0, 0, 1];
    let e = bitfinex_perp_snapshot("tBTCF0:USTF0", &ticker, &Vec::new(), 0).unwrap_err();
    assert_eq!(e.kind, FetchErrorKind::MissingField);
    assert_eq!(e.detail, "bitfinex deriv status empty");
}

#[test]
fn deribit_index_prefers_payload_timestamp() {
    let s = deribit_index_snapshot("BTC-USD", 6_530_000_000_000, Some(111), 999);
    assert_eq!(s.venue, "Deribit");
    assert_eq!(s.instrument_label, "Index");
    assert_eq!(s.spot_price, 6_530_000_000_000);
    assert_eq!(s.last_updated, 111);
    let s2 = deribit_index_snapshot("BTC-USD", 1, None, 999);
    assert_eq!(s2.last_updated, 999);
}

#[test]
fn deribit_perp_fallback_chain() {
    let all_missing = DeribitTickerFields {
        mark_price: None,
        last_price: None,
        index_price: None,
        current_funding: None,
        funding_8h: None,
        next_funding_time: None,
        timestamp: None,
    };
    let s = deribit_perp_snapshot("BTC-PERPETUAL", &all_missing, 500);
    assert_eq!(s.spot_price, 0);
    assert_eq!(s.perp_price, Some(0));
    assert_eq!(s.funding_rate, 0);
    assert_eq!(s.last_updated, 500);

    let index_only = DeribitTickerFields {
        index_price: Some(6_520_000_000_000),
        ..all_missing
    };
    let s = deribit_perp_snapshot("BTC-PERPETUAL", &index_only, 500);
    // The mark falls back to the index; the spot prefers the index.
    assert_eq!(s.spot_price, 6_520_000_000_000);
    assert_eq!(s.perp_price, Some(6_520_000_000_000));

    let full = DeribitTickerFields {
        mark_price: Some(6_540_000_000_000),
        last_price: Some(6_541_000_000_000),
        index_price: Some(6_539_000_000_000),
        current_funding: Some(52_000),
        funding_8h: Some(60_000),
        next_funding_time: Some(1_234),
        timestamp: Some(5_678),
    };
    let s = deribit_perp_snapshot("BTC-PERPETUAL", &full, 500);
    assert_eq!(s.spot_price, 6_539_000_000_000);
    assert_eq!(s.perp_price, Some(6_540_000_000_000));
    assert_eq!(s.funding_rate, 52_000);
    assert_eq!(s.predicted_funding_rate, Some(60_000));
    assert_eq!(s.next_funding_time, Some(1_234));
    assert_eq!(s.last_updated, 5_678);
}

#[test]
fn missing_field_constructor() {
    let e = FetchError::missing_field("nothing here");
    assert_eq!(e.kind, FetchErrorKind::MissingField);
    assert_eq!(e.detail, "nothing here");
}

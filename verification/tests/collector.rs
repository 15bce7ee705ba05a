use quantumdesk::cache::{cache_key, CacheEntry};
use quantumdesk::config::{AppConfig, VenueConfig};
use quantumdesk::data::{DataHub, FetchOutcome, PlanAction};
use quantumdesk::fetch::{AdapterKind, FetchError, FetchErrorKind};
use quantumdesk::snapshot::MarketSnapshot;

fn venue(name: &str, symbols: &[&str]) -> VenueConfig {
    VenueConfig {
        name: name.to_string(),
        symbols: symbols.iter().map(|s| s.to_string()).collect(),
    }
}

fn two_exchange_config() -> AppConfig {
    AppConfig {
        update_interval_ms: 1_000,
        cache_ttl_secs: 60,
        venues: vec![venue("ExchangeA", &["X"]), venue("ExchangeB", &["Y"])],
        compact_mode: false,
    }
}

fn snap(venue: &str, symbol: &str, price: i64, now: i64) -> MarketSnapshot {
    MarketSnapshot::placeholder(venue, "Spot", symbol, price, None, 0, None, None, now)
}

fn ok(s: MarketSnapshot) -> Option<FetchOutcome> {
    Some(Ok(s))
}

fn err(kind: FetchErrorKind, detail: &str) -> Option<FetchOutcome> {
    Some(Err(FetchError {
        kind,
        detail: detail.to_string(),
    }))
}

#[test]
fn empty_config_yields_empty_outcome() {
    let mut hub = DataHub::new();
    let config = AppConfig {
        update_interval_ms: 1_000,
        cache_ttl_secs: 60,
        venues: Vec::new(),
        compact_mode: false,
    };
    let outcome = hub.collect(&config, 5_000, &Vec::new());
    assert!(outcome.snapshots.is_empty());
    assert!(outcome.warnings.is_empty());
    assert_eq!(hub.status(), "Live feeds stable");
}

#[test]
fn both_adapters_succeed_on_empty_cache() {
    let mut hub = DataHub::new();
    let config = two_exchange_config();
    let now = 1_000_000;
    let results = vec![
        ok(snap("ExchangeA", "X", 101, now)),
        ok(snap("ExchangeB", "Y", 202, now)),
    ];
    let outcome = hub.collect(&config, now, &results);
    assert_eq!(outcome.snapshots.len(), 2);
    assert_eq!(outcome.warnings.len(), 0);
    assert_eq!(outcome.snapshots[0].venue, "ExchangeA");
    assert_eq!(outcome.snapshots[0].spot_price, 101);
    assert_eq!(outcome.snapshots[0].last_updated, now);
    assert_eq!(outcome.snapshots[1].venue, "ExchangeB");
    assert_eq!(hub.cache.len(), 2);
    assert_eq!(hub.status(), "Live feeds stable");
}

#[test]
fn transport_failure_without_cache_warns_and_serves_nothing() {
    let mut hub = DataHub::new();
    let config = two_exchange_config();
    let now = 1_000_000;
    let results = vec![
        ok(snap("ExchangeA", "X", 101, now)),
        err(FetchErrorKind::Transport, "connection timed out"),
    ];
    let outcome = hub.collect(&config, now, &results);
    assert_eq!(outcome.snapshots.len(), 1);
    assert_eq!(outcome.snapshots[0].venue, "ExchangeA");
    assert_eq!(outcome.warnings.len(), 1);
    assert_eq!(
        outcome.warnings[0],
        "ExchangeB Y fetch failed and no cache available (connection timed out)"
    );
    assert_eq!(hub.cache.len(), 1);
    assert_eq!(hub.status(), "Live feeds (degraded)");
}

#[test]
fn recovery_round_serves_cache_and_fresh_fetch() {
    let mut hub = DataHub::new();
    let config = two_exchange_config();
    let now = 1_000_000;
    let results = vec![
        ok(snap("ExchangeA", "X", 101, now)),
        err(FetchErrorKind::Transport, "connection timed out"),
    ];
    let first = hub.collect(&config, now, &results);
    assert_eq!(first.snapshots.len(), 1);

    // One second later ExchangeB answers; ExchangeA is still fresh.
    let now2 = now + 1_000;
    let results2 = vec![None, ok(snap("ExchangeB", "Y", 202, now2))];
    let outcome = hub.collect(&config, now2, &results2);
    assert_eq!(outcome.snapshots.len(), 2);
    assert_eq!(outcome.warnings.len(), 0);
    // ExchangeA comes out of the cache, stamped at the first round.
    assert_eq!(outcome.snapshots[0].venue, "ExchangeA");
    assert_eq!(outcome.snapshots[0].last_updated, now);
    assert_eq!(outcome.snapshots[1].venue, "ExchangeB");
    assert_eq!(outcome.snapshots[1].last_updated, now2);
    assert_eq!(hub.status(), "Live feeds stable");
}

#[test]
fn immediate_repeat_round_is_cache_served_and_identical() {
    let mut hub = DataHub::new();
    let config = two_exchange_config();
    let now = 42_000;
    let results = vec![
        ok(snap("ExchangeA", "X", 101, now)),
        ok(snap("ExchangeB", "Y", 202, now)),
    ];
    let first = hub.collect(&config, now, &results);
    let plan = hub.plan(&config, now);
    assert!(plan.iter().all(|step| step.action == PlanAction::UseCache));
    let second = hub.collect(&config, now, &vec![None, None]);
    assert_eq!(second.snapshots.len(), first.snapshots.len());
    for (a, b) in first.snapshots.iter().zip(second.snapshots.iter()) {
        assert_eq!(a.venue, b.venue);
        assert_eq!(a.symbol, b.symbol);
        assert_eq!(a.spot_price, b.spot_price);
        assert_eq!(a.last_updated, b.last_updated);
    }
    assert!(second.warnings.is_empty());
}

#[test]
fn expired_entry_is_refetched_and_cache_updated() {
    let mut hub = DataHub::new();
    let config = two_exchange_config();
    let now = 1_000_000;
    let results = vec![
        ok(snap("ExchangeA", "X", 101, now)),
        ok(snap("ExchangeB", "Y", 202, now)),
    ];
    hub.collect(&config, now, &results);

    // Two minutes later both entries are past the 60 s TTL.
    let now2 = now + 120_000;
    let plan = hub.plan(&config, now2);
    assert!(plan.iter().all(|step| step.action != PlanAction::UseCache));
    let results2 = vec![
        ok(snap("ExchangeA", "X", 111, now2)),
        ok(snap("ExchangeB", "Y", 222, now2)),
    ];
    let outcome = hub.collect(&config, now2, &results2);
    assert_eq!(outcome.snapshots.len(), 2);
    assert_eq!(outcome.snapshots[0].spot_price, 111);
    assert_eq!(outcome.snapshots[0].last_updated, now2);
    assert!(outcome.warnings.is_empty());
}

#[test]
fn failure_with_stale_cache_serves_stale_and_warns() {
    let mut hub = DataHub::new();
    let config = two_exchange_config();
    let now = 1_000_000;
    let results = vec![
        ok(snap("ExchangeA", "X", 101, now)),
        ok(snap("ExchangeB", "Y", 202, now)),
    ];
    hub.collect(&config, now, &results);

    let now2 = now + 3_600_000;
    let results2 = vec![
        ok(snap("ExchangeA", "X", 111, now2)),
        err(FetchErrorKind::Decode, "malformed body"),
    ];
    let outcome = hub.collect(&config, now2, &results2);
    assert_eq!(outcome.snapshots.len(), 2);
    // The stale ExchangeB snapshot still carries the first round's stamp.
    assert_eq!(outcome.snapshots[1].venue, "ExchangeB");
    assert_eq!(outcome.snapshots[1].spot_price, 202);
    assert_eq!(outcome.snapshots[1].last_updated, now);
    assert_eq!(outcome.warnings.len(), 1);
    assert_eq!(
        outcome.warnings[0],
        "ExchangeB Y fetch failed (malformed body); showing cached data"
    );
    assert_eq!(hub.status(), "Live feeds (degraded)");
}

#[test]
fn unsupported_pair_fails_without_result() {
    let mut hub = DataHub::new();
    let config = AppConfig {
        update_interval_ms: 1_000,
        cache_ttl_secs: 60,
        venues: vec![venue("Nowhere", &["NOPE"])],
        compact_mode: false,
    };
    let plan = hub.plan(&config, 1_000);
    assert_eq!(plan.len(), 1);
    assert_eq!(plan[0].action, PlanAction::Unsupported);
    let outcome = hub.collect(&config, 1_000, &vec![None]);
    assert!(outcome.snapshots.is_empty());
    assert_eq!(
        outcome.warnings[0],
        "Nowhere NOPE fetch failed and no cache available (unsupported venue/symbol combination: Nowhere NOPE)"
    );
}

#[test]
fn plan_names_the_built_in_adapters() {
    let hub = DataHub::new();
    let config = AppConfig::default();
    let plan = hub.plan(&config, 0);
    assert_eq!(plan.len(), 4);
    assert_eq!(plan[0].venue, "Bitfinex");
    assert_eq!(plan[0].symbol, "tBTCUSD");
    assert_eq!(plan[0].action, PlanAction::Fetch(AdapterKind::BitfinexSpot));
    assert_eq!(plan[1].action, PlanAction::Fetch(AdapterKind::BitfinexPerp));
    assert_eq!(plan[2].action, PlanAction::Fetch(AdapterKind::DeribitIndex));
    assert_eq!(plan[3].action, PlanAction::Fetch(AdapterKind::DeribitPerp));
}

#[test]
fn snapshot_order_follows_configuration() {
    let mut hub = DataHub::new();
    let config = AppConfig {
        update_interval_ms: 1_000,
        cache_ttl_secs: 60,
        venues: vec![venue("A", &["1", "2"]), venue("B", &["1"])],
        compact_mode: false,
    };
    let now = 10_000;
    let results = vec![
        ok(snap("A", "1", 1, now)),
        ok(snap("A", "2", 2, now)),
        ok(snap("B", "1", 3, now)),
    ];
    let outcome = hub.collect(&config, now, &results);
    let pairs: Vec<(String, String)> = outcome
        .snapshots
        .iter()
        .map(|s| (s.venue.clone(), s.symbol.clone()))
        .collect();
    assert_eq!(
        pairs,
        vec![
            ("A".to_string(), "1".to_string()),
            ("A".to_string(), "2".to_string()),
            ("B".to_string(), "1".to_string()),
        ]
    );
}

#[test]
fn cache_get_put_and_overwrite() {
    let mut hub = DataHub::new();
    let key = cache_key("V", "S");
    assert_eq!(key, "V::S");
    assert!(hub.cache.get(&key).is_none());
    hub.cache.put(
        key.clone(),
        CacheEntry {
            snapshot: snap("V", "S", 7, 100),
            fetched_at: 100,
        },
    );
    assert_eq!(hub.cache.len(), 1);
    let entry = hub.cache.get(&key).expect("entry present");
    assert_eq!(entry.snapshot.spot_price, 7);
    assert_eq!(entry.fetched_at, 100);
    hub.cache.put(
        key.clone(),
        CacheEntry {
            snapshot: snap("V", "S", 8, 200),
            fetched_at: 200,
        },
    );
    assert_eq!(hub.cache.len(), 1);
    assert_eq!(hub.cache.get(&key).unwrap().snapshot.spot_price, 8);
}

#[test]
fn seeded_stale_entry_serves_on_failure_even_when_very_old() {
    let mut hub = DataHub::new();
    let key = cache_key("ExchangeA", "X");
    hub.cache.put(
        key,
        CacheEntry {
            snapshot: snap("ExchangeA", "X", 55, 0),
            fetched_at: 0,
        },
    );
    let config = AppConfig {
        update_interval_ms: 1_000,
        cache_ttl_secs: 60,
        venues: vec![venue("ExchangeA", &["X"])],
        compact_mode: false,
    };
    // Ten days later the entry is long expired, but it still backs the key.
    let now = 864_000_000;
    let results = vec![err(FetchErrorKind::Transport, "down")];
    let outcome = hub.collect(&config, now, &results);
    assert_eq!(outcome.snapshots.len(), 1);
    assert_eq!(outcome.snapshots[0].spot_price, 55);
    assert_eq!(
        outcome.warnings[0],
        "ExchangeA X fetch failed (down); showing cached data"
    );
}

#[test]
fn ttl_boundary_is_strict() {
    let mut hub = DataHub::new();
    let config = two_exchange_config();
    let fetched_at = 1_000_000;
    hub.cache.put(
        cache_key("ExchangeA", "X"),
        CacheEntry {
            snapshot: snap("ExchangeA", "X", 1, fetched_at),
            fetched_at,
        },
    );
    hub.cache.put(
        cache_key("ExchangeB", "Y"),
        CacheEntry {
            snapshot: snap("ExchangeB", "Y", 2, fetched_at),
            fetched_at,
        },
    );
    // One millisecond under the 60 s TTL: still fresh.  At exactly the
    // TTL the entry is expired.
    let plan = hub.plan(&config, fetched_at + 59_999);
    assert_eq!(plan[0].action, PlanAction::UseCache);
    let plan = hub.plan(&config, fetched_at + 60_000);
    assert_ne!(plan[0].action, PlanAction::UseCache);
}

#[test]
fn initial_status_label() {
    let hub = DataHub::new();
    assert_eq!(hub.status(), "Initializing feeds");
}

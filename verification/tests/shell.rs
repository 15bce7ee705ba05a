use quantumdesk::alerts::{AlertManager, AlertStatus};
use quantumdesk::app::{summarize_warnings, truncate_for_status, QuantumDesk};
use quantumdesk::config::AppConfig;
use quantumdesk::data::FetchOutcome;
use quantumdesk::fetch::{FetchError, FetchErrorKind};
use quantumdesk::metrics::MetricsEngine;
use quantumdesk::snapshot::MarketSnapshot;
use quantumdesk::text::u64_to_string;

#[test]
fn default_config_lists_the_four_instruments() {
    let config = AppConfig::default();
    assert_eq!(config.update_interval_ms, 1_000);
    assert_eq!(config.cache_ttl_secs, 60);
    assert!(!config.compact_mode);
    assert_eq!(config.venues.len(), 2);
    assert_eq!(config.venues[0].name, "Bitfinex");
    assert_eq!(config.venues[0].symbols, vec!["tBTCUSD", "tBTCF0:USTF0"]);
    assert_eq!(config.venues[1].name, "Deribit");
    assert_eq!(config.venues[1].symbols, vec!["BTC-USD", "BTC-PERPETUAL"]);
}

#[test]
fn overrides_are_clamped_to_sane_minimums() {
    let config = AppConfig::with_overrides(Some(50), Some(1), true);
    assert_eq!(config.update_interval_ms, 100);
    assert_eq!(config.cache_ttl_secs, 5);
    assert!(config.compact_mode);

    let config = AppConfig::with_overrides(Some(250), Some(30), false);
    assert_eq!(config.update_interval_ms, 250);
    assert_eq!(config.cache_ttl_secs, 30);

    let config = AppConfig::with_overrides(None, None, false);
    assert_eq!(config.update_interval_ms, 1_000);
    assert_eq!(config.cache_ttl_secs, 60);
}

#[test]
fn decimal_rendering() {
    assert_eq!(u64_to_string(0), "0");
    assert_eq!(u64_to_string(7), "7");
    assert_eq!(u64_to_string(100), "100");
    assert_eq!(u64_to_string(1_234_567_890), "1234567890");
    assert_eq!(u64_to_string(u64::MAX), "18446744073709551615");
}

#[test]
fn truncation_keeps_short_text_and_cuts_long_text() {
    assert_eq!(truncate_for_status("short"), "short");
    let eighty: String = "x".repeat(80);
    assert_eq!(truncate_for_status(&eighty), eighty);
    let long: String = "y".repeat(100);
    let cut = truncate_for_status(&long);
    assert_eq!(cut.chars().count(), 81);
    assert!(cut.starts_with(&"y".repeat(80)));
    assert!(cut.ends_with('…'));
}

#[test]
fn warning_summaries() {
    assert_eq!(summarize_warnings(&Vec::new()), None);
    let one = vec!["feed down".to_string()];
    assert_eq!(summarize_warnings(&one), Some("1 warning: feed down".to_string()));
    let two = vec!["first".to_string(), "second".to_string()];
    assert_eq!(summarize_warnings(&two), Some("2 warnings: first".to_string()));
}

#[test]
fn metrics_average_is_truncated_toward_zero() {
    let engine = MetricsEngine::new();
    assert_eq!(engine.summarize(&Vec::new()).venues_online, 0);
    assert_eq!(engine.summarize(&Vec::new()).average_funding_rate, 0);

    let snaps = vec![
        MarketSnapshot::placeholder("V", "L", "S1", 1, None, 10, None, None, 0),
        MarketSnapshot::placeholder("V", "L", "S2", 1, None, 25, None, None, 0),
    ];
    let summary = engine.summarize(&snaps);
    assert_eq!(summary.venues_online, 2);
    assert_eq!(summary.average_funding_rate, 17);

    let negative = vec![
        MarketSnapshot::placeholder("V", "L", "S1", 1, None, -5, None, None, 0),
        MarketSnapshot::placeholder("V", "L", "S2", 1, None, -6, None, None, 0),
    ];
    // -11 / 2 truncates toward zero.
    assert_eq!(engine.summarize(&negative).average_funding_rate, -5);
}

#[test]
fn triggered_alerts_are_counted() {
    let mut manager = AlertManager::new();
    assert_eq!(manager.triggered_count(), 0);
    manager.alerts.push(AlertStatus::placeholder("A", "> 1"));
    manager.alerts.push(AlertStatus::placeholder("B", "> 2"));
    manager.alerts.push(AlertStatus::placeholder("C", "> 3"));
    assert_eq!(manager.triggered_count(), 0);
    manager.alerts[1].is_triggered = true;
    manager.alerts[2].is_triggered = true;
    assert_eq!(manager.triggered_count(), 2);
}

#[test]
fn new_desk_seeds_state_and_status_line() {
    let desk = QuantumDesk::new(AppConfig::default(), 1_000_000);
    assert_eq!(desk.state.market_snapshots.len(), 4);
    assert_eq!(desk.state.market_snapshots[0].venue, "Bitfinex");
    assert_eq!(desk.state.market_snapshots[0].symbol, "tBTCUSD");
    assert_eq!(desk.state.market_snapshots[0].spot_price, 6_542_012_000_000);
    assert_eq!(desk.state.market_snapshots[1].funding_rate, 65_000);
    assert_eq!(
        desk.state.market_snapshots[1].next_funding_time,
        Some(1_000_000 + 3_000_000)
    );
    assert_eq!(desk.state.market_snapshots[3].venue, "Deribit");
    assert_eq!(desk.state.market_snapshots[3].predicted_funding_rate, Some(60_000));
    assert_eq!(desk.state.alerts.len(), 3);
    assert_eq!(desk.state.alerts[0].name, "Bitfinex Funding");
    assert!(desk.state.warnings.is_empty());
    assert_eq!(desk.state.metrics_summary.venues_online, 4);
    // (0 + 65000 + 0 + 52000) / 4
    assert_eq!(desk.state.metrics_summary.average_funding_rate, 29_250);
    assert_eq!(
        desk.state.status_line,
        "Mode full | Refresh 1000ms | Cache 60s | Feed Initializing feeds | AI AI offline | Alerts 0 | Feeds healthy"
    );
    assert_eq!(desk.refresh_interval_ms(), 1_000);
    assert!(!desk.is_compact());
}

#[test]
fn tick_integrates_a_degraded_round() {
    let mut desk = QuantumDesk::new(AppConfig::default(), 1_000_000);
    let now = 2_000_000;
    let fresh = MarketSnapshot::placeholder(
        "Bitfinex",
        "Spot",
        "tBTCUSD",
        6_550_000_000_000,
        None,
        0,
        None,
        None,
        now,
    );
    let results: Vec<Option<FetchOutcome>> = vec![
        Some(Ok(fresh)),
        Some(Err(FetchError {
            kind: FetchErrorKind::Transport,
            detail: "timeout".to_string(),
        })),
        Some(Err(FetchError {
            kind: FetchErrorKind::Transport,
            detail: "timeout".to_string(),
        })),
        Some(Err(FetchError {
            kind: FetchErrorKind::Transport,
            detail: "timeout".to_string(),
        })),
    ];
    desk.tick(now, &results);
    // Only the one successful key contributes a snapshot.
    assert_eq!(desk.state.market_snapshots.len(), 1);
    assert_eq!(desk.state.market_snapshots[0].spot_price, 6_550_000_000_000);
    assert_eq!(desk.state.warnings.len(), 3);
    assert_eq!(
        desk.state.warnings[0],
        "Bitfinex tBTCF0:USTF0 fetch failed and no cache available (timeout)"
    );
    assert_eq!(desk.state.metrics_summary.venues_online, 1);
    assert!(desk.state.status_line.contains("Feed Live feeds (degraded)"));
    assert!(desk.state.status_line.contains("3 warnings: "));
}

#[test]
fn tick_keeps_previous_snapshots_when_round_is_empty() {
    let mut desk = QuantumDesk::new(AppConfig::default(), 1_000_000);
    let now = 2_000_000;
    let timeout = || FetchError {
        kind: FetchErrorKind::Transport,
        detail: "down".to_string(),
    };
    let results: Vec<Option<FetchOutcome>> = vec![
        Some(Err(timeout())),
        Some(Err(timeout())),
        Some(Err(timeout())),
        Some(Err(timeout())),
    ];
    desk.tick(now, &results);
    // No key produced a snapshot, so the seeded list stays on screen.
    assert_eq!(desk.state.market_snapshots.len(), 4);
    assert_eq!(desk.state.warnings.len(), 4);
    assert_eq!(
        desk.state.warnings[0],
        "Bitfinex tBTCUSD fetch failed and no cache available (down)"
    );
}

#[test]
fn compact_mode_shows_in_the_status_line() {
    let config = AppConfig::with_overrides(Some(500), Some(30), true);
    let desk = QuantumDesk::new(config, 0);
    assert_eq!(
        desk.state.status_line,
        "Mode compact | Refresh 500ms | Cache 30s | Feed Initializing feeds | AI AI offline | Alerts 0 | Feeds healthy"
    );
}

#[test]
fn alert_placeholder_has_never_fired() {
    let alert = AlertStatus::placeholder("IBIT Premium", "> 1.5%");
    assert_eq!(alert.name, "IBIT Premium");
    assert_eq!(alert.threshold, "> 1.5%");
    assert!(!alert.is_triggered);
    assert_eq!(alert.last_triggered, None);
}

#[test]
fn snapshot_clone_is_field_for_field() {
    let s = MarketSnapshot::placeholder(
        "V",
        "L",
        "S",
        123,
        Some(456),
        7,
        Some(8),
        Some(9),
        10,
    );
    let c = s.clone();
    assert_eq!(c.venue, s.venue);
    assert_eq!(c.instrument_label, s.instrument_label);
    assert_eq!(c.symbol, s.symbol);
    assert_eq!(c.spot_price, 123);
    assert_eq!(c.perp_price, Some(456));
    assert_eq!(c.funding_rate, 7);
    assert_eq!(c.predicted_funding_rate, Some(8));
    assert_eq!(c.next_funding_time, Some(9));
    assert_eq!(c.last_updated, 10);
}

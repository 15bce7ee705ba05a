//! The application shell: the per-tick state handed to the renderer, and
//! the desk that owns the collector, metrics, alerts and configuration.
//!
//! The host performs the fetches a round plans and hands the results to
//! `tick`, which integrates them, recomputes the metrics, and rebuilds
//! the status line.

use vstd::prelude::*;
use vstd::string::StringExecFns;
use vstd::string::StrSliceExecFns;

use crate::ai::AiOrchestrator;
use crate::alerts::{clone_alerts, triggered_count_spec, AlertManager, AlertStatus};
use crate::cache::CacheEntry;
use crate::config::AppConfig;
use crate::data::{flat_keys, round_spec, CollectionOutcome, DataHub, FetchOutcome, PlanStep};
use crate::metrics::{summary_spec, MetricsEngine, MetricsSummary};
use crate::snapshot::MarketSnapshot;
use crate::text::{dec_rep, u64_to_string};

verus! {

/// A status-line fragment truncated to at most eighty characters, with an
/// ellipsis when something was cut.
pub open spec fn trunc_view(s: Seq<char>) -> Seq<char> {
    if s.len() <= 80 {
        s
    } else {
        s.subrange(0, 80) + "…"@
    }
}

/// The one-line summary of a non-empty warning list: the count and a
/// truncated preview of the first warning.
pub open spec fn warning_summary_view(warns: Seq<Seq<char>>) -> Seq<char> {
    dec_rep(warns.len()) + (if warns.len() > 1 {
        " warnings: "@
    } else {
        " warning: "@
    }) + trunc_view(warns[0])
}

/// The whole status line: mode, refresh interval, cache TTL, feed health,
/// AI readiness, triggered alerts, and the warning summary.
pub open spec fn status_line_view(
    compact: bool,
    interval_ms: u64,
    ttl_secs: u64,
    feed: Seq<char>,
    ai: Seq<char>,
    alerts_triggered: int,
    warns: Seq<Seq<char>>,
) -> Seq<char> {
    "Mode "@ + (if compact {
        "compact"@
    } else {
        "full"@
    }) + " | Refresh "@ + dec_rep(interval_ms as nat) + "ms"@ + " | Cache "@ + dec_rep(
        ttl_secs as nat,
    ) + "s"@ + " | Feed "@ + feed + " | AI "@ + ai + " | Alerts "@ + dec_rep(
        alerts_triggered as nat,
    ) + " | "@ + (if warns.len() == 0 {
        "Feeds healthy"@
    } else {
        warning_summary_view(warns)
    })
}

/// Truncates a warning for the status line: kept whole at up to eighty
/// characters, else cut to eighty characters plus an ellipsis.
pub fn truncate_for_status(text: &str) -> (r: String)
    ensures
        r@ == trunc_view(text@),
{
    let chars = text.unicode_len();
    if chars <= 80 {
        String::from_str(text)
    } else {
        String::from_str(text.substring_char(0, 80)).concat("…")
    }
}

/// Summarizes a warning list for the status line: nothing when it is
/// empty, else the count and a truncated preview of the first warning.
pub fn summarize_warnings(warnings: &Vec<String>) -> (r: Option<String>)
    ensures
        r is None <==> warnings@.len() == 0,
        r matches Some(w) ==> w@ == warning_summary_view(warnings.deep_view()),
{
    if warnings.len() == 0 {
        return None;
    }
    let count = warnings.len();
    let preview = truncate_for_status(warnings[0].as_str());
    proof {
        assert(warnings.deep_view()[0] == warnings@[0]@);
        assert(warnings.deep_view().len() == warnings@.len());
    }
    let label: &'static str = if count > 1 {
        " warnings: "
    } else {
        " warning: "
    };
    Some(u64_to_string(count as u64).concat(label).concat(preview.as_str()))
}

/// Builds the status line from the desk's parts.
pub fn render_status_line(
    config: &AppConfig,
    feed: &str,
    ai_label: &str,
    alerts_triggered: usize,
    warnings: &Vec<String>,
) -> (r: String)
    ensures
        r@ == status_line_view(
            config.compact_mode,
            config.update_interval_ms,
            config.cache_ttl_secs,
            feed@,
            ai_label@,
            alerts_triggered as int,
            warnings.deep_view(),
        ),
{
    let mode: &'static str = if config.compact_mode {
        "compact"
    } else {
        "full"
    };
    let base = String::from_str("Mode ").concat(mode).concat(" | Refresh ").concat(
        u64_to_string(config.update_interval_ms).as_str(),
    ).concat("ms").concat(" | Cache ").concat(u64_to_string(config.cache_ttl_secs).as_str()).concat(
        "s",
    ).concat(" | Feed ").concat(feed).concat(" | AI ").concat(ai_label).concat(
        " | Alerts ",
    ).concat(u64_to_string(alerts_triggered as u64).as_str()).concat(" | ");
    proof {
        assert(warnings.deep_view().len() == warnings@.len());
    }
    match summarize_warnings(warnings) {
        Some(summary) => base.concat(summary.as_str()),
        None => base.concat("Feeds healthy"),
    }
}

/// The per-tick state the renderer reads.
pub struct AppState {
    pub market_snapshots: Vec<MarketSnapshot>,
    pub metrics_summary: MetricsSummary,
    pub alerts: Vec<AlertStatus>,
    pub warnings: Vec<String>,
    pub status_line: String,
}

impl AppState {
    /// The state before the first collection round.
    pub fn new(snapshots: Vec<MarketSnapshot>, alerts: Vec<AlertStatus>) -> (r: Self)
        ensures
            r.market_snapshots@ == snapshots@,
            r.metrics_summary.venues_online == 0,
            r.metrics_summary.average_funding_rate == 0,
            r.alerts@ == alerts@,
            r.warnings@.len() == 0,
            r.status_line@ == "QuantumDesk • Press 'q' to quit"@,
    {
        AppState {
            market_snapshots: snapshots,
            metrics_summary: MetricsSummary::default(),
            alerts,
            warnings: Vec::new(),
            status_line: String::from_str("QuantumDesk • Press 'q' to quit"),
        }
    }
}

/// The desk: configuration, collector, metrics, alerts and AI plumbing,
/// plus the state handed to the renderer.
pub struct QuantumDesk {
    pub state: AppState,
    pub config: AppConfig,
    pub data_hub: DataHub,
    pub metrics: MetricsEngine,
    pub alerts: AlertManager,
    pub ai: AiOrchestrator,
}

impl QuantumDesk {
    /// A desk whose TTL arithmetic is safe and whose cache is intact.
    pub open spec fn wf(&self) -> bool {
        self.config.wf() && self.data_hub.wf()
    }

    /// Builds the desk: empty cache, the three configured alerts, four
    /// seed snapshots for the first paint, and the initial status line.
    /// `now` is the host's clock reading in milliseconds.
    pub fn new(config: AppConfig, now: i64) -> (r: Self)
        requires
            config.wf(),
            0 <= now <= 0x7fff_ffff_ffff_ffff - 3_000_000,
        ensures
            r.wf(),
            r.config == config,
            r.data_hub.cache@ == Map::<Seq<char>, CacheEntry>::empty(),
            r.data_hub.status_label@ == "Initializing feeds"@,
            r.state.warnings@.len() == 0,
            r.state.alerts@ == r.alerts.alerts@,
            r.alerts.alerts@.len() == 3,
            r.alerts.alerts@[0].name@ == "Bitfinex Funding"@,
            r.alerts.alerts@[0].threshold@ == "> 75 bps"@,
            r.alerts.alerts@[1].name@ == "Deribit Funding"@,
            r.alerts.alerts@[1].threshold@ == "< -25 bps"@,
            r.alerts.alerts@[2].name@ == "IBIT Premium"@,
            r.alerts.alerts@[2].threshold@ == "> 1.5%"@,
            forall|i: int|
                0 <= i < 3 ==> !(#[trigger] r.alerts.alerts@[i]).is_triggered
                    && r.alerts.alerts@[i].last_triggered is None,
            r.state.market_snapshots@.len() == 4,
            ({
                let s = r.state.market_snapshots@;
                &&& s[0].venue@ == "Bitfinex"@ && s[0].instrument_label@ == "Spot"@
                    && s[0].symbol@ == "tBTCUSD"@ && s[0].spot_price == 6_542_012_000_000i64
                    && s[0].perp_price is None && s[0].funding_rate == 0
                    && s[0].predicted_funding_rate is None && s[0].next_funding_time is None
                    && s[0].last_updated == now
                &&& s[1].venue@ == "Bitfinex"@ && s[1].instrument_label@ == "Perp"@
                    && s[1].symbol@ == "tBTCF0:USTF0"@ && s[1].spot_price == 6_541_025_000_000i64
                    && s[1].perp_price == Some(6_543_050_000_000i64) && s[1].funding_rate == 65_000
                    && s[1].predicted_funding_rate == Some(72_000i64)
                    && s[1].next_funding_time == Some((now + 3_000_000) as i64)
                    && s[1].last_updated == now
                &&& s[2].venue@ == "Deribit"@ && s[2].instrument_label@ == "Index"@
                    && s[2].symbol@ == "BTC-USD"@ && s[2].spot_price == 6_539_800_000_000i64
                    && s[2].perp_price is None && s[2].funding_rate == 0
                    && s[2].predicted_funding_rate is None && s[2].next_funding_time is None
                    && s[2].last_updated == now
                &&& s[3].venue@ == "Deribit"@ && s[3].instrument_label@ == "Perp"@
                    && s[3].symbol@ == "BTC-PERPETUAL"@ && s[3].spot_price == 6_540_289_000_000i64
                    && s[3].perp_price == Some(6_542_011_000_000i64) && s[3].funding_rate == 52_000
                    && s[3].predicted_funding_rate == Some(60_000i64)
                    && s[3].next_funding_time == Some((now + 2_520_000) as i64)
                    && s[3].last_updated == now
            }),
            r.state.metrics_summary == summary_spec(r.state.market_snapshots@),
            r.state.status_line@ == status_line_view(
                config.compact_mode,
                config.update_interval_ms,
                config.cache_ttl_secs,
                "Initializing feeds"@,
                "AI offline"@,
                triggered_count_spec(r.alerts.alerts@),
                Seq::<Seq<char>>::empty(),
            ),
    {
        let data_hub = DataHub::new();
        let metrics = MetricsEngine::new();
        let ai = AiOrchestrator::new();

        let mut market_snapshots: Vec<MarketSnapshot> = Vec::new();
        market_snapshots.push(
            MarketSnapshot::placeholder(
                "Bitfinex",
                "Spot",
                "tBTCUSD",
                6_542_012_000_000,
                None,
                0,
                None,
                None,
                now,
            ),
        );
        market_snapshots.push(
            MarketSnapshot::placeholder(
                "Bitfinex",
                "Perp",
                "tBTCF0:USTF0",
                6_541_025_000_000,
                Some(6_543_050_000_000),
                65_000,
                Some(72_000),
                Some(now + 3_000_000),
                now,
            ),
        );
        market_snapshots.push(
            MarketSnapshot::placeholder(
                "Deribit",
                "Index",
                "BTC-USD",
                6_539_800_000_000,
                None,
                0,
                None,
                None,
                now,
            ),
        );
        market_snapshots.push(
            MarketSnapshot::placeholder(
                "Deribit",
                "Perp",
                "BTC-PERPETUAL",
                6_540_289_000_000,
                Some(6_542_011_000_000),
                52_000,
                Some(60_000),
                Some(now + 2_520_000),
                now,
            ),
        );

        let mut alert_manager = AlertManager::new();
        alert_manager.alerts.push(AlertStatus::placeholder("Bitfinex Funding", "> 75 bps"));
        alert_manager.alerts.push(AlertStatus::placeholder("Deribit Funding", "< -25 bps"));
        alert_manager.alerts.push(AlertStatus::placeholder("IBIT Premium", "> 1.5%"));

        let alerts_copy = clone_alerts(&alert_manager.alerts);
        let mut state = AppState::new(market_snapshots, alerts_copy);
        state.metrics_summary = metrics.summarize(&state.market_snapshots);

        let triggered = alert_manager.triggered_count();
        state.status_line = render_status_line(
            &config,
            data_hub.status(),
            ai.readiness_label(),
            triggered,
            &state.warnings,
        );
        proof {
            assert(state.warnings.deep_view() =~= Seq::<Seq<char>>::empty());
        }
        QuantumDesk { state, config, data_hub, metrics, alerts: alert_manager, ai }
    }

    /// The refresh interval the host should tick at.
    pub fn refresh_interval_ms(&self) -> (r: u64)
        ensures
            r == self.config.update_interval_ms,
    {
        self.config.update_interval_ms
    }

    /// Whether the condensed layout was requested.
    pub fn is_compact(&self) -> (r: bool)
        ensures
            r == self.config.compact_mode,
    {
        self.config.compact_mode
    }

    /// Runs one collection round over the configured keys with the
    /// host-supplied fetch results, keeps the previous snapshot list when
    /// a round yields none, recomputes the metrics, and rebuilds the
    /// status line.
    pub fn tick(&mut self, now: i64, results: &Vec<Option<FetchOutcome>>)
        requires
            old(self).wf(),
            now >= 0,
            results@.len() == flat_keys(old(self).config.venues@).len(),
            forall|i: int|
                0 <= i < results@.len() ==> (crate::data::action_spec(
                    old(self).data_hub.cache@,
                    flat_keys(old(self).config.venues@)[i].0,
                    flat_keys(old(self).config.venues@)[i].1,
                    now as int,
                    old(self).config.ttl_ms(),
                ) matches crate::data::PlanAction::Fetch(_) ==> (#[trigger] results@[i]) is Some),
        ensures
            final(self).wf(),
            final(self).config == old(self).config,
            final(self).alerts.alerts@ == old(self).alerts.alerts@,
            ({
                let r = round_spec(
                    old(self).data_hub.cache@,
                    flat_keys(old(self).config.venues@),
                    results@,
                    now,
                    old(self).config.ttl_ms(),
                );
                &&& final(self).data_hub.cache@ == r.cache
                &&& final(self).state.warnings.deep_view() == r.warns
                &&& final(self).state.market_snapshots@ == (if r.snaps.len() > 0 {
                    r.snaps
                } else {
                    old(self).state.market_snapshots@
                })
                &&& final(self).state.alerts@ == old(self).alerts.alerts@
                &&& final(self).state.metrics_summary == summary_spec(
                    final(self).state.market_snapshots@,
                )
                &&& final(self).data_hub.status_label@ == (if r.warns.len() == 0 {
                    "Live feeds stable"@
                } else {
                    "Live feeds (degraded)"@
                })
                &&& final(self).state.status_line@ == status_line_view(
                    old(self).config.compact_mode,
                    old(self).config.update_interval_ms,
                    old(self).config.cache_ttl_secs,
                    final(self).data_hub.status_label@,
                    "AI offline"@,
                    triggered_count_spec(old(self).alerts.alerts@),
                    r.warns,
                )
            }),
    {
        let outcome = self.data_hub.collect(&self.config, now, results);
        let CollectionOutcome { snapshots, warnings } = outcome;
        if snapshots.len() > 0 {
            self.state.market_snapshots = snapshots;
        }
        self.state.warnings = warnings;
        self.state.metrics_summary = self.metrics.summarize(&self.state.market_snapshots);
        self.state.alerts = clone_alerts(&self.alerts.alerts);
        let triggered = self.alerts.triggered_count();
        self.state.status_line = render_status_line(
            &self.config,
            self.data_hub.status(),
            self.ai.readiness_label(),
            triggered,
            &self.state.warnings,
        );
    }

    /// Decides what this round does for each configured key; the host
    /// fetches for the keys planned as fetches and hands the outcomes to
    /// `tick` in the same order.
    pub fn plan(&self, now: i64) -> (r: Vec<PlanStep>)
        requires
            self.wf(),
            now >= 0,
        ensures
            r@.len() == flat_keys(self.config.venues@).len(),
            forall|i: int|
                0 <= i < r@.len() ==> {
                    let k = flat_keys(self.config.venues@)[i];
                    &&& (#[trigger] r@[i]).venue@ == k.0
                    &&& r@[i].symbol@ == k.1
                    &&& r@[i].action == crate::data::action_spec(
                        self.data_hub.cache@,
                        k.0,
                        k.1,
                        now as int,
                        self.config.ttl_ms(),
                    )
                },
    {
        self.data_hub.plan(&self.config, now)
    }
}

} // verus!

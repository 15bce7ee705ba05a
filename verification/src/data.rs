//! The collector: one full round over every configured (venue, symbol)
//! pair, producing the snapshots to display and the warnings to show.
//!
//! Per key, in order: a cache entry younger than the TTL is served as a
//! hit, with no fetch; otherwise the matching adapter's result is
//! integrated — a success refreshes the cache, a failure degrades the key
//! to its stale cached snapshot, or to a warning alone when no cached
//! value has ever existed.  A round never aborts on a single key.
//!
//! The host performs the network calls between `plan` and `collect` and
//! hands the results in configured order; the decisions are all here.

use vstd::prelude::*;
use vstd::string::StringExecFns;

use crate::cache::{cache_key, cache_key_view, CacheEntry, SnapshotCache};
use crate::config::AppConfig;
use crate::config::VenueConfig;
use crate::fetch::{adapter_for, adapter_kind_spec, AdapterKind, FetchError};
use crate::snapshot::MarketSnapshot;

verus! {

/// What one round hands back to the host: the snapshots to display, fresh
/// and stale mixed, and one warning per degraded or failed key.
pub struct CollectionOutcome {
    pub snapshots: Vec<MarketSnapshot>,
    pub warnings: Vec<String>,
}

/// The adapter's verdict for one key, as the host reports it.
pub type FetchOutcome = Result<MarketSnapshot, FetchError>;

/// What a round does for one key: serve the cached entry, fetch through
/// the named adapter, or fail at once because no adapter matches.
#[derive(Clone, Copy, Debug, PartialEq, Eq, Structural)]
pub enum PlanAction {
    UseCache,
    Fetch(AdapterKind),
    Unsupported,
}

/// One key of the round in configured order, with its planned action.
#[derive(Debug)]
pub struct PlanStep {
    pub venue: String,
    pub symbol: String,
    pub action: PlanAction,
}

/// The flattened (venue, symbol) pairs of one venue, in configured order.
pub open spec fn venue_keys(v: VenueConfig) -> Seq<(Seq<char>, Seq<char>)> {
    Seq::new(v.symbols@.len(), |i: int| (v.name@, v.symbols@[i]@))
}

/// All configured (venue, symbol) pairs, venues in order, symbols in
/// order within each venue.
pub open spec fn flat_keys(venues: Seq<VenueConfig>) -> Seq<(Seq<char>, Seq<char>)>
    decreases venues.len(),
{
    if venues.len() == 0 {
        Seq::empty()
    } else {
        flat_keys(venues.drop_last()) + venue_keys(venues.last())
    }
}

/// A cache entry younger than the TTL: served directly, no fetch.
pub open spec fn is_fresh(
    cache: Map<Seq<char>, CacheEntry>,
    ck: Seq<char>,
    now: int,
    ttl_ms: int,
) -> bool {
    cache.contains_key(ck) && now - cache[ck].fetched_at < ttl_ms
}

/// The action a round takes for one key, given the cache state.
pub open spec fn action_spec(
    cache: Map<Seq<char>, CacheEntry>,
    venue: Seq<char>,
    symbol: Seq<char>,
    now: int,
    ttl_ms: int,
) -> PlanAction {
    if is_fresh(cache, cache_key_view(venue, symbol), now, ttl_ms) {
        PlanAction::UseCache
    } else {
        match adapter_kind_spec(venue, symbol) {
            Some(kind) => PlanAction::Fetch(kind),
            None => PlanAction::Unsupported,
        }
    }
}

/// The warning for a key that fell back to its stale cached snapshot.
pub open spec fn stale_warning_view(
    venue: Seq<char>,
    symbol: Seq<char>,
    detail: Seq<char>,
) -> Seq<char> {
    venue + " "@ + symbol + " fetch failed ("@ + detail + "); showing cached data"@
}

/// The warning for a key that failed with nothing cached to fall back on.
pub open spec fn lost_warning_view(
    venue: Seq<char>,
    symbol: Seq<char>,
    detail: Seq<char>,
) -> Seq<char> {
    venue + " "@ + symbol + " fetch failed and no cache available ("@ + detail + ")"@
}

/// The failure detail of a (venue, symbol) pair no adapter recognizes.
pub open spec fn config_error_detail_view(venue: Seq<char>, symbol: Seq<char>) -> Seq<char> {
    "unsupported venue/symbol combination: "@ + venue + " "@ + symbol
}

/// The snapshot as served after a successful fetch: stamped with the
/// round's clock reading.
pub open spec fn refreshed(s: MarketSnapshot, now: i64) -> MarketSnapshot {
    MarketSnapshot { last_updated: now, ..s }
}

/// What one key contributes to the round.
pub ghost struct StepSpec {
    pub snap: Option<MarketSnapshot>,
    pub warn: Option<Seq<char>>,
    pub cache: Map<Seq<char>, CacheEntry>,
}

/// The failure path for one key: the stale cached snapshot plus a warning
/// when an entry exists, a warning alone when none does.
pub open spec fn step_failure(
    cache: Map<Seq<char>, CacheEntry>,
    venue: Seq<char>,
    symbol: Seq<char>,
    detail: Seq<char>,
) -> StepSpec {
    let ck = cache_key_view(venue, symbol);
    if cache.contains_key(ck) {
        StepSpec {
            snap: Some(cache[ck].snapshot),
            warn: Some(stale_warning_view(venue, symbol, detail)),
            cache,
        }
    } else {
        StepSpec { snap: None, warn: Some(lost_warning_view(venue, symbol, detail)), cache }
    }
}

/// One key of a round: cache hit, integrated fetch result, or failure;
/// an absent result marks a pair without an adapter, which fails as a
/// configuration error without any call.
pub open spec fn step_spec(
    cache: Map<Seq<char>, CacheEntry>,
    venue: Seq<char>,
    symbol: Seq<char>,
    res: Option<FetchOutcome>,
    now: i64,
    ttl_ms: int,
) -> StepSpec {
    let ck = cache_key_view(venue, symbol);
    if is_fresh(cache, ck, now as int, ttl_ms) {
        StepSpec { snap: Some(cache[ck].snapshot), warn: None, cache }
    } else {
        match res {
            Some(Ok(s)) => {
                let s2 = refreshed(s, now);
                StepSpec {
                    snap: Some(s2),
                    warn: None,
                    cache: cache.insert(ck, CacheEntry { snapshot: s2, fetched_at: now }),
                }
            },
            Some(Err(e)) => step_failure(cache, venue, symbol, e.detail@),
            None => step_failure(cache, venue, symbol, config_error_detail_view(venue, symbol)),
        }
    }
}

/// A sequence with an optional extra element at the front.
pub open spec fn opt_prepend<A>(o: Option<A>, s: Seq<A>) -> Seq<A> {
    match o {
        Some(x) => seq![x] + s,
        None => s,
    }
}

/// The contribution of an optional value: one element or none.
pub open spec fn opt_seq<A>(o: Option<A>) -> Seq<A> {
    match o {
        Some(x) => seq![x],
        None => Seq::empty(),
    }
}

/// What a whole round produces.
pub ghost struct RoundSpec {
    pub snaps: Seq<MarketSnapshot>,
    pub warns: Seq<Seq<char>>,
    pub cache: Map<Seq<char>, CacheEntry>,
}

/// One round over the keys in order, threading the cache through the
/// steps: the exact meaning of `collect`.
pub open spec fn round_spec(
    cache: Map<Seq<char>, CacheEntry>,
    keys: Seq<(Seq<char>, Seq<char>)>,
    results: Seq<Option<FetchOutcome>>,
    now: i64,
    ttl_ms: int,
) -> RoundSpec
    decreases keys.len(),
{
    if keys.len() == 0 {
        RoundSpec { snaps: Seq::empty(), warns: Seq::empty(), cache }
    } else {
        let res0: Option<FetchOutcome> = if results.len() > 0 {
            results[0]
        } else {
            None
        };
        let st = step_spec(cache, keys[0].0, keys[0].1, res0, now, ttl_ms);
        let rest = round_spec(st.cache, keys.drop_first(), results.drop_first(), now, ttl_ms);
        RoundSpec {
            snaps: opt_prepend(st.snap, rest.snaps),
            warns: opt_prepend(st.warn, rest.warns),
            cache: rest.cache,
        }
    }
}

/// Every cached entry was stamped at a non-negative clock reading, so age
/// arithmetic cannot overflow.
pub open spec fn nonneg_times(m: Map<Seq<char>, CacheEntry>) -> bool {
    forall|k: Seq<char>| #[trigger] m.contains_key(k) ==> m[k].fetched_at >= 0
}

/// The views of a flattened (venue, symbol) pair list.
pub open spec fn pairs_view(s: Seq<(String, String)>) -> Seq<(Seq<char>, Seq<char>)> {
    Seq::new(s.len(), |i: int| (s[i].0@, s[i].1@))
}

fn stale_warning(venue: &str, symbol: &str, detail: &str) -> (r: String)
    ensures
        r@ == stale_warning_view(venue@, symbol@, detail@),
{
    String::from_str(venue).concat(" ").concat(symbol).concat(" fetch failed (").concat(
        detail,
    ).concat("); showing cached data")
}

fn lost_warning(venue: &str, symbol: &str, detail: &str) -> (r: String)
    ensures
        r@ == lost_warning_view(venue@, symbol@, detail@),
{
    String::from_str(venue).concat(" ").concat(symbol).concat(
        " fetch failed and no cache available (",
    ).concat(detail).concat(")")
}

fn config_error_detail(venue: &str, symbol: &str) -> (r: String)
    ensures
        r@ == config_error_detail_view(venue@, symbol@),
{
    String::from_str("unsupported venue/symbol combination: ").concat(venue).concat(" ").concat(
        symbol,
    )
}

/// Flattens the configured venues into (venue, symbol) pairs in
/// configured order.
fn flatten_config(config: &AppConfig) -> (r: Vec<(String, String)>)
    ensures
        pairs_view(r@) == flat_keys(config.venues@),
{
    let mut r: Vec<(String, String)> = Vec::new();
    let n = config.venues.len();
    let mut v: usize = 0;
    while v < n
        invariant
            v <= n,
            n == config.venues@.len(),
            pairs_view(r@) == flat_keys(config.venues@.take(v as int)),
        decreases n - v,
    {
        let venue = &config.venues[v];
        let m = venue.symbols.len();
        let mut s: usize = 0;
        while s < m
            invariant
                s <= m,
                v < n,
                n == config.venues@.len(),
                m == venue.symbols@.len(),
                venue == config.venues@[v as int],
                pairs_view(r@) == flat_keys(config.venues@.take(v as int)) + venue_keys(
                    config.venues@[v as int],
                ).take(s as int),
            decreases m - s,
        {
            let pair = (venue.name.clone(), venue.symbols[s].clone());
            let ghost pair_g = pair;
            let ghost r0 = r@;
            proof {
                assert(pair_g.0@ == config.venues@[v as int].name@);
                assert(pair_g.1@ == config.venues@[v as int].symbols@[s as int]@);
            }
            r.push(pair);
            proof {
                let prefix = flat_keys(config.venues@.take(v as int));
                let vk = venue_keys(config.venues@[v as int]);
                assert(r@ == r0.push(pair_g));
                assert(pairs_view(r0) == prefix + vk.take(s as int));
                assert(r@.len() == prefix.len() + s + 1);
                assert(vk.take(s as int + 1)[s as int] == vk[s as int]);
                assert(vk[s as int] == (pair_g.0@, pair_g.1@));
                assert forall|i: int| 0 <= i < r@.len() implies pairs_view(r@)[i] == (prefix
                    + vk.take(s as int + 1))[i] by {
                    if i < r0.len() {
                        assert(pairs_view(r0)[i] == (prefix + vk.take(s as int))[i]);
                        assert(r@[i] == r0[i]);
                    }
                }
                assert(pairs_view(r@) =~= prefix + vk.take(s as int + 1));
            }
            s += 1;
        }
        proof {
            assert(venue_keys(config.venues@[v as int]).take(m as int) =~~= venue_keys(
                config.venues@[v as int],
            ));
            assert(config.venues@.take(v as int + 1).drop_last() =~= config.venues@.take(v as int));
            assert(config.venues@.take(v as int + 1).last() == config.venues@[v as int]);
            assert(pairs_view(r@) =~~= flat_keys(config.venues@.take(v as int + 1)));
        }
        v += 1;
    }
    proof {
        assert(config.venues@.take(n as int) =~= config.venues@);
    }
    r
}

/// Owns the snapshot cache and drives the collection rounds.
pub struct DataHub {
    pub cache: SnapshotCache,
    pub status_label: String,
}

impl DataHub {
    /// A hub whose cache representation is intact and whose entries carry
    /// non-negative fetch times.
    pub open spec fn wf(&self) -> bool {
        self.cache.wf() && nonneg_times(self.cache@)
    }

    /// A hub with an empty cache, reporting that feeds are starting up.
    pub fn new() -> (r: Self)
        ensures
            r.wf(),
            r.cache@ == Map::<Seq<char>, CacheEntry>::empty(),
            r.status_label@ == "Initializing feeds"@,
    {
        DataHub {
            cache: SnapshotCache::new(),
            status_label: String::from_str("Initializing feeds"),
        }
    }

    /// The coarse health label derived from the latest round: stable when
    /// it produced no warning, degraded otherwise.
    pub fn status(&self) -> (r: &str)
        ensures
            r@ == self.status_label@,
    {
        self.status_label.as_str()
    }

    /// Decides, for every configured key in order, whether this round
    /// serves the cache, fetches through an adapter, or fails the key as
    /// unsupported; performs no fetch itself and changes nothing.
    pub fn plan(&self, config: &AppConfig, now: i64) -> (r: Vec<PlanStep>)
        requires
            self.wf(),
            config.wf(),
            now >= 0,
        ensures
            r@.len() == flat_keys(config.venues@).len(),
            forall|i: int|
                0 <= i < r@.len() ==> {
                    let k = flat_keys(config.venues@)[i];
                    &&& (#[trigger] r@[i]).venue@ == k.0
                    &&& r@[i].symbol@ == k.1
                    &&& r@[i].action == action_spec(self.cache@, k.0, k.1, now as int, config.ttl_ms())
                },
    {
        let ghost keys = flat_keys(config.venues@);
        let flat = flatten_config(config);
        let ttl_ms: i64 = (config.cache_ttl_secs as i64) * 1000;
        let mut r: Vec<PlanStep> = Vec::new();
        let n = flat.len();
        let mut i: usize = 0;
        while i < n
            invariant
                i <= n,
                self.wf(),
                now >= 0,
                n == flat@.len(),
                pairs_view(flat@) == keys,
                ttl_ms == config.ttl_ms(),
                r@.len() == i,
                forall|j: int|
                    0 <= j < i ==> {
                        let k = keys[j];
                        &&& (#[trigger] r@[j]).venue@ == k.0
                        &&& r@[j].symbol@ == k.1
                        &&& r@[j].action == action_spec(
                            self.cache@,
                            k.0,
                            k.1,
                            now as int,
                            config.ttl_ms(),
                        )
                    },
            decreases n - i,
        {
            let venue = &flat[i].0;
            let symbol = &flat[i].1;
            let key = cache_key(venue.as_str(), symbol.as_str());
            let fresh = match self.cache.get(key.as_str()) {
                Some(entry) => now - entry.fetched_at < ttl_ms,
                None => false,
            };
            let action = if fresh {
                PlanAction::UseCache
            } else {
                match adapter_for(venue.as_str(), symbol.as_str()) {
                    Some(kind) => PlanAction::Fetch(kind),
                    None => PlanAction::Unsupported,
                }
            };
            r.push(PlanStep { venue: venue.clone(), symbol: symbol.clone(), action });
            proof {
                assert(keys[i as int] == (venue@, symbol@));
            }
            i += 1;
        }
        r
    }

    /// Runs one collection round: serves fresh cache entries, integrates
    /// the host's fetch results for the stale or missing ones, falls back
    /// to stale entries on failure, collects warnings, and updates the
    /// status label.  `results` carries one slot per configured key in
    /// order, holding an outcome for every key planned as a fetch; a key
    /// left without one fails as a configuration error.
    pub fn collect(
        &mut self,
        config: &AppConfig,
        now: i64,
        results: &Vec<Option<FetchOutcome>>,
    ) -> (outcome: CollectionOutcome)
        requires
            old(self).wf(),
            config.wf(),
            now >= 0,
            results@.len() == flat_keys(config.venues@).len(),
            forall|i: int|
                0 <= i < results@.len() ==> (action_spec(
                    old(self).cache@,
                    flat_keys(config.venues@)[i].0,
                    flat_keys(config.venues@)[i].1,
                    now as int,
                    config.ttl_ms(),
                ) matches PlanAction::Fetch(_) ==> (#[trigger] results@[i]) is Some),
        ensures
            final(self).wf(),
            ({
                let r = round_spec(
                    old(self).cache@,
                    flat_keys(config.venues@),
                    results@,
                    now,
                    config.ttl_ms(),
                );
                &&& outcome.snapshots@ == r.snaps
                &&& outcome.warnings.deep_view() == r.warns
                &&& final(self).cache@ == r.cache
                &&& final(self).status_label@ == (if r.warns.len() == 0 {
                    "Live feeds stable"@
                } else {
                    "Live feeds (degraded)"@
                })
            }),
    {
        let ghost cache0 = self.cache@;
        let ghost keys = flat_keys(config.venues@);
        let ghost full = round_spec(cache0, keys, results@, now, config.ttl_ms());
        let flat = flatten_config(config);
        let ttl_ms: i64 = (config.cache_ttl_secs as i64) * 1000;
        let mut snapshots: Vec<MarketSnapshot> = Vec::new();
        let mut warnings: Vec<String> = Vec::new();
        let n = flat.len();
        let mut idx: usize = 0;
        proof {
            assert(keys.skip(0) =~= keys);
            assert(results@.skip(0) =~= results@);
            assert(snapshots@ + full.snaps =~= full.snaps);
            assert(warnings.deep_view() =~= Seq::<Seq<char>>::empty());
            assert(warnings.deep_view() + full.warns =~= full.warns);
        }
        while idx < n
            invariant
                idx <= n,
                now >= 0,
                n == flat@.len(),
                pairs_view(flat@) == keys,
                results@.len() == keys.len(),
                ttl_ms == config.ttl_ms(),
                self.cache.wf(),
                nonneg_times(self.cache@),
                full == round_spec(cache0, keys, results@, now, config.ttl_ms()),
                full.snaps == snapshots@ + round_spec(
                    self.cache@,
                    keys.skip(idx as int),
                    results@.skip(idx as int),
                    now,
                    config.ttl_ms(),
                ).snaps,
                full.warns == warnings.deep_view() + round_spec(
                    self.cache@,
                    keys.skip(idx as int),
                    results@.skip(idx as int),
                    now,
                    config.ttl_ms(),
                ).warns,
                full.cache == round_spec(
                    self.cache@,
                    keys.skip(idx as int),
                    results@.skip(idx as int),
                    now,
                    config.ttl_ms(),
                ).cache,
            decreases n - idx,
        {
            let ghost pre = round_spec(
                self.cache@,
                keys.skip(idx as int),
                results@.skip(idx as int),
                now,
                config.ttl_ms(),
            );
            proof {
                assert(keys.skip(idx as int)[0] == keys[idx as int]);
                assert(results@.skip(idx as int)[0] == results@[idx as int]);
                assert(keys.skip(idx as int).drop_first() =~= keys.skip(idx as int + 1));
                assert(results@.skip(idx as int).drop_first() =~= results@.skip(idx as int + 1));
                assert(keys[idx as int] == (flat@[idx as int].0@, flat@[idx as int].1@));
            }
            let ghost st = step_spec(
                self.cache@,
                keys[idx as int].0,
                keys[idx as int].1,
                results@[idx as int],
                now,
                config.ttl_ms(),
            );
            let ghost snaps_before = snapshots@;
            let ghost warns_before = warnings.deep_view();
            let ghost cache_before = self.cache@;
            let venue = &flat[idx].0;
            let symbol = &flat[idx].1;
            let key = cache_key(venue.as_str(), symbol.as_str());
            proof {
                assert(key@ == cache_key_view(keys[idx as int].0, keys[idx as int].1));
            }
            let fresh_snap: Option<MarketSnapshot> = match self.cache.get(key.as_str()) {
                Some(entry) => if now - entry.fetched_at < ttl_ms {
                    Some(entry.snapshot.clone())
                } else {
                    None
                },
                None => None,
            };
            proof {
                assert(fresh_snap is Some <==> is_fresh(
                    cache_before,
                    key@,
                    now as int,
                    config.ttl_ms(),
                ));
            }
            match fresh_snap {
                Some(s) => {
                    let ghost s_g = s;
                    proof {
                        assert(st.snap == Some(s_g));
                        assert(st.warn is None);
                        assert(st.cache == cache_before);
                    }
                    snapshots.push(s);
                },
                None => {
                    match &results[idx] {
                        Some(res) => match res {
                            Ok(fetched) => {
                                let mut served = fetched.clone();
                                served.last_updated = now;
                                let ghost served_g = served;
                                proof {
                                    assert(served_g == refreshed(*fetched, now));
                                    assert(st.snap == Some(served_g));
                                    assert(st.warn is None);
                                }
                                self.cache.put(
                                    key,
                                    CacheEntry { snapshot: served.clone(), fetched_at: now },
                                );
                                snapshots.push(served);
                                proof {
                                    assert(self.cache@ == st.cache);
                                }
                            },
                            Err(e) => {
                                match self.cache.get(key.as_str()) {
                                    Some(entry) => {
                                        let ghost entry_g = *entry;
                                        snapshots.push(entry.snapshot.clone());
                                        let w = stale_warning(
                                            venue.as_str(),
                                            symbol.as_str(),
                                            e.detail.as_str(),
                                        );
                                        proof {
                                            assert(st.snap == Some(entry_g.snapshot));
                                            assert(st.warn == Some(w@));
                                            assert(st.cache == cache_before);
                                        }
                                        warnings.push(w);
                                    },
                                    None => {
                                        let w = lost_warning(
                                            venue.as_str(),
                                            symbol.as_str(),
                                            e.detail.as_str(),
                                        );
                                        proof {
                                            assert(st.snap is None);
                                            assert(st.warn == Some(w@));
                                            assert(st.cache == cache_before);
                                        }
                                        warnings.push(w);
                                    },
                                }
                            },
                        },
                        None => {
                            let detail = config_error_detail(venue.as_str(), symbol.as_str());
                            match self.cache.get(key.as_str()) {
                                Some(entry) => {
                                    let ghost entry_g = *entry;
                                    snapshots.push(entry.snapshot.clone());
                                    let w = stale_warning(
                                        venue.as_str(),
                                        symbol.as_str(),
                                        detail.as_str(),
                                    );
                                    proof {
                                        assert(st.snap == Some(entry_g.snapshot));
                                        assert(st.warn == Some(w@));
                                        assert(st.cache == cache_before);
                                    }
                                    warnings.push(w);
                                },
                                None => {
                                    let w = lost_warning(
                                        venue.as_str(),
                                        symbol.as_str(),
                                        detail.as_str(),
                                    );
                                    proof {
                                        assert(st.snap is None);
                                        assert(st.warn == Some(w@));
                                        assert(st.cache == cache_before);
                                    }
                                    warnings.push(w);
                                },
                            }
                        },
                    }
                },
            }
            proof {
                assert(snapshots@ =~= snaps_before + opt_seq(st.snap));
                assert(warnings.deep_view() =~= warns_before + opt_seq(st.warn));
                assert(self.cache@ == st.cache);
                let rest = round_spec(
                    st.cache,
                    keys.skip(idx as int + 1),
                    results@.skip(idx as int + 1),
                    now,
                    config.ttl_ms(),
                );
                assert(pre.snaps == opt_prepend(st.snap, rest.snaps));
                assert(pre.warns == opt_prepend(st.warn, rest.warns));
                assert(pre.cache == rest.cache);
                assert(snaps_before + pre.snaps =~= (snaps_before + opt_seq(st.snap))
                    + rest.snaps);
                assert(warns_before + pre.warns =~= (warns_before + opt_seq(st.warn))
                    + rest.warns);
                assert(nonneg_times(self.cache@));
            }
            idx += 1;
        }
        let stable = warnings.len() == 0;
        self.status_label = if stable {
            String::from_str("Live feeds stable")
        } else {
            String::from_str("Live feeds (degraded)")
        };
        proof {
            assert(keys.skip(n as int) =~= Seq::<(Seq<char>, Seq<char>)>::empty());
            assert(results@.skip(n as int) =~= Seq::<Option<FetchOutcome>>::empty());
        }
        CollectionOutcome { snapshots, warnings }
    }
}

} // verus!

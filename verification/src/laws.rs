//! Round-level laws of the collector, proved once and for all over the
//! round model that `DataHub::collect` is specified against.
//!
//! The central device is the rewriting of a round — whose cache evolves
//! from key to key — into per-key steps against the round-start cache,
//! valid whenever the configured keys are pairwise distinct.  Each law
//! then reads off one key's contribution: what is served, what is
//! warned, and what the cache holds afterwards.

use vstd::prelude::*;

use crate::cache::{cache_key_view, CacheEntry};
use crate::data::{
    action_spec, is_fresh, lost_warning_view, opt_seq, refreshed, round_spec, stale_warning_view,
    step_spec, FetchOutcome, PlanAction,
};
use crate::snapshot::MarketSnapshot;

verus! {

/// The cache key of a flattened (venue, symbol) pair.
pub open spec fn key_ck(k: (Seq<char>, Seq<char>)) -> Seq<char> {
    cache_key_view(k.0, k.1)
}

/// No two configured pairs share a cache key.
pub open spec fn distinct_keys(keys: Seq<(Seq<char>, Seq<char>)>) -> bool {
    forall|i: int, j: int|
        #![trigger keys[i], keys[j]]
        0 <= i < j < keys.len() ==> key_ck(keys[i]) != key_ck(keys[j])
}

/// The present values of a sequence of options, in order.
pub open spec fn flatten_opts<A>(s: Seq<Option<A>>) -> Seq<A>
    decreases s.len(),
{
    if s.len() == 0 {
        Seq::empty()
    } else {
        opt_seq(s[0]) + flatten_opts(s.drop_first())
    }
}

/// Two caches hold the same information under one key.
pub open spec fn agree_at(
    c1: Map<Seq<char>, CacheEntry>,
    c2: Map<Seq<char>, CacheEntry>,
    ck: Seq<char>,
) -> bool {
    c1.contains_key(ck) == c2.contains_key(ck) && (c1.contains_key(ck) ==> c1[ck] == c2[ck])
}

/// Two caches hold the same information under every configured key.
pub open spec fn agree_on_keys(
    c1: Map<Seq<char>, CacheEntry>,
    c2: Map<Seq<char>, CacheEntry>,
    keys: Seq<(Seq<char>, Seq<char>)>,
) -> bool {
    forall|i: int| 0 <= i < keys.len() ==> agree_at(c1, c2, key_ck(#[trigger] keys[i]))
}

/// What each key contributes to the snapshot list, read against one fixed
/// cache.
pub open spec fn snap_opts(
    c: Map<Seq<char>, CacheEntry>,
    keys: Seq<(Seq<char>, Seq<char>)>,
    results: Seq<Option<FetchOutcome>>,
    now: i64,
    ttl_ms: int,
) -> Seq<Option<MarketSnapshot>> {
    Seq::new(keys.len(), |i: int| step_spec(c, keys[i].0, keys[i].1, results[i], now, ttl_ms).snap)
}

/// What each key contributes to the warning list, read against one fixed
/// cache.
pub open spec fn warn_opts(
    c: Map<Seq<char>, CacheEntry>,
    keys: Seq<(Seq<char>, Seq<char>)>,
    results: Seq<Option<FetchOutcome>>,
    now: i64,
    ttl_ms: int,
) -> Seq<Option<Seq<char>>> {
    Seq::new(keys.len(), |i: int| step_spec(c, keys[i].0, keys[i].1, results[i], now, ttl_ms).warn)
}

/// A step reads the cache only under its own key, so caches that agree
/// there produce the same contribution.
proof fn lemma_step_agree(
    c1: Map<Seq<char>, CacheEntry>,
    c2: Map<Seq<char>, CacheEntry>,
    venue: Seq<char>,
    symbol: Seq<char>,
    res: Option<FetchOutcome>,
    now: i64,
    ttl_ms: int,
)
    requires
        agree_at(c1, c2, cache_key_view(venue, symbol)),
    ensures
        step_spec(c1, venue, symbol, res, now, ttl_ms).snap == step_spec(
            c2,
            venue,
            symbol,
            res,
            now,
            ttl_ms,
        ).snap,
        step_spec(c1, venue, symbol, res, now, ttl_ms).warn == step_spec(
            c2,
            venue,
            symbol,
            res,
            now,
            ttl_ms,
        ).warn,
        agree_at(
            step_spec(c1, venue, symbol, res, now, ttl_ms).cache,
            step_spec(c2, venue, symbol, res, now, ttl_ms).cache,
            cache_key_view(venue, symbol),
        ),
        forall|k: Seq<char>|
            k != cache_key_view(venue, symbol) ==> #[trigger] agree_at(
                step_spec(c1, venue, symbol, res, now, ttl_ms).cache,
                c1,
                k,
            ),
{
}

/// Rounds over caches that agree on every configured key serve and warn
/// identically.
proof fn lemma_round_agree(
    c1: Map<Seq<char>, CacheEntry>,
    c2: Map<Seq<char>, CacheEntry>,
    keys: Seq<(Seq<char>, Seq<char>)>,
    results: Seq<Option<FetchOutcome>>,
    now: i64,
    ttl_ms: int,
)
    requires
        agree_on_keys(c1, c2, keys),
        results.len() == keys.len(),
    ensures
        round_spec(c1, keys, results, now, ttl_ms).snaps == round_spec(
            c2,
            keys,
            results,
            now,
            ttl_ms,
        ).snaps,
        round_spec(c1, keys, results, now, ttl_ms).warns == round_spec(
            c2,
            keys,
            results,
            now,
            ttl_ms,
        ).warns,
    decreases keys.len(),
{
    if keys.len() > 0 {
        let k0 = keys[0];
        let st1 = step_spec(c1, k0.0, k0.1, results[0], now, ttl_ms);
        let st2 = step_spec(c2, k0.0, k0.1, results[0], now, ttl_ms);
        assert(agree_at(c1, c2, key_ck(k0)));
        lemma_step_agree(c1, c2, k0.0, k0.1, results[0], now, ttl_ms);
        assert forall|i: int| 0 <= i < keys.drop_first().len() implies agree_at(
            st1.cache,
            st2.cache,
            key_ck(#[trigger] keys.drop_first()[i]),
        ) by {
            let ck = key_ck(keys.drop_first()[i]);
            assert(agree_at(c1, c2, key_ck(keys[i + 1])));
            if ck != key_ck(k0) {
                assert(agree_at(st1.cache, c1, ck));
                assert(agree_at(st2.cache, c2, ck));
            }
        }
        lemma_round_agree(st1.cache, st2.cache, keys.drop_first(), results.drop_first(), now, ttl_ms);
    }
}

/// With pairwise-distinct keys, a round is the per-key steps against the
/// round-start cache: the snapshot list and warning list are the ordered
/// present contributions, and the final cache holds, under each key, that
/// key's own step result, and elsewhere the round-start contents.
pub proof fn lemma_round_fixed(
    c: Map<Seq<char>, CacheEntry>,
    keys: Seq<(Seq<char>, Seq<char>)>,
    results: Seq<Option<FetchOutcome>>,
    now: i64,
    ttl_ms: int,
)
    requires
        distinct_keys(keys),
        results.len() == keys.len(),
    ensures
        round_spec(c, keys, results, now, ttl_ms).snaps == flatten_opts(
            snap_opts(c, keys, results, now, ttl_ms),
        ),
        round_spec(c, keys, results, now, ttl_ms).warns == flatten_opts(
            warn_opts(c, keys, results, now, ttl_ms),
        ),
        forall|i: int|
            0 <= i < keys.len() ==> agree_at(
                round_spec(c, keys, results, now, ttl_ms).cache,
                step_spec(c, (#[trigger] keys[i]).0, keys[i].1, results[i], now, ttl_ms).cache,
                key_ck(keys[i]),
            ),
        forall|k: Seq<char>|
            (forall|i: int| 0 <= i < keys.len() ==> key_ck(#[trigger] keys[i]) != k)
                ==> #[trigger] agree_at(round_spec(c, keys, results, now, ttl_ms).cache, c, k),
    decreases keys.len(),
{
    let r = round_spec(c, keys, results, now, ttl_ms);
    if keys.len() == 0 {
        assert(r.snaps =~= flatten_opts(snap_opts(c, keys, results, now, ttl_ms)));
        assert(r.warns =~= flatten_opts(warn_opts(c, keys, results, now, ttl_ms)));
    } else {
        let k0 = keys[0];
        let ck0 = key_ck(k0);
        let st0 = step_spec(c, k0.0, k0.1, results[0], now, ttl_ms);
        let keys1 = keys.drop_first();
        let results1 = results.drop_first();
        let rest = round_spec(st0.cache, keys1, results1, now, ttl_ms);
        assert(r.snaps == crate::data::opt_prepend(st0.snap, rest.snaps));

        // The rest of the round sees, on its own keys, the round-start cache.
        assert forall|i: int| 0 <= i < keys1.len() implies agree_at(
            st0.cache,
            c,
            key_ck(#[trigger] keys1[i]),
        ) by {
            assert(keys1[i] == keys[i + 1]);
            assert(key_ck(keys[i + 1]) != ck0);
            lemma_step_agree(c, c, k0.0, k0.1, results[0], now, ttl_ms);
        }
        lemma_round_agree(st0.cache, c, keys1, results1, now, ttl_ms);
        lemma_round_fixed(c, keys1, results1, now, ttl_ms);
        lemma_round_fixed(st0.cache, keys1, results1, now, ttl_ms);

        // Splice the head contribution onto the tail's fixed form.
        assert(snap_opts(c, keys, results, now, ttl_ms).drop_first() =~= snap_opts(
            c,
            keys1,
            results1,
            now,
            ttl_ms,
        ));
        assert(warn_opts(c, keys, results, now, ttl_ms).drop_first() =~= warn_opts(
            c,
            keys1,
            results1,
            now,
            ttl_ms,
        ));
        assert(snap_opts(c, keys, results, now, ttl_ms)[0] == st0.snap);
        assert(warn_opts(c, keys, results, now, ttl_ms)[0] == st0.warn);
        assert(r.snaps == flatten_opts(snap_opts(c, keys, results, now, ttl_ms)));
        assert(r.warns == flatten_opts(warn_opts(c, keys, results, now, ttl_ms)));

        // Cache: each key holds its own step result, the rest is untouched.
        assert forall|i: int| 0 <= i < keys.len() implies agree_at(
            r.cache,
            step_spec(c, (#[trigger] keys[i]).0, keys[i].1, results[i], now, ttl_ms).cache,
            key_ck(keys[i]),
        ) by {
            if i == 0 {
                assert forall|j: int| 0 <= j < keys1.len() implies key_ck(#[trigger] keys1[j])
                    != ck0 by {
                    assert(keys1[j] == keys[j + 1]);
                }
                assert(agree_at(rest.cache, st0.cache, ck0));
            } else {
                let ck = key_ck(keys[i]);
                assert(keys1[i - 1] == keys[i]);
                assert(agree_at(
                    rest.cache,
                    step_spec(st0.cache, keys[i].0, keys[i].1, results1[i - 1], now, ttl_ms).cache,
                    ck,
                ));
                assert(results1[i - 1] == results[i]);
                assert(agree_at(st0.cache, c, ck));
                lemma_step_agree(st0.cache, c, keys[i].0, keys[i].1, results[i], now, ttl_ms);
            }
        }
        assert forall|k: Seq<char>|
            (forall|i: int| 0 <= i < keys.len() ==> key_ck(#[trigger] keys[i]) != k) implies agree_at(
            r.cache,
            c,
            k,
        ) by {
            assert(key_ck(keys[0]) != k);
            assert forall|i: int| 0 <= i < keys1.len() implies key_ck(#[trigger] keys1[i]) != k by {
                assert(keys1[i] == keys[i + 1]);
            }
            assert(agree_at(rest.cache, st0.cache, k));
            assert(agree_at(st0.cache, c, k));
        }
    }
}

/// A present contribution appears in the flattened sequence.
pub proof fn lemma_flatten_opts_contains<A>(s: Seq<Option<A>>, i: int)
    requires
        0 <= i < s.len(),
        s[i] is Some,
    ensures
        flatten_opts(s).contains(s[i]->0),
    decreases s.len(),
{
    if i == 0 {
        assert(flatten_opts(s)[0] == s[0]->0);
    } else {
        lemma_flatten_opts_contains(s.drop_first(), i - 1);
        let x = s[i]->0;
        let j = choose|j: int| 0 <= j < flatten_opts(s.drop_first()).len() && flatten_opts(
            s.drop_first(),
        )[j] == x;
        assert(flatten_opts(s)[opt_seq(s[0]).len() + j] == x);
    }
}

/// A sequence of absent contributions flattens to nothing.
pub proof fn lemma_flatten_opts_none<A>(s: Seq<Option<A>>)
    requires
        forall|i: int| 0 <= i < s.len() ==> (#[trigger] s[i]) is None,
    ensures
        flatten_opts(s) == Seq::<A>::empty(),
    decreases s.len(),
{
    if s.len() > 0 {
        lemma_flatten_opts_none(s.drop_first());
        assert(flatten_opts(s) =~= Seq::<A>::empty());
    }
}

/// A key with a fresh cache entry at round start is served that cached
/// snapshot unchanged, plans no fetch, warns nothing, and keeps its cache
/// entry untouched.
pub proof fn lemma_fresh_cache_hit(
    c: Map<Seq<char>, CacheEntry>,
    keys: Seq<(Seq<char>, Seq<char>)>,
    results: Seq<Option<FetchOutcome>>,
    now: i64,
    ttl_ms: int,
    i: int,
)
    requires
        distinct_keys(keys),
        results.len() == keys.len(),
        0 <= i < keys.len(),
        is_fresh(c, key_ck(keys[i]), now as int, ttl_ms),
    ensures
        action_spec(c, keys[i].0, keys[i].1, now as int, ttl_ms) == PlanAction::UseCache,
        snap_opts(c, keys, results, now, ttl_ms)[i] == Some(c[key_ck(keys[i])].snapshot),
        warn_opts(c, keys, results, now, ttl_ms)[i] is None,
        round_spec(c, keys, results, now, ttl_ms).snaps.contains(c[key_ck(keys[i])].snapshot),
        round_spec(c, keys, results, now, ttl_ms).snaps == flatten_opts(
            snap_opts(c, keys, results, now, ttl_ms),
        ),
        agree_at(round_spec(c, keys, results, now, ttl_ms).cache, c, key_ck(keys[i])),
{
    lemma_round_fixed(c, keys, results, now, ttl_ms);
    lemma_flatten_opts_contains(snap_opts(c, keys, results, now, ttl_ms), i);
}

/// A key whose entry is expired or missing and whose adapter succeeded is
/// served the fresh snapshot stamped with the round clock, warns nothing,
/// and has its cache entry overwritten with that snapshot at the round
/// clock.
pub proof fn lemma_refresh_success(
    c: Map<Seq<char>, CacheEntry>,
    keys: Seq<(Seq<char>, Seq<char>)>,
    results: Seq<Option<FetchOutcome>>,
    now: i64,
    ttl_ms: int,
    i: int,
    s: MarketSnapshot,
)
    requires
        distinct_keys(keys),
        results.len() == keys.len(),
        0 <= i < keys.len(),
        !is_fresh(c, key_ck(keys[i]), now as int, ttl_ms),
        results[i] == Some(Result::<MarketSnapshot, crate::fetch::FetchError>::Ok(s)),
    ensures
        snap_opts(c, keys, results, now, ttl_ms)[i] == Some(refreshed(s, now)),
        refreshed(s, now).last_updated == now,
        warn_opts(c, keys, results, now, ttl_ms)[i] is None,
        round_spec(c, keys, results, now, ttl_ms).snaps.contains(refreshed(s, now)),
        round_spec(c, keys, results, now, ttl_ms).snaps == flatten_opts(
            snap_opts(c, keys, results, now, ttl_ms),
        ),
        round_spec(c, keys, results, now, ttl_ms).cache.contains_key(key_ck(keys[i])),
        round_spec(c, keys, results, now, ttl_ms).cache[key_ck(keys[i])] == (CacheEntry {
            snapshot: refreshed(s, now),
            fetched_at: now,
        }),
{
    lemma_round_fixed(c, keys, results, now, ttl_ms);
    lemma_flatten_opts_contains(snap_opts(c, keys, results, now, ttl_ms), i);
}

/// A key whose adapter failed while a cache entry exists — however old —
/// is served that cached snapshot, contributes exactly its stale warning,
/// and keeps its cache entry untouched.
pub proof fn lemma_stale_fallback(
    c: Map<Seq<char>, CacheEntry>,
    keys: Seq<(Seq<char>, Seq<char>)>,
    results: Seq<Option<FetchOutcome>>,
    now: i64,
    ttl_ms: int,
    i: int,
    e: crate::fetch::FetchError,
)
    requires
        distinct_keys(keys),
        results.len() == keys.len(),
        0 <= i < keys.len(),
        !is_fresh(c, key_ck(keys[i]), now as int, ttl_ms),
        c.contains_key(key_ck(keys[i])),
        results[i] == Some(Result::<MarketSnapshot, crate::fetch::FetchError>::Err(e)),
    ensures
        snap_opts(c, keys, results, now, ttl_ms)[i] == Some(c[key_ck(keys[i])].snapshot),
        warn_opts(c, keys, results, now, ttl_ms)[i] == Some(
            stale_warning_view(keys[i].0, keys[i].1, e.detail@),
        ),
        round_spec(c, keys, results, now, ttl_ms).snaps.contains(c[key_ck(keys[i])].snapshot),
        round_spec(c, keys, results, now, ttl_ms).warns.contains(
            stale_warning_view(keys[i].0, keys[i].1, e.detail@),
        ),
        round_spec(c, keys, results, now, ttl_ms).warns == flatten_opts(
            warn_opts(c, keys, results, now, ttl_ms),
        ),
        agree_at(round_spec(c, keys, results, now, ttl_ms).cache, c, key_ck(keys[i])),
{
    lemma_round_fixed(c, keys, results, now, ttl_ms);
    lemma_flatten_opts_contains(snap_opts(c, keys, results, now, ttl_ms), i);
    lemma_flatten_opts_contains(warn_opts(c, keys, results, now, ttl_ms), i);
}

/// A key whose adapter failed with nothing cached contributes no
/// snapshot and exactly its failure warning, and stays absent from the
/// cache.
pub proof fn lemma_miss_failure(
    c: Map<Seq<char>, CacheEntry>,
    keys: Seq<(Seq<char>, Seq<char>)>,
    results: Seq<Option<FetchOutcome>>,
    now: i64,
    ttl_ms: int,
    i: int,
    e: crate::fetch::FetchError,
)
    requires
        distinct_keys(keys),
        results.len() == keys.len(),
        0 <= i < keys.len(),
        !c.contains_key(key_ck(keys[i])),
        results[i] == Some(Result::<MarketSnapshot, crate::fetch::FetchError>::Err(e)),
    ensures
        snap_opts(c, keys, results, now, ttl_ms)[i] is None,
        warn_opts(c, keys, results, now, ttl_ms)[i] == Some(
            lost_warning_view(keys[i].0, keys[i].1, e.detail@),
        ),
        round_spec(c, keys, results, now, ttl_ms).warns.contains(
            lost_warning_view(keys[i].0, keys[i].1, e.detail@),
        ),
        round_spec(c, keys, results, now, ttl_ms).snaps == flatten_opts(
            snap_opts(c, keys, results, now, ttl_ms),
        ),
        round_spec(c, keys, results, now, ttl_ms).warns == flatten_opts(
            warn_opts(c, keys, results, now, ttl_ms),
        ),
        !round_spec(c, keys, results, now, ttl_ms).cache.contains_key(key_ck(keys[i])),
{
    lemma_round_fixed(c, keys, results, now, ttl_ms);
    lemma_flatten_opts_contains(warn_opts(c, keys, results, now, ttl_ms), i);
}

/// Two immediately repeated rounds with a positive TTL and no adapter
/// failure: the first round warns nothing and fills the cache, and the
/// second round — served entirely from the cache, with no fetch at all —
/// yields the identical snapshot list, warns nothing, and leaves the
/// cache as it was.
pub proof fn lemma_round_idempotent(
    c: Map<Seq<char>, CacheEntry>,
    keys: Seq<(Seq<char>, Seq<char>)>,
    results: Seq<Option<FetchOutcome>>,
    now: i64,
    ttl_ms: int,
)
    requires
        distinct_keys(keys),
        results.len() == keys.len(),
        ttl_ms > 0,
        forall|i: int|
            0 <= i < keys.len() ==> ((#[trigger] results[i]) is Some <==> !is_fresh(
                c,
                key_ck(keys[i]),
                now as int,
                ttl_ms,
            )),
        forall|i: int| 0 <= i < keys.len() ==> ((#[trigger] results[i]) matches Some(x) ==> x is Ok),
    ensures
        ({
            let r1 = round_spec(c, keys, results, now, ttl_ms);
            let none_results = Seq::new(keys.len(), |i: int| Option::<FetchOutcome>::None);
            let r2 = round_spec(r1.cache, keys, none_results, now, ttl_ms);
            &&& r1.warns == Seq::<Seq<char>>::empty()
            &&& r2.warns == Seq::<Seq<char>>::empty()
            &&& r2.snaps == r1.snaps
            &&& r2.cache == r1.cache
        }),
{
    let r1 = round_spec(c, keys, results, now, ttl_ms);
    let nres = Seq::new(keys.len(), |i: int| Option::<FetchOutcome>::None);
    let r2 = round_spec(r1.cache, keys, nres, now, ttl_ms);
    lemma_round_fixed(c, keys, results, now, ttl_ms);
    lemma_round_fixed(r1.cache, keys, nres, now, ttl_ms);
    assert forall|i: int| 0 <= i < keys.len() implies {
        let st1 = step_spec(c, (#[trigger] keys[i]).0, keys[i].1, results[i], now, ttl_ms);
        let st2 = step_spec(r1.cache, keys[i].0, keys[i].1, nres[i], now, ttl_ms);
        &&& st1.warn is None
        &&& st2.warn is None
        &&& st2.snap == st1.snap
        &&& st2.cache == r1.cache
    } by {
        let ck = key_ck(keys[i]);
        let st1 = step_spec(c, keys[i].0, keys[i].1, results[i], now, ttl_ms);
        let st2 = step_spec(r1.cache, keys[i].0, keys[i].1, nres[i], now, ttl_ms);
        assert(agree_at(r1.cache, st1.cache, ck));
        if is_fresh(c, ck, now as int, ttl_ms) {
            assert(st1.cache == c);
            assert(is_fresh(r1.cache, ck, now as int, ttl_ms));
            assert(st2.snap == Some(r1.cache[ck].snapshot));
        } else {
            let s = results[i]->0->Ok_0;
            assert(st1.cache[ck] == CacheEntry { snapshot: refreshed(s, now), fetched_at: now });
            assert(r1.cache[ck].fetched_at == now);
            assert(is_fresh(r1.cache, ck, now as int, ttl_ms));
            assert(st2.snap == Some(r1.cache[ck].snapshot));
            assert(st1.snap == Some(refreshed(s, now)));
        }
    }
    assert(snap_opts(r1.cache, keys, nres, now, ttl_ms) =~= snap_opts(c, keys, results, now, ttl_ms));
    lemma_flatten_opts_none(warn_opts(c, keys, results, now, ttl_ms));
    lemma_flatten_opts_none(warn_opts(r1.cache, keys, nres, now, ttl_ms));
    assert forall|k: Seq<char>| #[trigger] agree_at(r2.cache, r1.cache, k) by {
        if exists|i: int| 0 <= i < keys.len() && key_ck(#[trigger] keys[i]) == k {
            let i = choose|i: int| 0 <= i < keys.len() && key_ck(#[trigger] keys[i]) == k;
            let st2 = step_spec(r1.cache, keys[i].0, keys[i].1, nres[i], now, ttl_ms);
            assert(agree_at(r2.cache, st2.cache, k));
            assert(st2.cache == r1.cache);
        } else {
            assert(forall|i: int| 0 <= i < keys.len() ==> key_ck(#[trigger] keys[i]) != k);
            assert(agree_at(r2.cache, r1.cache, k));
        }
    }
    assert forall|k: Seq<char>| #[trigger]
        r2.cache.contains_key(k) == r1.cache.contains_key(k) by {
        assert(agree_at(r2.cache, r1.cache, k));
    }
    assert forall|k: Seq<char>| r1.cache.contains_key(k) implies #[trigger] r2.cache[k]
        == r1.cache[k] by {
        assert(agree_at(r2.cache, r1.cache, k));
    }
    assert(r2.cache =~= r1.cache);
}

/// The (venue, symbol) identity of a snapshot.
pub open spec fn pair_of(s: MarketSnapshot) -> (Seq<char>, Seq<char>) {
    (s.venue@, s.symbol@)
}

/// The (venue, symbol) identities of a snapshot list, in order.
pub open spec fn pairs_of(snaps: Seq<MarketSnapshot>) -> Seq<(Seq<char>, Seq<char>)> {
    Seq::new(snaps.len(), |j: int| pair_of(snaps[j]))
}

/// Which configured keys contribute a snapshot, in configured order.
pub open spec fn served_keys(
    c: Map<Seq<char>, CacheEntry>,
    keys: Seq<(Seq<char>, Seq<char>)>,
    results: Seq<Option<FetchOutcome>>,
    now: i64,
    ttl_ms: int,
) -> Seq<Option<(Seq<char>, Seq<char>)>> {
    Seq::new(
        keys.len(),
        |i: int|
            if step_spec(c, keys[i].0, keys[i].1, results[i], now, ttl_ms).snap is Some {
                Some(keys[i])
            } else {
                None
            },
    )
}

proof fn lemma_flatten_pairs(
    s: Seq<Option<MarketSnapshot>>,
    t: Seq<Option<(Seq<char>, Seq<char>)>>,
)
    requires
        s.len() == t.len(),
        forall|i: int|
            0 <= i < s.len() ==> (((#[trigger] s[i]) is Some <==> (#[trigger] t[i]) is Some) && (
            s[i] is Some ==> pair_of(s[i]->0) == t[i]->0)),
    ensures
        pairs_of(flatten_opts(s)) == flatten_opts(t),
    decreases s.len(),
{
    if s.len() == 0 {
        assert(pairs_of(flatten_opts(s)) =~= flatten_opts(t));
    } else {
        lemma_flatten_pairs(s.drop_first(), t.drop_first());
        assert(pairs_of(flatten_opts(s)) =~= flatten_opts(t));
    }
}

/// The snapshot list keeps the configured (venue, symbol) order: its
/// identity sequence is exactly the configured key list restricted, in
/// order, to the keys that contributed a snapshot.  This holds whenever
/// cached entries and fetch results carry the identity of their own key.
pub proof fn lemma_order_preserved(
    c: Map<Seq<char>, CacheEntry>,
    keys: Seq<(Seq<char>, Seq<char>)>,
    results: Seq<Option<FetchOutcome>>,
    now: i64,
    ttl_ms: int,
)
    requires
        distinct_keys(keys),
        results.len() == keys.len(),
        forall|i: int|
            0 <= i < keys.len() ==> ((#[trigger] results[i]) matches Some(Ok(s)) ==> pair_of(s)
                == keys[i]),
        forall|i: int|
            0 <= i < keys.len() ==> (c.contains_key(key_ck(#[trigger] keys[i])) ==> pair_of(
                c[key_ck(keys[i])].snapshot,
            ) == keys[i]),
    ensures
        pairs_of(round_spec(c, keys, results, now, ttl_ms).snaps) == flatten_opts(
            served_keys(c, keys, results, now, ttl_ms),
        ),
{
    lemma_round_fixed(c, keys, results, now, ttl_ms);
    let so = snap_opts(c, keys, results, now, ttl_ms);
    let sk = served_keys(c, keys, results, now, ttl_ms);
    assert forall|i: int| 0 <= i < so.len() implies (((#[trigger] so[i]) is Some <==> (
    #[trigger] sk[i]) is Some) && (so[i] is Some ==> pair_of(so[i]->0) == sk[i]->0)) by {
        let ck = key_ck(keys[i]);
        let st = step_spec(c, keys[i].0, keys[i].1, results[i], now, ttl_ms);
        if !is_fresh(c, ck, now as int, ttl_ms) {
            match results[i] {
                Some(res) => match res {
                    Ok(s) => {
                        assert(pair_of(refreshed(s, now)) == pair_of(s));
                    },
                    Err(_) => {},
                },
                None => {},
            }
        }
    }
    lemma_flatten_pairs(so, sk);
}

/// Every element of the flattened sequence comes from a present slot.
proof fn lemma_flatten_opts_elem<A>(t: Seq<Option<A>>, a: int)
    requires
        0 <= a < flatten_opts(t).len(),
    ensures
        exists|i: int| 0 <= i < t.len() && t[i] is Some && t[i]->0 == flatten_opts(t)[a],
    decreases t.len(),
{
    if t.len() > 0 {
        let head = opt_seq(t[0]);
        if a < head.len() {
            assert(t[0] is Some && t[0]->0 == flatten_opts(t)[a]);
        } else {
            lemma_flatten_opts_elem(t.drop_first(), a - head.len());
            let i = choose|i: int|
                0 <= i < t.drop_first().len() && t.drop_first()[i] is Some && t.drop_first()[i]->0
                    == flatten_opts(t.drop_first())[a - head.len()];
            assert(t[i + 1] is Some && t[i + 1]->0 == flatten_opts(t)[a]);
        }
    }
}

/// Flattening pairwise-different present slots repeats nothing.
proof fn lemma_flatten_opts_no_dup<A>(t: Seq<Option<A>>)
    requires
        forall|i: int, j: int|
            #![trigger t[i], t[j]]
            0 <= i < j < t.len() && t[i] is Some && t[j] is Some ==> t[i]->0 != t[j]->0,
    ensures
        forall|a: int, b: int|
            #![trigger flatten_opts(t)[a], flatten_opts(t)[b]]
            0 <= a < b < flatten_opts(t).len() ==> flatten_opts(t)[a] != flatten_opts(t)[b],
    decreases t.len(),
{
    if t.len() > 0 {
        let rest = t.drop_first();
        lemma_flatten_opts_no_dup(rest);
        let f = flatten_opts(t);
        let fr = flatten_opts(rest);
        let head = opt_seq(t[0]);
        assert forall|a: int, b: int| 0 <= a < b < f.len() implies #[trigger] f[a] != #[trigger] f[b] by {
            if a >= head.len() {
                assert(f[a] == fr[a - head.len()]);
                assert(f[b] == fr[b - head.len()]);
            } else {
                assert(f[a] == t[0]->0);
                assert(f[b] == fr[b - 1]);
                lemma_flatten_opts_elem(rest, b - 1);
                let i = choose|i: int|
                    0 <= i < rest.len() && rest[i] is Some && rest[i]->0 == fr[b - 1];
                assert(t[i + 1] is Some && t[i + 1]->0 == fr[b - 1]);
            }
        }
    }
}

/// The outcome holds at most one snapshot per configured key: under the
/// same identity-consistency assumptions as the ordering law, no two
/// snapshots of a round share a (venue, symbol) pair.
pub proof fn lemma_no_duplicate_snapshots(
    c: Map<Seq<char>, CacheEntry>,
    keys: Seq<(Seq<char>, Seq<char>)>,
    results: Seq<Option<FetchOutcome>>,
    now: i64,
    ttl_ms: int,
)
    requires
        distinct_keys(keys),
        results.len() == keys.len(),
        forall|i: int|
            0 <= i < keys.len() ==> ((#[trigger] results[i]) matches Some(Ok(s)) ==> pair_of(s)
                == keys[i]),
        forall|i: int|
            0 <= i < keys.len() ==> (c.contains_key(key_ck(#[trigger] keys[i])) ==> pair_of(
                c[key_ck(keys[i])].snapshot,
            ) == keys[i]),
    ensures
        ({
            let snaps = round_spec(c, keys, results, now, ttl_ms).snaps;
            forall|a: int, b: int|
                0 <= a < b < snaps.len() ==> pair_of(#[trigger] snaps[a]) != pair_of(
                    #[trigger] snaps[b],
                )
        }),
{
    lemma_order_preserved(c, keys, results, now, ttl_ms);
    let snaps = round_spec(c, keys, results, now, ttl_ms).snaps;
    let sk = served_keys(c, keys, results, now, ttl_ms);
    assert forall|i: int, j: int|
        #![trigger sk[i], sk[j]]
        0 <= i < j < sk.len() && sk[i] is Some && sk[j] is Some implies sk[i]->0 != sk[j]->0 by {
        if keys[i] == keys[j] {
            assert(key_ck(keys[i]) == key_ck(keys[j]));
        }
    }
    lemma_flatten_opts_no_dup(sk);
    assert forall|a: int, b: int| 0 <= a < b < snaps.len() implies pair_of(#[trigger] snaps[a])
        != pair_of(#[trigger] snaps[b]) by {
        assert(pairs_of(snaps)[a] == flatten_opts(sk)[a]);
        assert(pairs_of(snaps)[b] == flatten_opts(sk)[b]);
    }
}

} // verus!

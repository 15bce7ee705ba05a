//! The snapshot cache: the most recently obtained snapshot per
//! (venue, symbol) pair, keyed by the combined cache key and abstracted as
//! a map from key to entry.
//!
//! There is no eviction: the key set is fixed by configuration, entries
//! are overwritten in place on a successful fetch, and staleness is the
//! caller's judgement, made by comparing `fetched_at` against its clock.

use vstd::prelude::*;
use vstd::string::StringExecFns;

use crate::snapshot::MarketSnapshot;
use crate::text::str_eq;

verus! {

/// The combined cache key of a (venue, symbol) pair.
pub open spec fn cache_key_view(venue: Seq<char>, symbol: Seq<char>) -> Seq<char> {
    venue + "::"@ + symbol
}

/// Builds the combined cache key of a (venue, symbol) pair.
pub fn cache_key(venue: &str, symbol: &str) -> (r: String)
    ensures
        r@ == cache_key_view(venue@, symbol@),
{
    String::from_str(venue).concat("::").concat(symbol)
}

/// A cached snapshot and the time it was obtained from its upstream.
#[derive(Debug)]
pub struct CacheEntry {
    pub snapshot: MarketSnapshot,
    pub fetched_at: i64,
}

struct CacheSlot {
    key: String,
    entry: CacheEntry,
}

/// Keyed store of the most recent snapshot per configured pair.
pub struct SnapshotCache {
    slots: Vec<CacheSlot>,
}

spec fn slots_map(s: Seq<CacheSlot>) -> Map<Seq<char>, CacheEntry>
    decreases s.len(),
{
    if s.len() == 0 {
        Map::empty()
    } else {
        slots_map(s.drop_last()).insert(s.last().key@, s.last().entry)
    }
}

spec fn keys_distinct(s: Seq<CacheSlot>) -> bool {
    forall|i: int, j: int| 0 <= i < j < s.len() ==> s[i].key@ != s[j].key@
}

proof fn lemma_slots_map_contains(s: Seq<CacheSlot>, k: Seq<char>)
    ensures
        slots_map(s).contains_key(k) <==> exists|i: int| 0 <= i < s.len() && s[i].key@ == k,
    decreases s.len(),
{
    if s.len() > 0 {
        lemma_slots_map_contains(s.drop_last(), k);
        if slots_map(s).contains_key(k) {
            if s.last().key@ != k {
                let i = choose|i: int| 0 <= i < s.drop_last().len() && s.drop_last()[i].key@ == k;
                assert(s[i].key@ == k);
            } else {
                assert(s[s.len() - 1].key@ == k);
            }
        }
        if exists|i: int| 0 <= i < s.len() && s[i].key@ == k {
            let i = choose|i: int| 0 <= i < s.len() && s[i].key@ == k;
            if i < s.len() - 1 {
                assert(s.drop_last()[i].key@ == k);
            }
        }
    }
}

proof fn lemma_slots_map_get_at(s: Seq<CacheSlot>, i: int)
    requires
        keys_distinct(s),
        0 <= i < s.len(),
    ensures
        slots_map(s).contains_key(s[i].key@),
        slots_map(s)[s[i].key@] == s[i].entry,
    decreases s.len(),
{
    if i < s.len() - 1 {
        lemma_slots_map_get_at(s.drop_last(), i);
        assert(s.drop_last()[i] == s[i]);
    }
}

proof fn lemma_slots_map_update(s: Seq<CacheSlot>, i: int, slot: CacheSlot)
    requires
        keys_distinct(s),
        0 <= i < s.len(),
        slot.key@ == s[i].key@,
    ensures
        keys_distinct(s.update(i, slot)),
        slots_map(s.update(i, slot)) == slots_map(s).insert(slot.key@, slot.entry),
    decreases s.len(),
{
    let s2 = s.update(i, slot);
    if i == s.len() - 1 {
        assert(s2.drop_last() =~= s.drop_last());
        assert(slots_map(s2) =~= slots_map(s).insert(slot.key@, slot.entry));
    } else {
        lemma_slots_map_update(s.drop_last(), i, slot);
        assert(s2.drop_last() =~= s.drop_last().update(i, slot));
        assert(s2.last() == s.last());
        assert(slots_map(s2) == slots_map(s.drop_last().update(i, slot)).insert(
            s.last().key@,
            s.last().entry,
        ));
        assert(slots_map(s2) =~= slots_map(s).insert(slot.key@, slot.entry));
    }
}

proof fn lemma_slots_map_dom_len(s: Seq<CacheSlot>)
    requires
        keys_distinct(s),
    ensures
        slots_map(s).dom().finite(),
        slots_map(s).dom().len() == s.len(),
    decreases s.len(),
{
    if s.len() > 0 {
        lemma_slots_map_dom_len(s.drop_last());
        lemma_slots_map_contains(s.drop_last(), s.last().key@);
        assert(forall|i: int|
            0 <= i < s.drop_last().len() ==> s.drop_last()[i].key@ != s.last().key@);
        assert(!slots_map(s.drop_last()).contains_key(s.last().key@));
        assert(slots_map(s).dom() =~= slots_map(s.drop_last()).dom().insert(s.last().key@));
    }
}

impl View for SnapshotCache {
    type V = Map<Seq<char>, CacheEntry>;

    closed spec fn view(&self) -> Map<Seq<char>, CacheEntry> {
        slots_map(self.slots@)
    }
}

impl SnapshotCache {
    /// The representation keeps one slot per key.
    pub closed spec fn wf(&self) -> bool {
        keys_distinct(self.slots@)
    }

    /// An empty cache.
    pub fn new() -> (r: Self)
        ensures
            r.wf(),
            r@ == Map::<Seq<char>, CacheEntry>::empty(),
    {
        SnapshotCache { slots: Vec::new() }
    }

    /// How many keys have an entry.
    pub fn len(&self) -> (n: usize)
        requires
            self.wf(),
        ensures
            n == self@.dom().len(),
    {
        proof {
            lemma_slots_map_dom_len(self.slots@);
        }
        self.slots.len()
    }

    /// Looks the key's entry up; absence means the key has never been
    /// successfully fetched.
    pub fn get(&self, key: &str) -> (r: Option<&CacheEntry>)
        requires
            self.wf(),
        ensures
            match r {
                Some(e) => self@.contains_key(key@) && *e == self@[key@],
                None => !self@.contains_key(key@),
            },
    {
        let n = self.slots.len();
        let mut i: usize = 0;
        while i < n
            invariant
                keys_distinct(self.slots@),
                n == self.slots@.len(),
                i <= n,
                forall|j: int| 0 <= j < i ==> self.slots@[j].key@ != key@,
            decreases n - i,
        {
            if str_eq(self.slots[i].key.as_str(), key) {
                proof {
                    lemma_slots_map_get_at(self.slots@, i as int);
                }
                return Some(&self.slots[i].entry);
            }
            i += 1;
        }
        proof {
            lemma_slots_map_contains(self.slots@, key@);
        }
        None
    }

    /// Stores the entry under the key, overwriting any previous entry:
    /// an idempotent overwrite, never a merge.
    pub fn put(&mut self, key: String, entry: CacheEntry)
        requires
            old(self).wf(),
        ensures
            final(self).wf(),
            final(self)@ == old(self)@.insert(key@, entry),
    {
        let n = self.slots.len();
        let mut i: usize = 0;
        while i < n
            invariant
                *self == *old(self),
                keys_distinct(self.slots@),
                n == self.slots@.len(),
                i <= n,
                forall|j: int| 0 <= j < i ==> self.slots@[j].key@ != key@,
            decreases n - i,
        {
            if str_eq(self.slots[i].key.as_str(), key.as_str()) {
                let slot = CacheSlot { key, entry };
                proof {
                    lemma_slots_map_update(self.slots@, i as int, slot);
                }
                self.slots[i] = slot;
                return;
            }
            i += 1;
        }
        let slot = CacheSlot { key, entry };
        let ghost s0 = self.slots@;
        proof {
            lemma_slots_map_contains(s0, slot.key@);
        }
        self.slots.push(slot);
        proof {
            assert(self.slots@.drop_last() =~= s0);
            assert(self@ =~= old(self)@.insert(key@, entry));
        }
    }
}

} // verus!

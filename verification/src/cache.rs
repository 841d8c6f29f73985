//! Bounded, time-expiring response cache with least-recently-used eviction.
//!
//! Entries live in recency order: the least recently used entry stands first
//! and the most recently used last. Every operation takes the current time
//! (in milliseconds) as a value, so lookups and stores are plain functions of
//! the store, the key, and the clock. An entry is retrievable only while
//! younger than the time-to-live; a hit refreshes both the entry's age and
//! its recency; a store that would exceed the capacity first drops expired
//! entries and then evicts the least recently used remaining entry.

use crate::types::{clone_json, str_eq};
use vstd::prelude::*;
use vstd::seq_lib::group_filter_ensures;

verus! {

broadcast use group_filter_ensures;

/// Time-to-live for cached entries, in milliseconds.
pub const CACHE_TTL_MILLIS: u64 = 2000;

/// Maximum number of entries the cache can hold.
pub const CACHE_CAPACITY: usize = 1000;

/// One cached key/value pair, stamped with the time it was stored or last
/// read.
#[derive(Debug)]
pub struct CacheEntry {
    pub key: String,
    pub value: serde_json::Value,
    pub stamp: u64,
}

/// An entry is fresh at `now` while strictly less than `ttl` milliseconds
/// have passed since its stamp.
pub open spec fn entry_fresh(e: CacheEntry, now: u64, ttl: u64) -> bool {
    now < e.stamp + ttl
}

/// No two entries share a key.
pub open spec fn distinct_keys(s: Seq<CacheEntry>) -> bool {
    forall|i: int, j: int|
        0 <= i < j < s.len() ==> (#[trigger] s[i]).key@ != (#[trigger] s[j]).key@
}

/// Some entry holds the key `k`.
pub open spec fn has_key(s: Seq<CacheEntry>, k: Seq<char>) -> bool {
    exists|i: int| 0 <= i < s.len() && (#[trigger] s[i]).key@ == k
}

/// The position of the entry holding the key `k` (meaningful when `has_key`
/// holds and keys are distinct).
pub open spec fn key_index(s: Seq<CacheEntry>, k: Seq<char>) -> int {
    choose|i: int| 0 <= i < s.len() && (#[trigger] s[i]).key@ == k
}

/// What a store of the key `k` at time `now` keeps of an existing entry: the
/// entry is still fresh and holds a different key.
pub open spec fn put_pred(k: Seq<char>, now: u64, ttl: u64) -> spec_fn(CacheEntry) -> bool {
    |e: CacheEntry| entry_fresh(e, now, ttl) && e.key@ != k
}

/// The store after `put(key, value)` at time `now`: expired entries and any
/// entry with the same key are dropped, the least recently used remaining
/// entry is evicted if the store is still at capacity, and the new entry is
/// appended as most recently used.
pub open spec fn spec_put(
    s: Seq<CacheEntry>,
    key: String,
    value: serde_json::Value,
    now: u64,
    ttl: u64,
    cap: int,
) -> Seq<CacheEntry> {
    let kept = s.filter(put_pred(key@, now, ttl));
    let room = if kept.len() >= cap {
        kept.drop_first()
    } else {
        kept
    };
    room.push(CacheEntry { key, value, stamp: now })
}

/// What `get(k)` at time `now` returns: the stored value when the key is
/// present and fresh, nothing otherwise.
pub open spec fn spec_get_result(s: Seq<CacheEntry>, k: Seq<char>, now: u64, ttl: u64) -> Option<
    serde_json::Value,
> {
    if has_key(s, k) && entry_fresh(s[key_index(s, k)], now, ttl) {
        Some(s[key_index(s, k)].value)
    } else {
        None
    }
}

/// The store after `get(k)` at time `now`: a hit moves the entry to most
/// recently used with its age reset; a lookup that finds the entry expired
/// removes it; a miss changes nothing.
pub open spec fn spec_get_state(s: Seq<CacheEntry>, k: Seq<char>, now: u64, ttl: u64) -> Seq<
    CacheEntry,
> {
    if has_key(s, k) {
        let i = key_index(s, k);
        if entry_fresh(s[i], now, ttl) {
            s.remove(i).push(CacheEntry { key: s[i].key, value: s[i].value, stamp: now })
        } else {
            s.remove(i)
        }
    } else {
        s
    }
}

/// An entry with key `k` at position `i` of a distinct-keyed store is the one
/// `key_index` names.
proof fn lemma_key_index_unique(s: Seq<CacheEntry>, k: Seq<char>, i: int)
    requires
        distinct_keys(s),
        0 <= i < s.len(),
        s[i].key@ == k,
    ensures
        has_key(s, k),
        key_index(s, k) == i,
{
    assert(has_key(s, k));
    let j = key_index(s, k);
    assert(0 <= j < s.len() && s[j].key@ == k);
}

/// Removing an entry keeps the remaining keys distinct, and removes the key
/// at that position entirely.
proof fn lemma_distinct_remove(s: Seq<CacheEntry>, i: int)
    requires
        distinct_keys(s),
        0 <= i < s.len(),
    ensures
        distinct_keys(s.remove(i)),
        forall|j: int| 0 <= j < s.remove(i).len() ==> (#[trigger] s.remove(i)[j]).key@ != s[i].key@,
{
    s.remove_ensures(i);
}

/// One step of a left-to-right filter: extending the prefix by one element
/// appends that element to the filtered prefix exactly when it passes.
proof fn lemma_filter_take_step(s: Seq<CacheEntry>, pred: spec_fn(CacheEntry) -> bool, j: int)
    requires
        0 <= j < s.len(),
    ensures
        pred(s[j]) ==> s.take(j + 1).filter(pred) == s.take(j).filter(pred).push(s[j]),
        !pred(s[j]) ==> s.take(j + 1).filter(pred) == s.take(j).filter(pred),
{
    reveal(Seq::filter);
    let t = s.take(j + 1);
    assert(t.drop_last() =~= s.take(j));
    assert(t.last() == s[j]);
}

/// A filter that every element passes keeps the sequence as it is.
proof fn lemma_filter_all(s: Seq<CacheEntry>, pred: spec_fn(CacheEntry) -> bool)
    requires
        forall|i: int| 0 <= i < s.len() ==> pred(#[trigger] s[i]),
    ensures
        s.filter(pred) == s,
    decreases s.len(),
{
    reveal(Seq::filter);
    if s.len() > 0 {
        lemma_filter_all(s.drop_last(), pred);
        assert(s.drop_last().push(s.last()) =~= s);
    }
}

/// In-memory response store with time-based expiry and least-recently-used
/// eviction.
pub struct Cache {
    /// Stored entries, least recently used first.
    pub entries: Vec<CacheEntry>,
    /// Time-to-live of an entry, in milliseconds.
    pub ttl_millis: u64,
    /// Maximum number of entries held.
    pub capacity: usize,
}

impl Cache {
    /// The cache's invariant: a positive capacity that the store never
    /// exceeds, and no key stored twice.
    pub open spec fn wf(&self) -> bool {
        &&& self.capacity >= 1
        &&& self.entries@.len() <= self.capacity
        &&& distinct_keys(self.entries@)
    }

    /// Creates an empty cache with the default time-to-live and capacity.
    pub fn new() -> (r: Cache)
        ensures
            r.wf(),
            r.entries@.len() == 0,
            r.ttl_millis == CACHE_TTL_MILLIS,
            r.capacity == CACHE_CAPACITY,
    {
        Cache { entries: Vec::new(), ttl_millis: CACHE_TTL_MILLIS, capacity: CACHE_CAPACITY }
    }

    /// Creates an empty cache with the given time-to-live (milliseconds) and
    /// capacity.
    pub fn with_settings(ttl_millis: u64, capacity: usize) -> (r: Cache)
        requires
            capacity >= 1,
        ensures
            r.wf(),
            r.entries@.len() == 0,
            r.ttl_millis == ttl_millis,
            r.capacity == capacity,
    {
        Cache { entries: Vec::new(), ttl_millis, capacity }
    }

    /// The position of the entry holding `key`, if any.
    #[verifier::loop_isolation(false)]
    fn find_index(&self, key: &str) -> (r: Option<usize>)
        ensures
            match r {
                Some(i) => i < self.entries@.len() && self.entries@[i as int].key@ == key@,
                None => forall|k: int|
                    0 <= k < self.entries@.len() ==> (#[trigger] self.entries@[k]).key@ != key@,
            },
    {
        let mut i: usize = 0;
        while i < self.entries.len()
            invariant
                i <= self.entries@.len(),
                forall|k: int| 0 <= k < i ==> (#[trigger] self.entries@[k]).key@ != key@,
            decreases self.entries@.len() - i,
        {
            if str_eq(self.entries[i].key.as_str(), key) {
                return Some(i);
            }
            i = i + 1;
        }
        None
    }

    /// Whether the entry at position `i` is fresh at time `now`.
    fn is_fresh_at(&self, i: usize, now: u64) -> (r: bool)
        requires
            i < self.entries@.len(),
        ensures
            r == entry_fresh(self.entries@[i as int], now, self.ttl_millis),
    {
        let stamp = self.entries[i].stamp;
        if now >= stamp {
            now - stamp < self.ttl_millis
        } else {
            true
        }
    }

    /// Retrieves the value stored under `key` if it is present and has not
    /// expired by time `now`. A hit refreshes the entry's age and recency; a
    /// lookup that finds the entry expired removes it; a miss has no other
    /// effect.
    pub fn get(&mut self, key: &str, now: u64) -> (r: Option<serde_json::Value>)
        requires
            old(self).wf(),
        ensures
            final(self).wf(),
            final(self).ttl_millis == old(self).ttl_millis,
            final(self).capacity == old(self).capacity,
            r == spec_get_result(old(self).entries@, key@, now, old(self).ttl_millis),
            final(self).entries@ == spec_get_state(old(self).entries@, key@, now, old(self).ttl_millis),
    {
        let ghost s0 = self.entries@;
        match self.find_index(key) {
            None => {
                assert(!has_key(s0, key@));
                None
            },
            Some(i) => {
                proof {
                    lemma_key_index_unique(s0, key@, i as int);
                }
                if self.is_fresh_at(i, now) {
                    let mut e = self.entries.remove(i);
                    let v = clone_json(&e.value);
                    e.stamp = now;
                    self.entries.push(e);
                    proof {
                        lemma_distinct_remove(s0, i as int);
                    }
                    Some(v)
                } else {
                    let _expired = self.entries.remove(i);
                    proof {
                        lemma_distinct_remove(s0, i as int);
                    }
                    None
                }
            },
        }
    }

    /// Inserts or overwrites the entry for `key` at time `now`, resetting its
    /// age and making it the most recently used. Expired entries are dropped,
    /// and if the store would still exceed its capacity, the least recently
    /// used remaining entry is evicted.
    #[verifier::loop_isolation(false)]
    pub fn put(&mut self, key: String, value: serde_json::Value, now: u64)
        requires
            old(self).wf(),
        ensures
            final(self).wf(),
            final(self).ttl_millis == old(self).ttl_millis,
            final(self).capacity == old(self).capacity,
            final(self).entries@ == spec_put(
                old(self).entries@,
                key,
                value,
                now,
                old(self).ttl_millis,
                old(self).capacity as int,
            ),
    {
        let ghost s0 = self.entries@;
        let ghost pred = put_pred(key@, now, self.ttl_millis);
        let mut i: usize = 0;
        let ghost mut processed: int = 0;
        while i < self.entries.len()
            invariant
                self.capacity == old(self).capacity,
                self.ttl_millis == old(self).ttl_millis,
                0 <= processed <= s0.len(),
                i == s0.take(processed).filter(pred).len(),
                self.entries@ == s0.take(processed).filter(pred) + s0.skip(processed),
                distinct_keys(self.entries@),
                self.entries@.len() <= self.capacity,
            decreases s0.len() - processed,
        {
            assert(self.entries@[i as int] == s0[processed]);
            let keep = self.is_fresh_at(i, now) && !str_eq(
                self.entries[i].key.as_str(),
                key.as_str(),
            );
            assert(keep == pred(s0[processed]));
            proof {
                lemma_filter_take_step(s0, pred, processed);
            }
            if keep {
                i = i + 1;
                proof {
                    assert(s0.take(processed + 1).filter(pred) + s0.skip(processed + 1)
                        =~= s0.take(processed).filter(pred) + s0.skip(processed));
                }
            } else {
                let ghost before = self.entries@;
                let _dropped = self.entries.remove(i);
                proof {
                    lemma_distinct_remove(before, i as int);
                    assert(before.remove(i as int) =~= s0.take(processed + 1).filter(pred)
                        + s0.skip(processed + 1));
                }
            }
            proof {
                processed = processed + 1;
            }
        }
        proof {
            assert(s0.skip(processed).len() == 0);
            assert(processed == s0.len());
            assert(s0.take(processed) =~= s0);
            assert(self.entries@ =~= s0.filter(pred));
        }
        let ghost kept = s0.filter(pred);
        if self.entries.len() >= self.capacity {
            let ghost before = self.entries@;
            let _evicted = self.entries.remove(0);
            proof {
                lemma_distinct_remove(before, 0);
                assert(kept.remove(0) =~= kept.drop_first());
            }
        }
        let ghost room = self.entries@;
        self.entries.push(CacheEntry { key, value, stamp: now });
        proof {
            assert forall|j: int| 0 <= j < room.len() implies (#[trigger] room[j]).key@ != key@ by {
                if kept.len() >= self.capacity {
                    assert(room[j] == kept[j + 1]);
                    assert(pred(kept[j + 1]));
                } else {
                    assert(pred(kept[j]));
                }
            }
        }
    }
}

/// A value just stored under a key is returned by a lookup of that key at any
/// time before the time-to-live has elapsed since the store.
pub proof fn lemma_put_then_get(
    s: Seq<CacheEntry>,
    key: String,
    value: serde_json::Value,
    put_time: u64,
    get_time: u64,
    ttl: u64,
    cap: int,
)
    requires
        distinct_keys(s),
        cap >= 1,
        put_time <= get_time,
        get_time < put_time + ttl,
    ensures
        spec_get_result(spec_put(s, key, value, put_time, ttl, cap), key@, get_time, ttl) == Some(
            value,
        ),
{
    let s2 = spec_put(s, key, value, put_time, ttl, cap);
    let kept = s.filter(put_pred(key@, put_time, ttl));
    let last = s2.len() - 1;
    assert(s2[last] == CacheEntry { key, value, stamp: put_time });
    assert forall|j: int| 0 <= j < last implies (#[trigger] s2[j]).key@ != key@ by {
        if kept.len() >= cap {
            assert(s2[j] == kept[j + 1]);
            assert(put_pred(key@, put_time, ttl)(kept[j + 1]));
        } else {
            assert(s2[j] == kept[j]);
            assert(put_pred(key@, put_time, ttl)(kept[j]));
        }
    }
    lemma_key_index_unique_from_others(s2, key@, last);
    assert(entry_fresh(s2[last], get_time, ttl));
}

/// An entry whose key no other entry shares is the one `key_index` names.
proof fn lemma_key_index_unique_from_others(s: Seq<CacheEntry>, k: Seq<char>, i: int)
    requires
        0 <= i < s.len(),
        s[i].key@ == k,
        forall|j: int| 0 <= j < s.len() && j != i ==> (#[trigger] s[j]).key@ != k,
    ensures
        has_key(s, k),
        key_index(s, k) == i,
{
    assert(has_key(s, k));
}

/// A lookup of a key at or past the time-to-live after its last store finds
/// nothing.
pub proof fn lemma_put_then_expire(
    s: Seq<CacheEntry>,
    key: String,
    value: serde_json::Value,
    put_time: u64,
    get_time: u64,
    ttl: u64,
    cap: int,
)
    requires
        cap >= 1,
        get_time >= put_time + ttl,
    ensures
        spec_get_result(spec_put(s, key, value, put_time, ttl, cap), key@, get_time, ttl) is None,
{
    let s2 = spec_put(s, key, value, put_time, ttl, cap);
    if has_key(s2, key@) {
        let i = key_index(s2, key@);
        let kept = s.filter(put_pred(key@, put_time, ttl));
        if i < s2.len() - 1 {
            if kept.len() >= cap {
                assert(s2[i] == kept[i + 1]);
                assert(put_pred(key@, put_time, ttl)(kept[i + 1]));
            } else {
                assert(s2[i] == kept[i]);
                assert(put_pred(key@, put_time, ttl)(kept[i]));
            }
            assert(false);
        }
        assert(s2[i].stamp == put_time);
        assert(!entry_fresh(s2[i], get_time, ttl));
    }
}

/// A lookup of a key at or past the time-to-live after its last hit finds
/// nothing: a hit refreshes the clock, so expiry counts from the last read.
pub proof fn lemma_get_refresh_then_expire(
    s: Seq<CacheEntry>,
    k: Seq<char>,
    first_time: u64,
    later_time: u64,
    ttl: u64,
)
    requires
        distinct_keys(s),
        later_time >= first_time + ttl,
    ensures
        spec_get_result(spec_get_state(s, k, first_time, ttl), k, later_time, ttl) is None,
{
    let s1 = spec_get_state(s, k, first_time, ttl);
    if has_key(s, k) {
        let i = key_index(s, k);
        assert(0 <= i < s.len() && s[i].key@ == k);
        lemma_distinct_remove(s, i);
        if entry_fresh(s[i], first_time, ttl) {
            let last = s1.len() - 1;
            assert(s1[last].stamp == first_time);
            assert forall|j: int| 0 <= j < s1.len() && j != last implies (#[trigger] s1[j]).key@
                != k by {
                assert(s1[j] == s.remove(i)[j]);
            }
            lemma_key_index_unique_from_others(s1, k, last);
            assert(!entry_fresh(s1[last], later_time, ttl));
        } else {
            if has_key(s1, k) {
                let j = key_index(s1, k);
                assert(s1[j].key@ == k);
                assert(false);
            }
        }
    } else {
        if has_key(s1, k) {
            let j = key_index(s1, k);
            assert(s1[j].key@ == k);
            assert(false);
        }
    }
}

/// A store of a new key into a full cache of fresh entries evicts exactly
/// the least recently used entry: afterwards the new key and every old key
/// but the least recent one are present, and the store is still full.
pub proof fn lemma_capacity_evicts_lru(
    s: Seq<CacheEntry>,
    key: String,
    value: serde_json::Value,
    now: u64,
    ttl: u64,
    cap: int,
)
    requires
        distinct_keys(s),
        s.len() == cap,
        cap >= 1,
        !has_key(s, key@),
        forall|i: int| 0 <= i < s.len() ==> entry_fresh(#[trigger] s[i], now, ttl),
    ensures
        ({
            let s2 = spec_put(s, key, value, now, ttl, cap);
            &&& s2.len() == cap
            &&& has_key(s2, key@)
            &&& !has_key(s2, s[0].key@)
            &&& forall|i: int| 1 <= i < s.len() ==> has_key(s2, (#[trigger] s[i]).key@)
        }),
{
    let pred = put_pred(key@, now, ttl);
    assert forall|i: int| 0 <= i < s.len() implies pred(#[trigger] s[i]) by {
        assert(s[i].key@ != key@);
    }
    lemma_filter_all(s, pred);
    let s2 = spec_put(s, key, value, now, ttl, cap);
    assert(s2 == s.drop_first().push(CacheEntry { key, value, stamp: now }));
    assert(has_key(s2, key@)) by {
        assert(s2[s2.len() - 1].key@ == key@);
    }
    assert(!has_key(s2, s[0].key@)) by {
        if has_key(s2, s[0].key@) {
            let j = key_index(s2, s[0].key@);
            assert(0 <= j < s2.len() && s2[j].key@ == s[0].key@);
            if j < s2.len() - 1 {
                assert(s2[j] == s[j + 1]);
            }
        }
    }
    assert forall|i: int| 1 <= i < s.len() implies has_key(s2, (#[trigger] s[i]).key@) by {
        assert(s2[i - 1] == s[i]);
    }
}

/// The store that results from writing a row of key/value pairs into a given
/// store, in order, all at time `now`.
pub open spec fn spec_fill(
    s: Seq<CacheEntry>,
    items: Seq<(String, serde_json::Value)>,
    now: u64,
    ttl: u64,
    cap: int,
) -> Seq<CacheEntry>
    decreases items.len(),
{
    if items.len() == 0 {
        s
    } else {
        spec_put(
            spec_fill(s, items.drop_last(), now, ttl, cap),
            items.last().0,
            items.last().1,
            now,
            ttl,
            cap,
        )
    }
}

/// The entry a stored pair becomes at time `now`.
pub open spec fn entry_of(it: (String, serde_json::Value), now: u64) -> CacheEntry {
    CacheEntry { key: it.0, value: it.1, stamp: now }
}

/// The keys of a row of pairs, pairwise distinct.
pub open spec fn distinct_item_keys(items: Seq<(String, serde_json::Value)>) -> bool {
    forall|i: int, j: int|
        0 <= i < j < items.len() ==> (#[trigger] items[i]).0@ != (#[trigger] items[j]).0@
}

/// Writing pairwise-distinct new keys into a store with room for all of them
/// appends them in order and evicts nothing.
#[verifier::rlimit(60)]
proof fn lemma_fill_within_capacity(
    s: Seq<CacheEntry>,
    items: Seq<(String, serde_json::Value)>,
    now: u64,
    ttl: u64,
    cap: int,
)
    requires
        cap >= 1,
        ttl >= 1,
        distinct_keys(s),
        forall|i: int| 0 <= i < s.len() ==> entry_fresh(#[trigger] s[i], now, ttl),
        s.len() + items.len() <= cap,
        distinct_item_keys(items),
        forall|i: int, j: int|
            0 <= i < items.len() && 0 <= j < s.len() ==> (#[trigger] items[i]).0@ != (
            #[trigger] s[j]).key@,
    ensures
        spec_fill(s, items, now, ttl, cap) == s + items.map_values(
            |it: (String, serde_json::Value)| entry_of(it, now),
        ),
    decreases items.len(),
{
    let f = |it: (String, serde_json::Value)| entry_of(it, now);
    if items.len() == 0 {
        assert(s + items.map_values(f) =~= s);
    } else {
        let init = items.drop_last();
        lemma_fill_within_capacity(s, init, now, ttl, cap);
        let filled = spec_fill(s, init, now, ttl, cap);
        let pred = put_pred(items.last().0@, now, ttl);
        assert forall|i: int| 0 <= i < filled.len() implies pred(#[trigger] filled[i]) by {
            if i < s.len() {
                assert(filled[i] == s[i]);
            } else {
                assert(filled[i] == f(init[i - s.len()]));
                assert(items[i - s.len()].0@ != items.last().0@);
            }
        }
        lemma_filter_all(filled, pred);
        assert(spec_fill(s, items, now, ttl, cap) == filled.push(f(items.last())));
        assert(s + items.map_values(f) =~= filled.push(f(items.last())));
    }
}

/// Writing one key more than the capacity into an empty store, all keys
/// pairwise distinct and with no reads in between, evicts exactly the
/// first-written key: every later key is present, the first is not, and the
/// store is full.
pub proof fn lemma_fill_capacity_evicts_first(
    items: Seq<(String, serde_json::Value)>,
    now: u64,
    ttl: u64,
    cap: int,
)
    requires
        cap >= 1,
        ttl >= 1,
        items.len() == cap + 1,
        distinct_item_keys(items),
    ensures
        ({
            let s2 = spec_fill(Seq::empty(), items, now, ttl, cap);
            &&& s2.len() == cap
            &&& !has_key(s2, items[0].0@)
            &&& forall|j: int| 1 <= j < items.len() ==> has_key(s2, (#[trigger] items[j]).0@)
        }),
{
    let f = |it: (String, serde_json::Value)| entry_of(it, now);
    let init = items.drop_last();
    let empty = Seq::<CacheEntry>::empty();
    lemma_fill_within_capacity(empty, init, now, ttl, cap);
    let filled = spec_fill(empty, init, now, ttl, cap);
    assert(filled =~= init.map_values(f));
    assert forall|i: int| 0 <= i < filled.len() implies (#[trigger] filled[i]) == f(items[i]) by {
        assert(filled[i] == f(init[i]));
    }
    assert(!has_key(filled, items.last().0@)) by {
        if has_key(filled, items.last().0@) {
            let i = key_index(filled, items.last().0@);
            assert(filled[i].key@ == items[i].0@);
        }
    }
    lemma_capacity_evicts_lru(filled, items.last().0, items.last().1, now, ttl, cap);
    let s2 = spec_fill(empty, items, now, ttl, cap);
    assert(s2 == spec_put(filled, items.last().0, items.last().1, now, ttl, cap));
    assert(!has_key(s2, items[0].0@)) by {
        assert(filled[0].key@ == items[0].0@);
    }
    assert forall|j: int| 1 <= j < items.len() implies has_key(s2, (#[trigger] items[j]).0@) by {
        if j < cap {
            assert(filled[j].key@ == items[j].0@);
            assert(has_key(s2, filled[j].key@));
        } else {
            assert(items[j] == items.last());
        }
    }
}

} // verus!

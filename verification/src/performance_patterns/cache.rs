//! The bounded result cache: a capacity-limited store keyed by strings that
//! evicts the least recently touched entry and counts hits and misses.
//!
//! The cache is modelled as a sequence of keyed entries ordered by recency,
//! the least recently touched entry first. A lookup that hits moves its
//! entry to the end; an insertion at capacity removes the first entry.
//! A cache of capacity zero stores nothing. The counters stop counting once
//! `u64::MAX` lookups have been made, and an entry's access count stops at
//! `u32::MAX`.

use vstd::prelude::*;
use crate::clock::Stopwatch;
use crate::numeric::Ratio;
use crate::performance_patterns::sizing::{effective_capacity, resolve_capacity};

verus! {

/// A cached value with its bookkeeping: the time of its insertion, in
/// nanoseconds on the owning cache's stopwatch, and the number of times it
/// was touched.
#[derive(Clone, Debug)]
pub struct CacheEntry<T> {
    pub value: T,
    pub timestamp: u128,
    pub access_count: u32,
}

/// A stored entry together with its key.
#[derive(Debug)]
struct Slot<T> {
    key: String,
    entry: CacheEntry<T>,
}

/// The mathematical counterpart of a stored entry.
pub struct CachedItem<T> {
    pub key: Seq<char>,
    pub entry: CacheEntry<T>,
}

/// The mathematical state of a cache.
pub struct CacheModel<T> {
    /// The entries, least recently touched first.
    pub items: Seq<CachedItem<T>>,
    /// The number of entries that the cache is limited to.
    pub capacity: nat,
    /// Lookups that found their key.
    pub hits: nat,
    /// Lookups that did not.
    pub misses: nat,
}

/// Some entry of `items` is stored under `key`.
pub open spec fn holds_key<T>(items: Seq<CachedItem<T>>, key: Seq<char>) -> bool {
    exists|i: int| 0 <= i < items.len() && (#[trigger] items[i]).key == key
}

/// The position of the entry stored under `key`.
pub open spec fn slot_of<T>(items: Seq<CachedItem<T>>, key: Seq<char>) -> int {
    choose|i: int| 0 <= i < items.len() && (#[trigger] items[i]).key == key
}

/// No two entries share a key.
pub open spec fn distinct_keys<T>(items: Seq<CachedItem<T>>) -> bool {
    forall|i: int, j: int|
        0 <= i < j < items.len() ==> (#[trigger] items[i]).key != (#[trigger] items[j]).key
}

/// `items` without the entry stored under `key`, if there is one.
pub open spec fn without_key<T>(items: Seq<CachedItem<T>>, key: Seq<char>) -> Seq<CachedItem<T>> {
    if holds_key(items, key) {
        items.remove(slot_of(items, key))
    } else {
        items
    }
}

/// `item` after one more access.
pub open spec fn touched<T>(item: CachedItem<T>) -> CachedItem<T> {
    CachedItem {
        key: item.key,
        entry: CacheEntry {
            value: item.entry.value,
            timestamp: item.entry.timestamp,
            access_count: if item.entry.access_count < u32::MAX {
                (item.entry.access_count + 1) as u32
            } else {
                item.entry.access_count
            },
        },
    }
}

/// At time `now`, `item` is older than `ttl`.
pub open spec fn is_expired<T>(item: CachedItem<T>, ttl: nat, now: nat) -> bool {
    now > item.entry.timestamp + ttl
}

impl<T> CacheModel<T> {
    /// The state that every operation preserves: keys are distinct, the
    /// entries fit the capacity, and the counters fit their machine types.
    pub open spec fn wf(self) -> bool {
        &&& distinct_keys(self.items)
        &&& self.items.len() <= self.capacity
        &&& self.capacity <= usize::MAX
        &&& self.hits + self.misses <= u64::MAX
    }

    /// The number of entries.
    pub open spec fn len(self) -> nat {
        self.items.len()
    }

    /// An entry is stored under `key`.
    pub open spec fn contains_key(self, key: Seq<char>) -> bool {
        holds_key(self.items, key)
    }

    /// The entry stored under `key`.
    pub open spec fn entry(self, key: Seq<char>) -> CacheEntry<T>
        recommends
            self.contains_key(key),
    {
        self.items[slot_of(self.items, key)].entry
    }

    /// The keys in order of recency, least recently touched first.
    pub open spec fn keys(self) -> Seq<Seq<char>> {
        Seq::new(self.items.len(), |i: int| self.items[i].key)
    }

    /// The next lookup is still counted.
    pub open spec fn counts_lookups(self) -> bool {
        self.hits + self.misses < u64::MAX
    }

    /// The state after a lookup of `key`.
    pub open spec fn after_get(self, key: Seq<char>) -> CacheModel<T> {
        let step: nat = if self.counts_lookups() {
            1
        } else {
            0
        };
        if self.contains_key(key) {
            let i = slot_of(self.items, key);
            CacheModel {
                items: self.items.remove(i).push(touched(self.items[i])),
                hits: self.hits + step,
                ..self
            }
        } else {
            CacheModel { misses: self.misses + step, ..self }
        }
    }

    /// An insertion has to evict: the cache can hold entries and is full.
    pub open spec fn evicts_on_insert(self) -> bool {
        self.capacity > 0 && self.items.len() >= self.capacity
    }

    /// The state after inserting `value` under `key` at time `now`: the
    /// least recently touched entry leaves if the cache is full, an older
    /// entry under the same key is replaced, and the new entry becomes the
    /// most recently touched one. A cache of capacity zero stays empty.
    pub open spec fn after_insert(self, key: Seq<char>, value: T, now: u128) -> CacheModel<T> {
        if self.capacity == 0 {
            self
        } else {
            let room = if self.evicts_on_insert() {
                self.items.drop_first()
            } else {
                self.items
            };
            CacheModel {
                items: without_key(room, key).push(
                    CachedItem { key, entry: CacheEntry { value, timestamp: now, access_count: 1 } },
                ),
                ..self
            }
        }
    }

    /// The state after dropping every entry that is older than `ttl` at
    /// time `now`.
    pub open spec fn after_clear_expired(self, ttl: nat, now: nat) -> CacheModel<T> {
        CacheModel {
            items: self.items.filter(|item: CachedItem<T>| !is_expired(item, ttl, now)),
            ..self
        }
    }

    /// The share of lookups that hit, and zero before the first lookup.
    pub open spec fn hit_rate(self) -> Ratio {
        Ratio {
            numerator: self.hits as u64,
            denominator: if self.hits + self.misses == 0 {
                1
            } else {
                (self.hits + self.misses) as u64
            },
        }
    }
}

/// With distinct keys, the entry at position `i` is the one that `slot_of`
/// finds for its key.
pub proof fn lemma_slot_unique<T>(items: Seq<CachedItem<T>>, key: Seq<char>, i: int)
    requires
        distinct_keys(items),
        0 <= i < items.len(),
        items[i].key == key,
    ensures
        holds_key(items, key),
        slot_of(items, key) == i,
{
    let j = slot_of(items, key);
    assert(0 <= j < items.len() && items[j].key == key);
    if i < j {
        assert(items[i].key != items[j].key);
    } else if j < i {
        assert(items[j].key != items[i].key);
    }
}

/// Removing an entry keeps the keys distinct, and removes its key.
pub proof fn lemma_remove_keeps_distinct<T>(items: Seq<CachedItem<T>>, i: int)
    requires
        distinct_keys(items),
        0 <= i < items.len(),
    ensures
        distinct_keys(items.remove(i)),
        !holds_key(items.remove(i), items[i].key),
        forall|k: Seq<char>|
            k != items[i].key ==> (holds_key(items.remove(i), k) <==> holds_key(items, k)),
{
    let rest = items.remove(i);
    assert forall|a: int, b: int| 0 <= a < b < rest.len() implies (#[trigger] rest[a]).key != (
    #[trigger] rest[b]).key by {
        let a0 = if a < i {
            a
        } else {
            a + 1
        };
        let b0 = if b < i {
            b
        } else {
            b + 1
        };
        assert(rest[a] == items[a0] && rest[b] == items[b0]);
    }
    if holds_key(rest, items[i].key) {
        let a = slot_of(rest, items[i].key);
        let a0 = if a < i {
            a
        } else {
            a + 1
        };
        assert(rest[a] == items[a0]);
        if a0 < i {
            assert(items[a0].key != items[i].key);
        } else {
            assert(items[i].key != items[a0].key);
        }
    }
    assert forall|k: Seq<char>| k != items[i].key implies (holds_key(rest, k) <==> holds_key(
        items,
        k,
    )) by {
        if holds_key(rest, k) {
            let a = slot_of(rest, k);
            let a0 = if a < i {
                a
            } else {
                a + 1
            };
            assert(rest[a] == items[a0]);
            assert(items[a0].key == k);
        }
        if holds_key(items, k) {
            let a0 = slot_of(items, k);
            assert(a0 != i);
            let a = if a0 < i {
                a0
            } else {
                a0 - 1
            };
            assert(rest[a] == items[a0]);
            assert(rest[a].key == k);
        }
    }
}

/// Appending an entry under a key that is not stored keeps the keys
/// distinct.
pub proof fn lemma_push_keeps_distinct<T>(items: Seq<CachedItem<T>>, item: CachedItem<T>)
    requires
        distinct_keys(items),
        !holds_key(items, item.key),
    ensures
        distinct_keys(items.push(item)),
{
    let all = items.push(item);
    assert forall|a: int, b: int| 0 <= a < b < all.len() implies (#[trigger] all[a]).key != (
    #[trigger] all[b]).key by {
        if b == items.len() {
            assert(all[a] == items[a]);
            if items[a].key == item.key {
                assert(holds_key(items, item.key));
            }
        } else {
            assert(all[a] == items[a] && all[b] == items[b]);
        }
    }
}

/// `without_key` keeps the keys distinct and leaves no entry under `key`.
pub proof fn lemma_without_key<T>(items: Seq<CachedItem<T>>, key: Seq<char>)
    requires
        distinct_keys(items),
    ensures
        distinct_keys(without_key(items, key)),
        !holds_key(without_key(items, key), key),
        without_key(items, key).len() <= items.len(),
        forall|k: Seq<char>|
            k != key ==> (holds_key(without_key(items, key), k) <==> holds_key(items, k)),
{
    if holds_key(items, key) {
        let i = slot_of(items, key);
        lemma_remove_keeps_distinct(items, i);
    }
}

/// A lookup preserves well-formedness.
pub proof fn lemma_get_preserves_wf<T>(m: CacheModel<T>, key: Seq<char>)
    requires
        m.wf(),
    ensures
        m.after_get(key).wf(),
        m.after_get(key).len() == m.len(),
{
    if m.contains_key(key) {
        let i = slot_of(m.items, key);
        lemma_remove_keeps_distinct(m.items, i);
        lemma_push_keeps_distinct(m.items.remove(i), touched(m.items[i]));
    }
}

/// An insertion preserves well-formedness.
pub proof fn lemma_insert_preserves_wf<T>(m: CacheModel<T>, key: Seq<char>, value: T, now: u128)
    requires
        m.wf(),
    ensures
        m.after_insert(key, value, now).wf(),
{
    let room = if m.evicts_on_insert() {
        m.items.drop_first()
    } else {
        m.items
    };
    if m.evicts_on_insert() {
        assert(m.items.drop_first() =~= m.items.remove(0));
        lemma_remove_keeps_distinct(m.items, 0);
    }
    lemma_without_key(room, key);
    lemma_push_keeps_distinct(
        without_key(room, key),
        CachedItem { key, entry: CacheEntry { value, timestamp: now, access_count: 1 } },
    );
}

/// Filtering keeps the keys distinct, and every entry that stays was there
/// before.
pub proof fn lemma_filter_keeps_distinct<T>(
    items: Seq<CachedItem<T>>,
    keep: spec_fn(CachedItem<T>) -> bool,
)
    requires
        distinct_keys(items),
    ensures
        distinct_keys(items.filter(keep)),
        items.filter(keep).len() <= items.len(),
        forall|k: Seq<char>| holds_key(items.filter(keep), k) ==> holds_key(items, k),
    decreases items.len(),
{
    reveal(Seq::filter);
    if items.len() > 0 {
        let init = items.drop_last();
        let last = items.last();
        assert forall|a: int, b: int| 0 <= a < b < init.len() implies (#[trigger] init[a]).key != (
        #[trigger] init[b]).key by {
            assert(init[a] == items[a] && init[b] == items[b]);
        }
        lemma_filter_keeps_distinct(init, keep);
        let kept = init.filter(keep);
        assert forall|k: Seq<char>| holds_key(init, k) implies holds_key(items, k) && k
            != last.key by {
            let a = slot_of(init, k);
            assert(init[a] == items[a]);
            assert(items[a].key != items[items.len() - 1].key);
        }
        if keep(last) {
            if holds_key(kept, last.key) {
                assert(holds_key(init, last.key));
            }
            lemma_push_keeps_distinct(kept, last);
            let all = kept.push(last);
            assert forall|k: Seq<char>| holds_key(all, k) implies holds_key(items, k) by {
                let a = slot_of(all, k);
                if a == kept.len() {
                    assert(items[items.len() - 1].key == k);
                } else {
                    assert(all[a] == kept[a]);
                    assert(holds_key(kept, k));
                }
            }
        }
    }
}

/// Dropping expired entries preserves well-formedness.
pub proof fn lemma_clear_preserves_wf<T>(m: CacheModel<T>, ttl: nat, now: nat)
    requires
        m.wf(),
    ensures
        m.after_clear_expired(ttl, now).wf(),
{
    lemma_filter_keeps_distinct(m.items, |item: CachedItem<T>| !is_expired(item, ttl, now));
}

/// After any insertion the number of entries is within the capacity.
pub proof fn lemma_insert_respects_capacity<T>(
    m: CacheModel<T>,
    key: Seq<char>,
    value: T,
    now: u128,
)
    requires
        m.wf(),
    ensures
        m.after_insert(key, value, now).len() <= m.capacity,
{
    lemma_insert_preserves_wf(m, key, value, now);
}

/// An insertion into a full cache evicts the least recently touched key
/// and no other: the first key is gone afterwards (unless it is the key
/// being inserted), and every other key that was stored still is.
pub proof fn lemma_insert_evicts_least_recent<T>(
    m: CacheModel<T>,
    key: Seq<char>,
    value: T,
    now: u128,
)
    requires
        m.wf(),
        m.evicts_on_insert(),
    ensures
        m.items[0].key != key ==> !m.after_insert(key, value, now).contains_key(m.items[0].key),
        forall|k: Seq<char>|
            k != m.items[0].key ==> (m.after_insert(key, value, now).contains_key(k) <==> (
            m.contains_key(k) || k == key)),
{
    let after = m.after_insert(key, value, now);
    let room = m.items.drop_first();
    let rest = without_key(room, key);
    let fresh = CachedItem { key, entry: CacheEntry { value, timestamp: now, access_count: 1 } };
    assert(room =~= m.items.remove(0));
    lemma_remove_keeps_distinct(m.items, 0);
    lemma_without_key(room, key);
    assert forall|k: Seq<char>| after.contains_key(k) <==> (holds_key(rest, k) || k == key) by {
        if holds_key(after.items, k) {
            let a = slot_of(after.items, k);
            if a < rest.len() {
                assert(after.items[a] == rest[a]);
            }
        }
        if holds_key(rest, k) {
            let a = slot_of(rest, k);
            assert(after.items[a] == rest[a]);
        }
        if k == key {
            assert(after.items[rest.len() as int] == fresh);
        }
    }
}

/// An insertion into a cache with room evicts nothing: every key that was
/// stored still is, and so is the inserted one.
pub proof fn lemma_insert_with_room_keeps_keys<T>(
    m: CacheModel<T>,
    key: Seq<char>,
    value: T,
    now: u128,
)
    requires
        m.wf(),
        m.items.len() < m.capacity,
    ensures
        forall|k: Seq<char>|
            m.after_insert(key, value, now).contains_key(k) <==> (m.contains_key(k) || k == key),
{
    let after = m.after_insert(key, value, now);
    let rest = without_key(m.items, key);
    let fresh = CachedItem { key, entry: CacheEntry { value, timestamp: now, access_count: 1 } };
    lemma_without_key(m.items, key);
    assert forall|k: Seq<char>| after.contains_key(k) <==> (holds_key(rest, k) || k == key) by {
        if holds_key(after.items, k) {
            let a = slot_of(after.items, k);
            if a < rest.len() {
                assert(after.items[a] == rest[a]);
            }
        }
        if holds_key(rest, k) {
            let a = slot_of(rest, k);
            assert(after.items[a] == rest[a]);
        }
        if k == key {
            assert(after.items[rest.len() as int] == fresh);
        }
    }
}

/// What was inserted is what a lookup finds, in a cache that can hold
/// entries: after an insertion the key is stored, as the most recently
/// touched entry, with the inserted value, the insertion time and an access
/// count of one.
pub proof fn lemma_insert_then_lookup<T>(m: CacheModel<T>, key: Seq<char>, value: T, now: u128)
    requires
        m.wf(),
        m.capacity > 0,
    ensures
        m.after_insert(key, value, now).contains_key(key),
        m.after_insert(key, value, now).entry(key) == (CacheEntry {
            value,
            timestamp: now,
            access_count: 1,
        }),
        m.after_insert(key, value, now).items.last().key == key,
{
    let after = m.after_insert(key, value, now);
    lemma_insert_preserves_wf(m, key, value, now);
    lemma_slot_unique(after.items, key, after.items.len() - 1);
}

/// A lookup that hits makes its key the most recently touched one and
/// keeps every key stored.
pub proof fn lemma_hit_moves_key_to_tail<T>(m: CacheModel<T>, key: Seq<char>)
    requires
        m.wf(),
        m.contains_key(key),
    ensures
        m.after_get(key).items.last().key == key,
        m.after_get(key).len() == m.len(),
        forall|k: Seq<char>| m.after_get(key).contains_key(k) <==> m.contains_key(k),
{
    let after = m.after_get(key);
    let i = slot_of(m.items, key);
    let rest = m.items.remove(i);
    lemma_remove_keeps_distinct(m.items, i);
    assert forall|k: Seq<char>| after.contains_key(k) <==> m.contains_key(k) by {
        if holds_key(after.items, k) {
            let a = slot_of(after.items, k);
            if a < rest.len() {
                assert(after.items[a] == rest[a]);
                assert(holds_key(rest, k));
            }
        }
        if holds_key(m.items, k) {
            if k == key {
                assert(after.items[rest.len() as int].key == key);
            } else {
                let a = slot_of(rest, k);
                assert(after.items[a] == rest[a]);
            }
        }
    }
}

/// The hit rate is zero as long as no lookup was made.
pub proof fn lemma_hit_rate_starts_at_zero<T>(m: CacheModel<T>)
    requires
        m.hits == 0,
        m.misses == 0,
    ensures
        m.hit_rate().is_zero(),
        m.hit_rate().wf(),
{
}

/// A lookup that hits raises the hit rate, provided that the rate is not
/// already one (some earlier lookup missed, or none was made) and that
/// lookups are still counted.
pub proof fn lemma_hit_raises_rate<T>(m: CacheModel<T>, key: Seq<char>)
    requires
        m.wf(),
        m.contains_key(key),
        m.counts_lookups(),
        m.misses > 0 || m.hits == 0,
    ensures
        m.hit_rate().below(m.after_get(key).hit_rate()),
{
    let h = m.hits as int;
    let t = (m.hits + m.misses) as int;
    let before = m.hit_rate();
    let after = m.after_get(key).hit_rate();
    assert(after.numerator == h + 1 && after.denominator == t + 1);
    assert(before.numerator == h);
    if t > 0 {
        assert(before.denominator == t);
        assert(h * (t + 1) < (h + 1) * t) by (nonlinear_arith)
            requires
                0 <= h < t,
        ;
    } else {
        assert(before.denominator == 1);
        assert(0 * 1 < 1 * 1) by (nonlinear_arith);
    }
}

/// After a counted lookup that hits, the hit rate is one more hit over one
/// more lookup; it is not lower than before and, like every hit rate, not
/// above one.
pub proof fn lemma_hit_never_lowers_rate<T>(m: CacheModel<T>, key: Seq<char>)
    requires
        m.wf(),
        m.contains_key(key),
        m.counts_lookups(),
    ensures
        m.after_get(key).hit_rate() == (Ratio {
            numerator: (m.hits + 1) as u64,
            denominator: (m.hits + m.misses + 1) as u64,
        }),
        !m.after_get(key).hit_rate().below(m.hit_rate()),
        m.after_get(key).hit_rate().numerator <= m.after_get(key).hit_rate().denominator,
        m.hit_rate().numerator <= m.hit_rate().denominator,
{
    let h = m.hits as int;
    let t = (m.hits + m.misses) as int;
    if t > 0 {
        assert((h + 1) * t >= h * (t + 1)) by (nonlinear_arith)
            requires
                0 <= h <= t,
        ;
    }
}

/// A lookup that misses never raises the hit rate.
pub proof fn lemma_miss_never_raises_rate<T>(m: CacheModel<T>, key: Seq<char>)
    requires
        m.wf(),
        !m.contains_key(key),
    ensures
        !m.hit_rate().below(m.after_get(key).hit_rate()),
{
    let h = m.hits as int;
    let t = (m.hits + m.misses) as int;
    assert(h * (t + 1) >= h * t) by (nonlinear_arith)
        requires
            0 <= h,
            0 <= t,
    ;
}

/// The bounded result cache.
#[derive(Debug)]
pub struct IntelligentCache<T> {
    slots: Vec<Slot<T>>,
    max_size: usize,
    hit_count: u64,
    miss_count: u64,
    clock: Stopwatch,
}

/// The mathematical counterpart of a sequence of stored entries.
spec fn items_of<T>(slots: Seq<Slot<T>>) -> Seq<CachedItem<T>> {
    Seq::new(slots.len(), |i: int| CachedItem { key: slots[i].key@, entry: slots[i].entry })
}

impl<T> View for IntelligentCache<T> {
    type V = CacheModel<T>;

    closed spec fn view(&self) -> CacheModel<T> {
        CacheModel {
            items: items_of(self.slots@),
            capacity: self.max_size as nat,
            hits: self.hit_count as nat,
            misses: self.miss_count as nat,
        }
    }
}

impl<T> IntelligentCache<T> {
    /// The cache is in a state that its operations preserve.
    pub open spec fn wf(&self) -> bool {
        self@.wf()
    }

    /// Resolves a requested size to the capacity that a cache works with.
    pub fn quantum_optimize_size(base_size: usize) -> (r: usize)
        ensures
            r as nat == effective_capacity(base_size as nat),
    {
        resolve_capacity(base_size)
    }

    /// An empty cache whose capacity is resolved from `max_size`.
    pub fn new(max_size: usize) -> (r: Self)
        ensures
            r.wf(),
            r@.items == Seq::<CachedItem<T>>::empty(),
            r@.capacity == effective_capacity(max_size as nat),
            r@.hits == 0,
            r@.misses == 0,
    {
        let r = IntelligentCache {
            slots: Vec::new(),
            max_size: Self::quantum_optimize_size(max_size),
            hit_count: 0,
            miss_count: 0,
            clock: Stopwatch::start(),
        };
        assert(r@.items =~= Seq::<CachedItem<T>>::empty());
        r
    }

    /// The number of entries.
    pub fn len(&self) -> (n: usize)
        ensures
            n == self@.len(),
    {
        self.slots.len()
    }

    /// The capacity that the cache works with.
    pub fn capacity(&self) -> (n: usize)
        ensures
            n == self@.capacity,
    {
        self.max_size
    }

    /// The position of the entry stored under `key`.
    fn find(&self, key: &String) -> (r: Option<usize>)
        requires
            self.wf(),
        ensures
            match r {
                Some(i) => i < self.slots.len() && self.slots[i as int].key@ == key@
                    && self@.contains_key(key@) && slot_of(self@.items, key@) == i,
                None => !self@.contains_key(key@),
            },
    {
        let mut i: usize = 0;
        while i < self.slots.len()
            invariant
                i <= self.slots.len(),
                self.wf(),
                forall|j: int| 0 <= j < i ==> (#[trigger] self@.items[j]).key != key@,
            decreases self.slots.len() - i,
        {
            if self.slots[i].key == *key {
                proof {
                    lemma_slot_unique(self@.items, key@, i as int);
                }
                return Some(i);
            }
            i = i + 1;
        }
        None
    }

    /// Whether an entry is stored under `key`. The lookup is not counted
    /// and touches nothing.
    pub fn contains_key(&self, key: &str) -> (r: bool)
        requires
            self.wf(),
        ensures
            r == self@.contains_key(key@),
    {
        let wanted = key.to_owned();
        self.find(&wanted).is_some()
    }

    /// The share of lookups that hit so far, and zero before the first
    /// lookup.
    pub fn hit_rate(&self) -> (r: Ratio)
        requires
            self.wf(),
        ensures
            r == self@.hit_rate(),
            r.wf(),
    {
        let total = self.hit_count + self.miss_count;
        Ratio {
            numerator: self.hit_count,
            denominator: if total == 0 {
                1
            } else {
                total
            },
        }
    }

    /// Stores `value` under `key` with the insertion time `now`. At
    /// capacity the least recently touched entry is evicted first; a cache
    /// of capacity zero stores nothing.
    pub fn insert_at(&mut self, key: String, value: T, now: u128)
        requires
            old(self).wf(),
        ensures
            final(self).wf(),
            final(self)@ == old(self)@.after_insert(key@, value, now),
    {
        let ghost before = self@;
        if self.max_size == 0 {
            return ;
        }
        if self.slots.len() >= self.max_size {
            self.slots.remove(0);
            proof {
                assert(self@.items =~= before.items.drop_first());
                assert(before.items.drop_first() =~= before.items.remove(0));
                lemma_remove_keeps_distinct(before.items, 0);
            }
        }
        let ghost room = self@.items;
        match self.find(&key) {
            Some(i) => {
                self.slots.remove(i);
                proof {
                    assert(self@.items =~= room.remove(i as int));
                }
            },
            None => {},
        }
        assert(self@.items == without_key(room, key@));
        let ghost rest = self@.items;
        self.slots.push(Slot { key, entry: CacheEntry { value, timestamp: now, access_count: 1 } });
        proof {
            assert(self@.items =~= rest.push(
                CachedItem { key: key@, entry: CacheEntry { value, timestamp: now, access_count: 1 } },
            ));
            lemma_insert_preserves_wf(before, key@, value, now);
        }
    }

    /// Stores `value` under `key`, stamped with the current reading of the
    /// cache's stopwatch.
    pub fn insert(&mut self, key: String, value: T)
        requires
            old(self).wf(),
        ensures
            final(self).wf(),
            exists|now: u128| final(self)@ == old(self)@.after_insert(key@, value, now),
    {
        let now = self.clock.elapsed_nanos();
        self.insert_at(key, value, now);
    }

    /// Drops every entry that is older than `ttl` nanoseconds at time
    /// `now`, keeping the others in their order.
    pub fn clear_expired_at(&mut self, ttl: u128, now: u128)
        requires
            old(self).wf(),
        ensures
            final(self).wf(),
            final(self)@ == old(self)@.after_clear_expired(ttl as nat, now as nat),
    {
        let ghost before = self@;
        let ghost keep = |item: CachedItem<T>| !is_expired(item, ttl as nat, now as nat);
        let mut source: Vec<Slot<T>> = Vec::new();
        std::mem::swap(&mut self.slots, &mut source);
        let ghost src = source@;
        let mut kept: Vec<Slot<T>> = Vec::new();
        proof {
            reveal(Seq::filter);
            assert(items_of(src).take(0) =~= Seq::<CachedItem<T>>::empty());
            assert(items_of(kept@) =~= items_of(src).take(0).filter(keep));
        }
        for slot in it: source
            invariant
                it.seq() == src,
                items_of(src) == before.items,
                keep == (|item: CachedItem<T>| !is_expired(item, ttl as nat, now as nat)),
                items_of(kept@) == items_of(src).take(it.index() as int).filter(keep),
        {
            let ghost i = it.index() as int;
            let expired = if now > slot.entry.timestamp {
                now - slot.entry.timestamp > ttl
            } else {
                false
            };
            proof {
                reveal(Seq::filter);
                let upto = items_of(src).take(i + 1);
                assert(upto.drop_last() =~= items_of(src).take(i));
                assert(upto.last() == items_of(src)[i]);
                assert(expired == is_expired(items_of(src)[i], ttl as nat, now as nat));
            }
            if !expired {
                let ghost old_kept = kept@;
                kept.push(slot);
                proof {
                    assert(items_of(kept@) =~= items_of(old_kept).push(items_of(src)[i]));
                }
            }
        }
        self.slots = kept;
        proof {
            assert(items_of(src).take(src.len() as int) =~= items_of(src));
            lemma_clear_preserves_wf(before, ttl as nat, now as nat);
        }
    }

    /// Drops every entry that is older than `ttl` nanoseconds by the
    /// current reading of the cache's stopwatch.
    pub fn clear_expired(&mut self, ttl: u128)
        requires
            old(self).wf(),
        ensures
            final(self).wf(),
            exists|now: u128|
                final(self)@ == old(self)@.after_clear_expired(ttl as nat, now as nat),
    {
        let now = self.clock.elapsed_nanos();
        self.clear_expired_at(ttl, now);
    }
}

impl<T: Clone> IntelligentCache<T> {
    /// Looks `key` up. A hit returns a clone of the stored value, counts
    /// one access on the entry and makes it the most recently touched one;
    /// a miss returns nothing and leaves the entries alone. Either way the
    /// lookup is counted.
    pub fn get(&mut self, key: &str) -> (r: Option<T>)
        requires
            old(self).wf(),
        ensures
            final(self).wf(),
            final(self)@ == old(self)@.after_get(key@),
            match r {
                Some(v) => old(self)@.contains_key(key@) && cloned(old(self)@.entry(key@).value, v),
                None => !old(self)@.contains_key(key@),
            },
    {
        let ghost before = self@;
        let wanted = key.to_owned();
        let counted = self.hit_count < u64::MAX - self.miss_count;
        proof {
            lemma_get_preserves_wf(before, key@);
        }
        match self.find(&wanted) {
            Some(i) => {
                let mut slot = self.slots.remove(i);
                if slot.entry.access_count < u32::MAX {
                    slot.entry.access_count = slot.entry.access_count + 1;
                }
                if counted {
                    self.hit_count = self.hit_count + 1;
                }
                let value = slot.entry.value.clone();
                self.slots.push(slot);
                proof {
                    assert(self@.items =~= before.items.remove(i as int).push(
                        touched(before.items[i as int]),
                    ));
                }
                Some(value)
            },
            None => {
                if counted {
                    self.miss_count = self.miss_count + 1;
                }
                None
            },
        }
    }
}

} // verus!

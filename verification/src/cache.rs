//! The cache of results of deterministic tools, kept in an `lru::LruCache`
//! keyed by the tool's name and its parameters as JSON text.

use vstd::prelude::*;
use crate::text::{copy_string, owned};
use crate::tools::ToolResult;
use crate::wire::{json_text, json_text_of};

verus! {

#[verifier::external_type_specification]
#[verifier::external_body]
#[verifier::reject_recursive_types(K)]
#[verifier::reject_recursive_types(V)]
#[verifier::reject_recursive_types(S)]
pub struct ExLruCache<K, V, S>(lru::LruCache<K, V, S>);

#[verifier::external_type_specification]
#[verifier::external_body]
pub struct ExLruHasher(lru::DefaultHasher);

/// A cache key: the tool's name and its parameters as JSON text.
pub type CacheKey = (String, String);

/// A cache entry as mathematical values: the key, and the result's content
/// and error flag.
pub type EntryView = ((Seq<char>, Seq<char>), (Seq<char>, bool));

/// The entries of an LRU cache, the most recently used first.
pub uninterp spec fn lru_entries(c: lru::LruCache<CacheKey, ToolResult>) -> Seq<EntryView>;

/// The capacity an LRU cache was made with.
pub uninterp spec fn lru_capacity(c: lru::LruCache<CacheKey, ToolResult>) -> nat;

/// The view of a key.
pub open spec fn key_view(k: CacheKey) -> (Seq<char>, Seq<char>) {
    (k.0@, k.1@)
}

/// The view of a result.
pub open spec fn result_view(r: ToolResult) -> (Seq<char>, bool) {
    (r.content@, r.is_error)
}

/// The index of the entry with key `k`.
pub open spec fn key_index(es: Seq<EntryView>, k: (Seq<char>, Seq<char>), i: int) -> Option<int>
    decreases es.len() - i,
{
    if i < 0 || i >= es.len() {
        None
    } else if es[i].0 == k {
        Some(i)
    } else {
        key_index(es, k, i + 1)
    }
}

/// The entries after storing `v` under `k`: a present key gets the new
/// value and moves to the front; a new key goes to the front, the least
/// recently used entry leaving when the cache is full.
pub open spec fn entries_after_put(es: Seq<EntryView>, k: (Seq<char>, Seq<char>), v: (Seq<char>, bool), cap: nat) -> Seq<EntryView> {
    match key_index(es, k, 0) {
        Some(i) => seq![(k, v)] + es.remove(i),
        None => if es.len() >= cap && es.len() > 0 {
            seq![(k, v)] + es.drop_last()
        } else {
            seq![(k, v)] + es
        },
    }
}

/// `LruCache::new(NonZeroUsize::new(cap).unwrap())`: an empty cache of
/// capacity `cap`, which must not be zero.
#[verifier::external_body]
fn lru_new(cap: usize) -> (r: lru::LruCache<CacheKey, ToolResult>)
    requires
        cap >= 1,
    ensures
        lru_entries(r).len() == 0,
        lru_capacity(r) == cap,
{
    lru::LruCache::new(std::num::NonZeroUsize::new(cap).unwrap())
}

/// `LruCache::get` and a copy of the value: a present key's value, the
/// entry moving to the front; nothing changes for an absent key.
#[verifier::external_body]
fn lru_get(c: &mut lru::LruCache<CacheKey, ToolResult>, k: &CacheKey) -> (r: Option<ToolResult>)
    ensures
        lru_capacity(*final(c)) == lru_capacity(*old(c)),
        match key_index(lru_entries(*old(c)), key_view(*k), 0) {
            Some(i) => r is Some && result_view(r->0) == lru_entries(*old(c))[i].1 && lru_entries(
                *final(c),
            ) == seq![lru_entries(*old(c))[i]] + lru_entries(*old(c)).remove(i),
            None => r is None && lru_entries(*final(c)) == lru_entries(*old(c)),
        },
{
    c.get(k).cloned()
}

/// `LruCache::put`: see `entries_after_put`.
#[verifier::external_body]
fn lru_put(c: &mut lru::LruCache<CacheKey, ToolResult>, k: CacheKey, v: ToolResult)
    ensures
        lru_capacity(*final(c)) == lru_capacity(*old(c)),
        lru_entries(*final(c)) == entries_after_put(
            lru_entries(*old(c)),
            key_view(k),
            result_view(v),
            lru_capacity(*old(c)),
        ),
{
    c.put(k, v);
}

/// `LruCache::pop`: the entry with key `k` leaves.
#[verifier::external_body]
fn lru_pop(c: &mut lru::LruCache<CacheKey, ToolResult>, k: &CacheKey)
    ensures
        lru_capacity(*final(c)) == lru_capacity(*old(c)),
        match key_index(lru_entries(*old(c)), key_view(*k), 0) {
            Some(i) => lru_entries(*final(c)) == lru_entries(*old(c)).remove(i),
            None => lru_entries(*final(c)) == lru_entries(*old(c)),
        },
{
    c.pop(k);
}

/// `LruCache::clear`: no entry is left.
#[verifier::external_body]
fn lru_clear(c: &mut lru::LruCache<CacheKey, ToolResult>)
    ensures
        lru_capacity(*final(c)) == lru_capacity(*old(c)),
        lru_entries(*final(c)).len() == 0,
{
    c.clear();
}

/// `LruCache::len`: the number of entries.
#[verifier::external_body]
fn lru_len(c: &lru::LruCache<CacheKey, ToolResult>) -> (r: usize)
    ensures
        r == lru_entries(*c).len(),
{
    c.len()
}

/// `LruCache::cap`: the capacity.
#[verifier::external_body]
fn lru_cap(c: &lru::LruCache<CacheKey, ToolResult>) -> (r: usize)
    ensures
        r == lru_capacity(*c),
{
    c.cap().get()
}

/// The keys, the most recently used first (`LruCache::iter`); a key
/// occurs once in a cache.
#[verifier::external_body]
fn lru_keys(c: &lru::LruCache<CacheKey, ToolResult>) -> (r: Vec<CacheKey>)
    ensures
        r@.map_values(|k: CacheKey| key_view(k)) == lru_entries(*c).map_values(|e: EntryView| e.0),
        forall|a: int, b: int| 0 <= a < b < r@.len() ==> key_view(r@[a]) != key_view(r@[b]),
{
    c.iter().map(|(k, _)| k.clone()).collect()
}

/// What the cache reports of itself.
pub struct CacheCounts {
    pub size: usize,
    pub capacity: usize,
    pub hits: u64,
    pub misses: u64,
}

/// The cache of tool results, which can be switched off.
pub struct ToolCache {
    pub cache: lru::LruCache<CacheKey, ToolResult>,
    pub enabled: bool,
    pub hits: u64,
    pub misses: u64,
}

/// The key of a call of `tool_name` with parameters `params`: the tool's
/// name and the JSON text of the parameters.
pub fn make_key(tool_name: &str, params: &serde_json::Value) -> (r: CacheKey)
    ensures
        key_view(r) == (tool_name@, json_text_of(*params)),
{
    (owned(tool_name), json_text(params))
}

impl ToolCache {
    /// The entries, the most recently used first.
    pub open spec fn entries(&self) -> Seq<EntryView> {
        lru_entries(self.cache)
    }

    /// An enabled, empty cache holding up to `capacity` results.
    pub fn new(capacity: usize) -> (r: ToolCache)
        requires
            capacity >= 1,
        ensures
            r.entries().len() == 0,
            lru_capacity(r.cache) == capacity,
            r.enabled,
            r.hits == 0,
            r.misses == 0,
    {
        ToolCache { cache: lru_new(capacity), enabled: true, hits: 0, misses: 0 }
    }

    /// The cached result of calling `tool_name` with `params`: none
    /// when the cache is off; otherwise a hit (the entry becomes the most
    /// recent) or a miss, counted.
    pub fn get(&mut self, tool_name: &str, params: &serde_json::Value) -> (r: Option<ToolResult>)
        requires
            old(self).hits < u64::MAX,
            old(self).misses < u64::MAX,
        ensures
            !old(self).enabled ==> r is None && final(self).entries() == old(self).entries()
                && final(self).hits == old(self).hits && final(self).misses == old(self).misses,
            old(self).enabled ==> match key_index(old(self).entries(), (tool_name@, json_text_of(*params)), 0) {
                Some(i) => r is Some && result_view(r->0) == old(self).entries()[i].1
                    && final(self).entries() == seq![old(self).entries()[i]] + old(
                    self,
                ).entries().remove(i) && final(self).hits == old(self).hits + 1
                    && final(self).misses == old(self).misses,
                None => r is None && final(self).entries() == old(self).entries() && final(self).hits
                    == old(self).hits && final(self).misses == old(self).misses + 1,
            },
            final(self).enabled == old(self).enabled,
            lru_capacity(final(self).cache) == lru_capacity(old(self).cache),
    {
        if !self.enabled {
            return None;
        }
        let key = make_key(tool_name, params);
        let r = lru_get(&mut self.cache, &key);
        if r.is_some() {
            self.hits = self.hits + 1;
        } else {
            self.misses = self.misses + 1;
        }
        r
    }

    /// Stores `result` for calling `tool_name` with `params`, unless
    /// the cache is off.
    pub fn put(&mut self, tool_name: &str, params: &serde_json::Value, result: ToolResult)
        ensures
            !old(self).enabled ==> final(self).entries() == old(self).entries(),
            old(self).enabled ==> final(self).entries() == entries_after_put(
                old(self).entries(),
                (tool_name@, json_text_of(*params)),
                result_view(result),
                lru_capacity(old(self).cache),
            ),
            final(self).enabled == old(self).enabled,
            final(self).hits == old(self).hits,
            final(self).misses == old(self).misses,
            lru_capacity(final(self).cache) == lru_capacity(old(self).cache),
    {
        if !self.enabled {
            return;
        }
        let key = make_key(tool_name, params);
        lru_put(&mut self.cache, key, result);
    }

    /// Drops every cached result of `tool_name`.
    pub fn invalidate_tool(&mut self, tool_name: &str)
        ensures
            final(self).entries() == old(self).entries().filter(
                |e: EntryView| e.0.0 != tool_name@,
            ),
            final(self).enabled == old(self).enabled,
            final(self).hits == old(self).hits,
            final(self).misses == old(self).misses,
            lru_capacity(final(self).cache) == lru_capacity(old(self).cache),
    {
        let ghost es0 = self.entries();
        let ghost keep = |e: EntryView| e.0.0 != tool_name@;
        let keys = lru_keys(&self.cache);
        proof {
            assert(keys@.map_values(|k: CacheKey| key_view(k)).len() == keys@.len());
            assert(es0.map_values(|e: EntryView| e.0).len() == es0.len());
            assert forall|a: int, b: int| 0 <= a < b < es0.len() implies es0[a].0 != es0[b].0 by {
                assert(keys@.map_values(|k: CacheKey| key_view(k))[a] == key_view(keys@[a]));
                assert(keys@.map_values(|k: CacheKey| key_view(k))[b] == key_view(keys@[b]));
                assert(es0.map_values(|e: EntryView| e.0)[a] == es0[a].0);
                assert(es0.map_values(|e: EntryView| e.0)[b] == es0[b].0);
            }
        }
        let name = crate::text::chars_of(tool_name);
        let mut i: usize = 0;
        assert(es0.take(0) =~= Seq::<EntryView>::empty());
        assert(es0.take(0).filter(keep) =~= Seq::<EntryView>::empty()) by {
            es0.take(0).lemma_filter_len(keep);
        }
        assert(es0.skip(0) =~= es0);
        while i < keys.len()
            invariant
                i <= keys@.len(),
                keys@.len() == es0.len(),
                distinct_keys(es0),
                keys@.map_values(|k: CacheKey| key_view(k)) == es0.map_values(|e: EntryView| e.0),
                name@ == tool_name@,
                keep == (|e: EntryView| e.0.0 != tool_name@),
                self.entries() == es0.take(i as int).filter(keep) + es0.skip(i as int),
                self.enabled == old(self).enabled,
                self.hits == old(self).hits,
                self.misses == old(self).misses,
                lru_capacity(self.cache) == lru_capacity(old(self).cache),
            decreases keys@.len() - i,
        {
            let k = &keys[i];
            assert(keys@.map_values(|k: CacheKey| key_view(k))[i as int] == key_view(keys@[i as int]));
            assert(es0.map_values(|e: EntryView| e.0)[i as int] == es0[i as int].0);
            assert(key_view(*k) == es0[i as int].0);
            let ghost pre = es0.take(i as int).filter(keep);
            proof {
                es0.take(i as int).lemma_filter_push(es0[i as int], keep);
                assert(es0.take(i + 1) =~= es0.take(i as int).push(es0[i as int]));
                assert(es0.skip(i as int) =~= seq![es0[i as int]] + es0.skip(i + 1));
            }
            let kn = crate::text::chars_of(k.0.as_str());
            if crate::text::chars_eq(kn.as_slice(), name.as_slice()) {
                proof {
                    let cur = self.entries();
                    assert(cur[pre.len() as int] == es0[i as int]);
                    assert forall|j: int| 0 <= j < pre.len() implies cur[j].0 != key_view(*k) by {
                        assert(cur[j] == pre[j]);
                        assert(pre.contains(pre[j]));
                        es0.take(i as int).lemma_filter_contains_rev(keep, pre[j]);
                        let t = choose|t: int| 0 <= t < i && es0.take(i as int)[t] == pre[j];
                        assert(es0[t] == pre[j]);
                    }
                    lemma_key_index_at(cur, key_view(*k), pre.len() as int, 0);
                    assert(cur.remove(pre.len() as int) =~= pre + es0.skip(i + 1));
                }
                lru_pop(&mut self.cache, k);
            }
            i = i + 1;
        }
        assert(es0.take(es0.len() as int) =~= es0);
        assert(es0.skip(es0.len() as int) =~= Seq::<EntryView>::empty());
    }
}

/// No two entries have the same key.
pub open spec fn distinct_keys(es: Seq<EntryView>) -> bool {
    forall|a: int, b: int| 0 <= a < b < es.len() ==> es[a].0 != es[b].0
}

/// The key `k` is first found at `p` when no entry from `i` on before `p`
/// has it.
proof fn lemma_key_index_at(s: Seq<EntryView>, k: (Seq<char>, Seq<char>), p: int, i: int)
    requires
        0 <= i <= p < s.len(),
        s[p].0 == k,
        forall|j: int| i <= j < p ==> s[j].0 != k,
    ensures
        key_index(s, k, i) == Some(p),
    decreases p - i,
{
    if i < p {
        lemma_key_index_at(s, k, p, i + 1);
    }
}

impl ToolCache {
    /// Drops every cached result.
    pub fn clear(&mut self)
        ensures
            final(self).entries().len() == 0,
            final(self).enabled == old(self).enabled,
            final(self).hits == old(self).hits,
            final(self).misses == old(self).misses,
            lru_capacity(final(self).cache) == lru_capacity(old(self).cache),
    {
        lru_clear(&mut self.cache);
    }

    /// The number of results held, the capacity, and the hits and misses
    /// counted so far (the hit rate is the application's to compute).
    pub fn stats(&self) -> (r: CacheCounts)
        ensures
            r.size == self.entries().len(),
            r.capacity == lru_capacity(self.cache),
            r.hits == self.hits,
            r.misses == self.misses,
    {
        CacheCounts {
            size: lru_len(&self.cache),
            capacity: lru_cap(&self.cache),
            hits: self.hits,
            misses: self.misses,
        }
    }

    /// Switches the cache on or off.
    pub fn set_enabled(&mut self, enabled: bool)
        ensures
            final(self).enabled == enabled,
            final(self).entries() == old(self).entries(),
            final(self).hits == old(self).hits,
            final(self).misses == old(self).misses,
            lru_capacity(final(self).cache) == lru_capacity(old(self).cache),
    {
        self.enabled = enabled;
    }

    /// Whether the cache is on.
    pub fn is_enabled(&self) -> (r: bool)
        ensures
            r == self.enabled,
    {
        self.enabled
    }
}

/// A result just stored is the first found under its key.
pub proof fn law_cache_read_after_write(
    es: Seq<EntryView>,
    k: (Seq<char>, Seq<char>),
    v: (Seq<char>, bool),
    cap: nat,
)
    ensures
        key_index(entries_after_put(es, k, v, cap), k, 0) == Some(0int),
        entries_after_put(es, k, v, cap)[0].1 == v,
{
}

/// Storing never takes a cache over its capacity.
pub proof fn law_cache_within_capacity(
    es: Seq<EntryView>,
    k: (Seq<char>, Seq<char>),
    v: (Seq<char>, bool),
    cap: nat,
)
    requires
        cap >= 1,
        es.len() <= cap,
    ensures
        entries_after_put(es, k, v, cap).len() <= cap,
{
    match key_index(es, k, 0) {
        Some(i) => {
            lemma_key_index_bounds(es, k, 0);
        },
        None => {},
    }
}

proof fn lemma_key_index_bounds(es: Seq<EntryView>, k: (Seq<char>, Seq<char>), i: int)
    requires
        0 <= i,
    ensures
        key_index(es, k, i) matches Some(j) ==> i <= j < es.len() && es[j].0 == k,
    decreases es.len() - i,
{
    if i < es.len() && es[i].0 != k {
        lemma_key_index_bounds(es, k, i + 1);
    }
}

/// Storing under a new key in a full cache drops only the least recently
/// used entry; the others keep their order after the new one. Storing
/// under a key already held replaces that entry and moves it to the front,
/// the others keeping their order.
pub proof fn law_cache_eviction_order(
    es: Seq<EntryView>,
    k: (Seq<char>, Seq<char>),
    v: (Seq<char>, bool),
    cap: nat,
)
    requires
        cap >= 1,
        es.len() <= cap,
    ensures
        ({
            let after = entries_after_put(es, k, v, cap);
            &&& after[0] == (k, v)
            &&& (forall|j: int| 0 <= j < es.len() ==> #[trigger] es[j].0 != k) && es.len() == cap ==> {
                &&& after.len() == cap
                &&& forall|j: int| 0 <= j < es.len() - 1 ==> #[trigger] after[j + 1] == es[j]
            }
            &&& (forall|j: int| 0 <= j < es.len() ==> #[trigger] es[j].0 != k) && es.len() < cap ==> {
                &&& after.len() == es.len() + 1
                &&& forall|j: int| 0 <= j < es.len() ==> #[trigger] after[j + 1] == es[j]
            }
            &&& forall|i: int|
                0 <= i < es.len() && es[i].0 == k && (forall|j: int| 0 <= j < i ==> #[trigger] es[j].0 != k)
                    ==> {
                    &&& after.len() == es.len()
                    &&& forall|j: int| 0 <= j < i ==> #[trigger] after[j + 1] == es[j]
                    &&& forall|j: int| i < j < es.len() ==> #[trigger] after[j] == es[j]
                }
        }),
{
    if forall|j: int| 0 <= j < es.len() ==> #[trigger] es[j].0 != k {
        lemma_key_index_none(es, k, 0);
    }
    assert forall|i: int|
        0 <= i < es.len() && es[i].0 == k && (forall|j: int| 0 <= j < i ==> #[trigger] es[j].0 != k) implies {
        let after = entries_after_put(es, k, v, cap);
        &&& after.len() == es.len()
        &&& forall|j: int| 0 <= j < i ==> #[trigger] after[j + 1] == es[j]
        &&& forall|j: int| i < j < es.len() ==> #[trigger] after[j] == es[j]
    } by {
        lemma_key_index_at(es, k, i, 0);
    }
}

proof fn lemma_key_index_none(es: Seq<EntryView>, k: (Seq<char>, Seq<char>), i: int)
    requires
        0 <= i,
        forall|j: int| 0 <= j < es.len() ==> #[trigger] es[j].0 != k,
    ensures
        key_index(es, k, i) is None,
    decreases es.len() - i,
{
    if i < es.len() {
        lemma_key_index_none(es, k, i + 1);
    }
}

} // verus!

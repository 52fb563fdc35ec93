use vstd::prelude::*;
use crate::env::{EntryEnv, elapsed_nanos_between};
use crate::key::{EntryKey, EntryKeyView};
use crate::metrics::{MetricsView, QueryCacheMetrics};
use crate::store::{
    EntryView,
    LruStore,
    MAX_CAPACITY_BYTES,
    STORE_FIXED_BYTES,
    entries_view,
    evict_count,
    has_key,
    key_index,
    keys_unique,
    lemma_total_touch,
    staged_put,
    total_bytes,
    touch,
};
use crate::value::{EntryValue, EntryValueView, WasmResult, WasmResultView};

verus! {

/// What a lookup tells its caller.
#[derive(Debug, PartialEq, Eq)]
pub enum Outcome {
    /// A stored result whose environment equals the current one.
    Hit(EntryValue),
    /// No usable result: the query must run.
    Miss,
}

pub enum OutcomeView {
    Hit(EntryValueView),
    Miss,
}

impl View for Outcome {
    type V = OutcomeView;

    open spec fn view(&self) -> OutcomeView {
        match self {
            Outcome::Hit(v) => OutcomeView::Hit(v@),
            Outcome::Miss => OutcomeView::Miss,
        }
    }
}

/// A query cache as a mathematical value.
pub struct QueryCacheView {
    /// Least recently used first.
    pub entries: Seq<EntryView>,
    pub capacity: nat,
    pub enabled: bool,
    pub metrics: MetricsView,
}

/// Age in nanoseconds of each entry of `s` at time `now`.
pub open spec fn ages_at(s: Seq<EntryView>, now: u64) -> Seq<u64> {
    Seq::new(s.len(), |i: int| elapsed_nanos_between(s[i].1.created_at(), now))
}

impl QueryCacheView {
    pub open spec fn wf(self) -> bool {
        &&& keys_unique(self.entries)
        &&& total_bytes(self.entries) <= self.capacity
        &&& self.capacity <= MAX_CAPACITY_BYTES
        &&& self.metrics.wf()
        &&& self.metrics.count_bytes == self.count_bytes()
    }

    /// Live bytes: the entries' footprints plus the store's fixed part.
    pub open spec fn count_bytes(self) -> nat {
        (STORE_FIXED_BYTES + total_bytes(self.entries)) as nat
    }

    pub open spec fn initial(capacity: nat, enabled: bool) -> QueryCacheView {
        QueryCacheView {
            entries: Seq::empty(),
            capacity,
            enabled,
            metrics: MetricsView::initial(STORE_FIXED_BYTES),
        }
    }

    /// `self` with `entries` in place of its entries, and the byte gauge
    /// following them.
    pub open spec fn with_entries(self, entries: Seq<EntryView>, metrics: MetricsView) -> QueryCacheView {
        QueryCacheView {
            entries,
            metrics: metrics.with_count_bytes((STORE_FIXED_BYTES + total_bytes(entries)) as u64),
            ..self
        }
    }

    /// The cache and outcome after looking up `k` under the current
    /// environment `e`.
    pub open spec fn lookup(self, k: EntryKeyView, e: EntryEnv) -> (QueryCacheView, OutcomeView) {
        if !self.enabled {
            (self, OutcomeView::Miss)
        } else if !has_key(self.entries, k) {
            (QueryCacheView { metrics: self.metrics.after_miss(), ..self }, OutcomeView::Miss)
        } else {
            let i = key_index(self.entries, k);
            let v = self.entries[i].1;
            if v.env == e {
                (
                    QueryCacheView {
                        entries: touch(self.entries, i),
                        metrics: self.metrics.after_hit(),
                        ..self
                    },
                    OutcomeView::Hit(v),
                )
            } else {
                (
                    self.with_entries(
                        self.entries.remove(i),
                        self.metrics.after_invalidation(
                            v.env.spec_mismatch(e),
                            elapsed_nanos_between(v.created_at(), e.batch_time),
                        ),
                    ),
                    OutcomeView::Miss,
                )
            }
        }
    }

    /// The entries that inserting `(k, e, r)` evicts, least recently used
    /// first.
    pub open spec fn evicted_by_insert(self, k: EntryKeyView, e: EntryEnv, r: WasmResultView) -> Seq<
        EntryView,
    > {
        let staged = staged_put(self.entries, k, EntryValueView { env: e, result: r });
        staged.take(evict_count(staged, self.capacity) as int)
    }

    /// The cache after inserting result `r`, produced under `e`, for `k`:
    /// any entry of `k` is replaced, the new entry is the most recently
    /// used, and least recently used entries go until the rest fits. Each
    /// eviction is counted with the evicted entry's age at `e`'s batch time.
    pub open spec fn insert(self, k: EntryKeyView, e: EntryEnv, r: WasmResultView) -> QueryCacheView {
        if !self.enabled {
            self
        } else {
            let staged = staged_put(self.entries, k, EntryValueView { env: e, result: r });
            let n = evict_count(staged, self.capacity) as int;
            self.with_entries(
                staged.skip(n),
                self.metrics.after_evictions(ages_at(staged.take(n), e.batch_time)),
            )
        }
    }
}

/// Capacity used when none is configured: 200 MiB.
pub const DEFAULT_CAPACITY_BYTES: u64 = 209_715_200;

/// The options the surrounding system passes through: `query_caching`
/// turns the cache on or off, `query_cache_capacity` sets its capacity.
#[derive(Clone, Copy, Debug, PartialEq, Eq, Structural)]
pub struct QueryCacheConfig {
    pub query_caching: bool,
    pub query_cache_capacity: u64,
}

impl Default for QueryCacheConfig {
    fn default() -> (r: QueryCacheConfig)
        ensures
            r.query_caching,
            r.query_cache_capacity == DEFAULT_CAPACITY_BYTES,
    {
        QueryCacheConfig { query_caching: true, query_cache_capacity: DEFAULT_CAPACITY_BYTES }
    }
}

/// A cache of query results keyed by request, valid only while the target
/// program's environment is unchanged, holding at most a given number of
/// bytes of entries.
pub struct QueryCache {
    store: LruStore,
    enabled: bool,
    metrics: QueryCacheMetrics,
}

impl View for QueryCache {
    type V = QueryCacheView;

    closed spec fn view(&self) -> QueryCacheView {
        QueryCacheView {
            entries: self.store@.entries,
            capacity: self.store@.capacity,
            enabled: self.enabled,
            metrics: self.metrics@,
        }
    }
}

impl QueryCache {
    /// The invariant: that of the model, and the store's own bookkeeping.
    pub closed spec fn inv(&self) -> bool {
        &&& self.store.inv()
        &&& self@.wf()
    }

    /// An empty cache holding at most `capacity_bytes` bytes of entries;
    /// when `enabled` is false every lookup misses and inserts do nothing.
    pub fn new(capacity_bytes: u64, enabled: bool) -> (r: QueryCache)
        requires
            capacity_bytes <= MAX_CAPACITY_BYTES,
        ensures
            r.inv(),
            r@ == QueryCacheView::initial(capacity_bytes as nat, enabled),
    {
        let store = LruStore::new(capacity_bytes);
        let metrics = QueryCacheMetrics::new(STORE_FIXED_BYTES);
        let r = QueryCache { store, enabled, metrics };
        assert(r@.entries =~= Seq::<EntryView>::empty());
        r
    }

    /// An empty cache set up as `config` says.
    pub fn from_config(config: &QueryCacheConfig) -> (r: QueryCache)
        requires
            config.query_cache_capacity <= MAX_CAPACITY_BYTES,
        ensures
            r.inv(),
            r@ == QueryCacheView::initial(
                config.query_cache_capacity as nat,
                config.query_caching,
            ),
    {
        QueryCache::new(config.query_cache_capacity, config.query_caching)
    }

    /// Looks up `key` under the current environment `env`.
    ///
    /// A stored entry whose environment differs from `env` in any field is
    /// removed and reported as a miss, with the differing fields counted.
    pub fn lookup(&mut self, key: &EntryKey, env: &EntryEnv) -> (r: Outcome)
        requires
            old(self).inv(),
        ensures
            final(self).inv(),
            (final(self)@, r@) == old(self)@.lookup(key@, *env),
    {
        if !self.enabled {
            return Outcome::Miss;
        }
        let ghost s = self@.entries;
        match self.store.peek(key) {
            None => {
                self.metrics.record_miss();
                Outcome::Miss
            },
            Some(v) => {
                let mismatch = v.env().mismatch(*env);
                if mismatch.any() {
                    let age = v.elapsed_nanos(env.batch_time);
                    let _ = self.store.remove(key);
                    self.metrics.record_invalidation(mismatch, age);
                    let count = self.store.count_bytes();
                    self.metrics.set_count_bytes(count);
                    Outcome::Miss
                } else {
                    let got = self.store.get(key);
                    proof {
                        lemma_total_touch(s, key_index(s, key@));
                    }
                    self.metrics.record_hit();
                    match got {
                        Some(value) => Outcome::Hit(value),
                        None => Outcome::Miss,
                    }
                }
            },
        }
    }

    /// Stores `result`, produced under `env`, for `key`, replacing any
    /// entry of that key, and evicts least recently used entries while the
    /// content exceeds the capacity. Each eviction is counted with the
    /// evicted entry's age at `env`'s batch time.
    pub fn insert(&mut self, key: EntryKey, env: EntryEnv, result: WasmResult)
        requires
            old(self).inv(),
        ensures
            final(self).inv(),
            final(self)@ == old(self)@.insert(key@, env, result@),
    {
        if !self.enabled {
            return;
        }
        let now = env.batch_time;
        let ghost m0 = self@.metrics;
        let value = EntryValue::new(env, result);
        let evicted = self.store.put(key, value);
        let ghost ages = ages_at(entries_view(evicted@), now);
        let ghost store_after = self.store@;
        let mut j: usize = 0;
        while j < evicted.len()
            invariant
                self.store.inv(),
                self.store@.wf(),
                self.store@ == store_after,
                self.enabled,
                0 <= j <= evicted@.len(),
                ages == ages_at(entries_view(evicted@), now),
                ages.len() == evicted@.len(),
                self.metrics@ == m0.after_evictions(ages.take(j as int)),
                self.metrics@.wf(),
            decreases evicted@.len() - j,
        {
            let age = evicted[j].1.elapsed_nanos(now);
            proof {
                let ev = entries_view(evicted@);
                assert(ev[j as int] == (evicted@[j as int].0@, evicted@[j as int].1@));
                assert(ages[j as int] == elapsed_nanos_between(ev[j as int].1.created_at(), now));
            }
            self.metrics.record_eviction(age);
            proof {
                assert(ages.take(j + 1).last() == ages[j as int]);
                assert(ages.take(j + 1).drop_last() =~= ages.take(j as int));
            }
            j = j + 1;
        }
        assert(ages.take(j as int) =~= ages);
        let count = self.store.count_bytes();
        self.metrics.set_count_bytes(count);
    }

    /// Live bytes, including the store's fixed part.
    pub fn count_bytes(&self) -> (r: u64)
        requires
            self.inv(),
        ensures
            r == self@.count_bytes(),
    {
        self.store.count_bytes()
    }

    /// The cache's metrics.
    pub fn metrics(&self) -> (r: &QueryCacheMetrics)
        ensures
            r@ == self@.metrics,
    {
        &self.metrics
    }

    /// Number of live entries.
    pub fn len(&self) -> (r: usize)
        ensures
            r == self@.entries.len(),
    {
        self.store.len()
    }

    /// The capacity in bytes of entries.
    pub fn capacity(&self) -> (r: u64)
        ensures
            r == self@.capacity,
    {
        self.store.capacity()
    }

    /// Whether the cache is in use.
    pub fn is_enabled(&self) -> (r: bool)
        ensures
            r == self@.enabled,
    {
        self.enabled
    }
}

} // verus!

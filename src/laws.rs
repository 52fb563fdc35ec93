//! Laws of the query cache, stated over its model and proved.
use vstd::prelude::*;
use crate::cache::{OutcomeView, QueryCacheView, ages_at};
use crate::env::{EntryEnv, elapsed_nanos_between};
use crate::key::EntryKeyView;
use crate::metrics::{
    counter_inc,
    lemma_evictions_monotone,
    lemma_evictions_zero_ages,
    lemma_observe,
};
use crate::store::{
    STORE_FIXED_BYTES,
    entry_bytes,
    evict_count,
    has_key,
    key_index,
    lemma_evict_fits,
    lemma_evict_keeps_last,
    lemma_key_index,
    lemma_total_remove,
    lemma_total_touch,
    lemma_unique_remove,
    lemma_unique_skip,
    lemma_unique_staged,
    lemma_unique_touch,
    staged_put,
    total_bytes,
    touch,
    without_key,
};
use crate::value::{EntryValueView, WasmResultView};

verus! {

/// A lookup right after an insert of `(k, e, r)` into an enabled cache,
/// under the same environment, hits and returns exactly `r` and `e`,
/// provided the entry fits the capacity by itself.
pub proof fn lemma_hit_after_insert(c: QueryCacheView, k: EntryKeyView, e: EntryEnv, r: WasmResultView)
    requires
        c.wf(),
        c.enabled,
        entry_bytes((k, EntryValueView { env: e, result: r })) <= c.capacity,
    ensures
        c.insert(k, e, r).lookup(k, e).1 == OutcomeView::Hit(EntryValueView { env: e, result: r }),
{
    let v = EntryValueView { env: e, result: r };
    let staged = staged_put(c.entries, k, v);
    let n = evict_count(staged, c.capacity) as int;
    lemma_unique_staged(c.entries, k, v);
    lemma_evict_keeps_last(staged, c.capacity);
    lemma_unique_skip(staged, n);
    let kept = staged.skip(n);
    assert(kept[kept.len() - 1] == (k, v));
    lemma_key_index(kept, k, kept.len() - 1);
}

/// A lookup whose environment differs from the stored one, in any field,
/// misses and leaves no entry of that key.
pub proof fn lemma_mismatch_invalidates(c: QueryCacheView, k: EntryKeyView, e: EntryEnv)
    requires
        c.wf(),
        c.enabled,
        has_key(c.entries, k),
        c.entries[key_index(c.entries, k)].1.env != e,
    ensures
        c.lookup(k, e).1 == OutcomeView::Miss,
        !has_key(c.lookup(k, e).0.entries, k),
{
    let i = key_index(c.entries, k);
    assert(0 <= i < c.entries.len() && c.entries[i].0 == k);
    lemma_unique_remove(c.entries, i);
}

/// Two consecutive lookups of the same key under the same environment give
/// the same outcome.
pub proof fn lemma_repeated_lookup(c: QueryCacheView, k: EntryKeyView, e: EntryEnv)
    requires
        c.wf(),
    ensures
        c.lookup(k, e).0.lookup(k, e).1 == c.lookup(k, e).1,
{
    if c.enabled && has_key(c.entries, k) {
        let i = key_index(c.entries, k);
        assert(0 <= i < c.entries.len() && c.entries[i].0 == k);
        if c.entries[i].1.env == e {
            let t = touch(c.entries, i);
            lemma_unique_touch(c.entries, i);
            assert(t[t.len() - 1] == c.entries[i]);
            lemma_key_index(t, k, t.len() - 1);
        } else {
            lemma_unique_remove(c.entries, i);
        }
    }
}

/// Lookups and inserts keep the model well formed, so the reported byte
/// count is always the entries' footprints plus the fixed part of the
/// store, and the gauge agrees with it.
pub proof fn lemma_accounting(c: QueryCacheView, k: EntryKeyView, e: EntryEnv, r: WasmResultView)
    requires
        c.wf(),
    ensures
        c.lookup(k, e).0.wf(),
        c.insert(k, e, r).wf(),
        total_bytes(c.entries) <= c.count_bytes() == total_bytes(c.entries) + STORE_FIXED_BYTES,
        c.metrics.count_bytes == c.count_bytes(),
{
    if c.enabled && has_key(c.entries, k) {
        let i = key_index(c.entries, k);
        assert(0 <= i < c.entries.len() && c.entries[i].0 == k);
        lemma_unique_touch(c.entries, i);
        lemma_total_touch(c.entries, i);
        lemma_unique_remove(c.entries, i);
        lemma_total_remove(c.entries, i);
        lemma_observe(
            c.metrics.invalidated_entries_duration,
            elapsed_nanos_between(c.entries[i].1.created_at(), e.batch_time),
        );
    }
    if c.enabled {
        let v = EntryValueView { env: e, result: r };
        let staged = staged_put(c.entries, k, v);
        let n = evict_count(staged, c.capacity) as int;
        lemma_unique_staged(c.entries, k, v);
        lemma_evict_fits(staged, c.capacity);
        lemma_unique_skip(staged, n);
        lemma_evictions_monotone(c.metrics, ages_at(staged.take(n), e.batch_time));
    }
}

/// No counter or histogram count goes down on a lookup or an insert.
pub proof fn lemma_counters_monotone(
    c: QueryCacheView,
    k: EntryKeyView,
    e: EntryEnv,
    r: WasmResultView,
)
    requires
        c.wf(),
    ensures
        c.metrics.counters_le(c.lookup(k, e).0.metrics),
        c.metrics.counters_le(c.insert(k, e, r).metrics),
{
    if c.enabled && has_key(c.entries, k) {
        let i = key_index(c.entries, k);
        let v = c.entries[i].1;
        lemma_observe(
            c.metrics.invalidated_entries_duration,
            elapsed_nanos_between(v.created_at(), e.batch_time),
        );
    }
    if c.enabled {
        let v = EntryValueView { env: e, result: r };
        let staged = staged_put(c.entries, k, v);
        let n = evict_count(staged, c.capacity) as int;
        lemma_evictions_monotone(c.metrics, ages_at(staged.take(n), e.batch_time));
    }
}

/// An invalidation at a batch time no later than the entry's creation
/// records a duration sample of zero: the sum stays, the count grows.
pub proof fn lemma_backward_invalidation_records_zero(c: QueryCacheView, k: EntryKeyView, e: EntryEnv)
    requires
        c.wf(),
        c.enabled,
        has_key(c.entries, k),
        c.entries[key_index(c.entries, k)].1.env != e,
        e.batch_time <= c.entries[key_index(c.entries, k)].1.created_at(),
    ensures
        c.lookup(k, e).0.metrics.invalidated_entries_duration.sum
            == c.metrics.invalidated_entries_duration.sum,
        c.lookup(k, e).0.metrics.invalidated_entries_duration.count == counter_inc(
            c.metrics.invalidated_entries_duration.count,
        ),
{
}

/// Evictions at a batch time no later than the creation of every evicted
/// entry record duration samples of zero: the evicted-duration sum stays.
pub proof fn lemma_backward_eviction_records_zero(
    c: QueryCacheView,
    k: EntryKeyView,
    e: EntryEnv,
    r: WasmResultView,
)
    requires
        c.wf(),
        forall|i: int|
            0 <= i < c.evicted_by_insert(k, e, r).len() ==> e.batch_time <= (
            #[trigger] c.evicted_by_insert(k, e, r)[i]).1.created_at(),
    ensures
        c.insert(k, e, r).metrics.evicted_entries_duration.sum
            == c.metrics.evicted_entries_duration.sum,
{
    if c.enabled {
        let ev = c.evicted_by_insert(k, e, r);
        let ages = ages_at(ev, e.batch_time);
        assert forall|i: int| 0 <= i < ages.len() implies ages[i] == 0 by {
            assert(e.batch_time <= ev[i].1.created_at());
        }
        lemma_evictions_zero_ages(c.metrics, ages);
    }
}

/// Re-inserting a key that is present evicts nothing, as long as the new
/// entry fits in place of the old one: the eviction counter stays and the
/// key's entry is the new one, now the most recently used.
pub proof fn lemma_replacement_not_eviction(
    c: QueryCacheView,
    k: EntryKeyView,
    e: EntryEnv,
    r: WasmResultView,
)
    requires
        c.wf(),
        c.enabled,
        has_key(c.entries, k),
        total_bytes(without_key(c.entries, k)) + entry_bytes((k, EntryValueView { env: e, result: r }))
            <= c.capacity,
    ensures
        c.evicted_by_insert(k, e, r).len() == 0,
        c.insert(k, e, r).metrics.evicted_entries == c.metrics.evicted_entries,
        c.insert(k, e, r).metrics.evicted_entries_duration == c.metrics.evicted_entries_duration,
        c.insert(k, e, r).entries == without_key(c.entries, k).push(
            (k, EntryValueView { env: e, result: r }),
        ),
{
    let v = EntryValueView { env: e, result: r };
    let staged = staged_put(c.entries, k, v);
    lemma_unique_staged(c.entries, k, v);
    assert(evict_count(staged, c.capacity) == 0);
    assert(staged.skip(0) =~= staged);
    assert(ages_at(staged.take(0), e.batch_time).len() == 0);
}

} // verus!

use vstd::prelude::*;
use crate::env::EnvMismatch;

verus! {

/// Number of finite bucket bounds of a duration histogram; one more bucket
/// takes the samples above the largest bound.
pub const DURATION_BOUNDS: usize = 10;

/// `c + 1`, staying at `u64::MAX` once there.
pub open spec fn counter_inc(c: u64) -> u64 {
    if c < u64::MAX {
        (c + 1) as u64
    } else {
        c
    }
}

/// `c + d`, staying at `u64::MAX` instead of overflowing.
pub open spec fn counter_add(c: u64, d: u64) -> u64 {
    if c + d <= u64::MAX {
        (c + d) as u64
    } else {
        u64::MAX
    }
}

/// `s + x`, staying at `u128::MAX` instead of overflowing.
pub open spec fn sum_add(s: u128, x: u64) -> u128 {
    if s + x <= u128::MAX {
        (s + x) as u128
    } else {
        u128::MAX
    }
}

pub open spec fn pow10(n: nat) -> nat
    decreases n,
{
    if n == 0 {
        1
    } else {
        10 * pow10((n - 1) as nat)
    }
}

/// Upper bound, in nanoseconds, of bucket `i`: one millisecond times ten to
/// the `i`, so the last finite bound is a little over eleven days.
pub open spec fn bucket_bound(i: nat) -> nat {
    pow10(6 + i)
}

/// The bucket of a sample of `x` nanoseconds: the first whose bound is at
/// least `x`, or the overflow bucket.
pub open spec fn bucket_of(x: nat) -> nat {
    bucket_from(x, 0)
}

pub open spec fn bucket_from(x: nat, i: nat) -> nat
    decreases DURATION_BOUNDS - i,
{
    if i >= DURATION_BOUNDS {
        DURATION_BOUNDS as nat
    } else if x <= bucket_bound(i) {
        i
    } else {
        bucket_from(x, i + 1)
    }
}

pub proof fn lemma_bucket_from_bound(x: nat, i: nat)
    ensures
        bucket_from(x, i) <= DURATION_BOUNDS,
    decreases DURATION_BOUNDS - i,
{
    if i < DURATION_BOUNDS && x > bucket_bound(i) {
        lemma_bucket_from_bound(x, i + 1);
    }
}

pub proof fn lemma_observe(h: DurationHistogramView, x: u64)
    requires
        h.wf(),
    ensures
        h.observe(x).wf(),
        h.counts_le(h.observe(x)),
{
    lemma_bucket_from_bound(x as nat, 0);
}

pub proof fn lemma_histogram_le_trans(
    a: DurationHistogramView,
    b: DurationHistogramView,
    c: DurationHistogramView,
)
    requires
        a.counts_le(b),
        b.counts_le(c),
    ensures
        a.counts_le(c),
{
    assert forall|i: int| 0 <= i < a.buckets.len() implies a.buckets[i] <= c.buckets[i] by {
        assert(a.buckets[i] <= b.buckets[i]);
    }
}

pub proof fn lemma_metrics_le_trans(a: MetricsView, b: MetricsView, c: MetricsView)
    requires
        a.counters_le(b),
        b.counters_le(c),
    ensures
        a.counters_le(c),
{
    lemma_histogram_le_trans(
        a.evicted_entries_duration,
        b.evicted_entries_duration,
        c.evicted_entries_duration,
    );
    lemma_histogram_le_trans(
        a.invalidated_entries_duration,
        b.invalidated_entries_duration,
        c.invalidated_entries_duration,
    );
}

/// Evictions keep the metrics well formed and lower no count.
pub proof fn lemma_evictions_monotone(m: MetricsView, ages: Seq<u64>)
    requires
        m.wf(),
    ensures
        m.after_evictions(ages).wf(),
        m.counters_le(m.after_evictions(ages)),
    decreases ages.len(),
{
    if ages.len() > 0 {
        let prev = m.after_evictions(ages.drop_last());
        lemma_evictions_monotone(m, ages.drop_last());
        lemma_observe(prev.evicted_entries_duration, ages.last());
        lemma_metrics_le_trans(m, prev, prev.after_eviction(ages.last()));
    }
}

/// Evictions of entries of age zero add nothing to the evicted-duration sum.
pub proof fn lemma_evictions_zero_ages(m: MetricsView, ages: Seq<u64>)
    requires
        forall|i: int| 0 <= i < ages.len() ==> ages[i] == 0,
    ensures
        m.after_evictions(ages).evicted_entries_duration.sum == m.evicted_entries_duration.sum,
    decreases ages.len(),
{
    if ages.len() > 0 {
        lemma_evictions_zero_ages(m, ages.drop_last());
    }
}

/// Exec counterpart of `counter_inc`.
pub fn inc(c: u64) -> (r: u64)
    ensures
        r == counter_inc(c),
{
    if c < u64::MAX {
        c + 1
    } else {
        c
    }
}

/// A histogram of durations in nanoseconds.
pub struct DurationHistogram {
    sample_sum: u128,
    sample_count: u64,
    bucket_counts: Vec<u64>,
}

pub struct DurationHistogramView {
    /// Sum of all samples, in nanoseconds.
    pub sum: u128,
    /// Number of samples.
    pub count: u64,
    /// Samples per bucket, the overflow bucket last.
    pub buckets: Seq<u64>,
}

impl DurationHistogramView {
    pub open spec fn empty() -> DurationHistogramView {
        DurationHistogramView {
            sum: 0,
            count: 0,
            buckets: Seq::new((DURATION_BOUNDS + 1) as nat, |i: int| 0u64),
        }
    }

    pub open spec fn wf(self) -> bool {
        self.buckets.len() == DURATION_BOUNDS + 1
    }

    /// The histogram after one sample of `x` nanoseconds.
    pub open spec fn observe(self, x: u64) -> DurationHistogramView {
        let b = bucket_of(x as nat) as int;
        DurationHistogramView {
            sum: sum_add(self.sum, x),
            count: counter_inc(self.count),
            buckets: self.buckets.update(b, counter_inc(self.buckets[b])),
        }
    }

    /// No count of `self` exceeds that of `other`.
    pub open spec fn counts_le(self, other: DurationHistogramView) -> bool {
        &&& self.sum <= other.sum
        &&& self.count <= other.count
        &&& self.buckets.len() == other.buckets.len()
        &&& forall|i: int| 0 <= i < self.buckets.len() ==> self.buckets[i] <= other.buckets[i]
    }
}

impl View for DurationHistogram {
    type V = DurationHistogramView;

    closed spec fn view(&self) -> DurationHistogramView {
        DurationHistogramView {
            sum: self.sample_sum,
            count: self.sample_count,
            buckets: self.bucket_counts@,
        }
    }
}

/// The bucket of a sample of `x` nanoseconds.
pub fn bucket_index(x: u64) -> (r: usize)
    ensures
        r == bucket_of(x as nat),
        r <= DURATION_BOUNDS,
{
    let mut i: usize = 0;
    let mut bound: u64 = 1_000_000;
    assert(pow10(6) == 1_000_000) by {
        reveal_with_fuel(pow10, 7);
    }
    while i < DURATION_BOUNDS && x > bound
        invariant
            0 <= i <= DURATION_BOUNDS,
            i < DURATION_BOUNDS ==> bound == bucket_bound(i as nat),
            bound <= 1_000_000_000_000_000,
            bucket_from(x as nat, i as nat) == bucket_of(x as nat),
        decreases DURATION_BOUNDS - i,
    {
        if i + 1 < DURATION_BOUNDS {
            proof {
                lemma_bound_le((i + 1) as nat);
                assert(bucket_bound((i + 1) as nat) == 10 * bucket_bound(i as nat)) by {
                    reveal_with_fuel(pow10, 2);
                }
            }
            bound = bound * 10;
        }
        i = i + 1;
    }
    i
}

proof fn lemma_bound_le(i: nat)
    requires
        1 <= i < DURATION_BOUNDS,
    ensures
        bucket_bound((i - 1) as nat) <= 100_000_000_000_000,
{
    lemma_pow10_mono((5 + i) as nat, 14);
    assert(pow10(14) == 100_000_000_000_000) by {
        reveal_with_fuel(pow10, 15);
    }
}

proof fn lemma_pow10_mono(a: nat, b: nat)
    requires
        a <= b,
    ensures
        pow10(a) <= pow10(b),
    decreases b,
{
    if a < b {
        lemma_pow10_mono(a, (b - 1) as nat);
    }
}

impl DurationHistogram {
    /// A histogram with no samples.
    pub fn new() -> (r: DurationHistogram)
        ensures
            r@ == DurationHistogramView::empty(),
    {
        let mut bucket_counts: Vec<u64> = Vec::new();
        let mut i: usize = 0;
        while i < DURATION_BOUNDS + 1
            invariant
                0 <= i <= DURATION_BOUNDS + 1,
                bucket_counts@ == Seq::new(i as nat, |j: int| 0u64),
            decreases DURATION_BOUNDS + 1 - i,
        {
            bucket_counts.push(0);
            i = i + 1;
            assert(bucket_counts@ =~= Seq::new(i as nat, |j: int| 0u64));
        }
        DurationHistogram { sample_sum: 0, sample_count: 0, bucket_counts }
    }

    /// Records one sample of `x` nanoseconds.
    pub fn observe(&mut self, x: u64)
        requires
            old(self)@.wf(),
        ensures
            final(self)@ == old(self)@.observe(x),
            final(self)@.wf(),
    {
        let b = bucket_index(x);
        self.sample_sum = self.sample_sum.saturating_add(x as u128);
        self.sample_count = inc(self.sample_count);
        let c = self.bucket_counts[b];
        self.bucket_counts.set(b, inc(c));
    }

    /// Sum of all samples, in nanoseconds.
    pub fn sample_sum(&self) -> (r: u128)
        ensures
            r == self@.sum,
    {
        self.sample_sum
    }

    /// Number of samples.
    pub fn sample_count(&self) -> (r: u64)
        ensures
            r == self@.count,
    {
        self.sample_count
    }

    /// Samples in bucket `i`; the overflow bucket is `DURATION_BOUNDS`.
    pub fn bucket_count(&self, i: usize) -> (r: u64)
        requires
            self@.wf(),
            i <= DURATION_BOUNDS,
        ensures
            r == self@.buckets[i as int],
    {
        self.bucket_counts[i]
    }
}

/// Counters, histograms and the byte gauge of a query cache.
pub struct QueryCacheMetrics {
    hits: u64,
    misses: u64,
    evicted_entries: u64,
    evicted_entries_duration: DurationHistogram,
    invalidated_entries: u64,
    invalidated_entries_by_time: u64,
    invalidated_entries_by_canister_version: u64,
    invalidated_entries_by_canister_balance: u64,
    invalidated_entries_duration: DurationHistogram,
    count_bytes: u64,
}

pub struct MetricsView {
    /// Lookups that returned a hit.
    pub hits: u64,
    /// Lookups that returned a miss, invalidations included.
    pub misses: u64,
    /// Entries removed by capacity pressure.
    pub evicted_entries: u64,
    /// Age of each entry at its eviction.
    pub evicted_entries_duration: DurationHistogramView,
    /// Lookups that removed an entry for an environment mismatch.
    pub invalidated_entries: u64,
    /// Invalidations where the batch time differed.
    pub invalidated_entries_by_time: u64,
    /// Invalidations where the program version differed.
    pub invalidated_entries_by_canister_version: u64,
    /// Invalidations where the cycles balance differed.
    pub invalidated_entries_by_canister_balance: u64,
    /// Age of each entry at its invalidation.
    pub invalidated_entries_duration: DurationHistogramView,
    /// The store's byte count after the last operation.
    pub count_bytes: u64,
}

impl MetricsView {
    pub open spec fn initial(count_bytes: u64) -> MetricsView {
        MetricsView {
            hits: 0,
            misses: 0,
            evicted_entries: 0,
            evicted_entries_duration: DurationHistogramView::empty(),
            invalidated_entries: 0,
            invalidated_entries_by_time: 0,
            invalidated_entries_by_canister_version: 0,
            invalidated_entries_by_canister_balance: 0,
            invalidated_entries_duration: DurationHistogramView::empty(),
            count_bytes,
        }
    }

    pub open spec fn wf(self) -> bool {
        self.evicted_entries_duration.wf() && self.invalidated_entries_duration.wf()
    }

    pub open spec fn after_hit(self) -> MetricsView {
        MetricsView { hits: counter_inc(self.hits), ..self }
    }

    pub open spec fn after_miss(self) -> MetricsView {
        MetricsView { misses: counter_inc(self.misses), ..self }
    }

    /// After a lookup that found an entry of age `age` nanoseconds whose
    /// environment differed as `m` says: one miss, one invalidation, one
    /// count per differing field, one duration sample.
    pub open spec fn after_invalidation(self, m: EnvMismatch, age: u64) -> MetricsView {
        MetricsView {
            misses: counter_inc(self.misses),
            invalidated_entries: counter_inc(self.invalidated_entries),
            invalidated_entries_by_time: if m.batch_time {
                counter_inc(self.invalidated_entries_by_time)
            } else {
                self.invalidated_entries_by_time
            },
            invalidated_entries_by_canister_version: if m.canister_version {
                counter_inc(self.invalidated_entries_by_canister_version)
            } else {
                self.invalidated_entries_by_canister_version
            },
            invalidated_entries_by_canister_balance: if m.canister_balance {
                counter_inc(self.invalidated_entries_by_canister_balance)
            } else {
                self.invalidated_entries_by_canister_balance
            },
            invalidated_entries_duration: self.invalidated_entries_duration.observe(age),
            ..self
        }
    }

    /// After one eviction of an entry of age `age` nanoseconds.
    pub open spec fn after_eviction(self, age: u64) -> MetricsView {
        MetricsView {
            evicted_entries: counter_inc(self.evicted_entries),
            evicted_entries_duration: self.evicted_entries_duration.observe(age),
            ..self
        }
    }

    /// After evictions of entries of the given ages, in order.
    pub open spec fn after_evictions(self, ages: Seq<u64>) -> MetricsView
        decreases ages.len(),
    {
        if ages.len() == 0 {
            self
        } else {
            self.after_evictions(ages.drop_last()).after_eviction(ages.last())
        }
    }

    pub open spec fn with_count_bytes(self, count_bytes: u64) -> MetricsView {
        MetricsView { count_bytes, ..self }
    }

    /// No counter or histogram of `self` exceeds that of `other`.
    pub open spec fn counters_le(self, other: MetricsView) -> bool {
        &&& self.hits <= other.hits
        &&& self.misses <= other.misses
        &&& self.evicted_entries <= other.evicted_entries
        &&& self.evicted_entries_duration.counts_le(other.evicted_entries_duration)
        &&& self.invalidated_entries <= other.invalidated_entries
        &&& self.invalidated_entries_by_time <= other.invalidated_entries_by_time
        &&& self.invalidated_entries_by_canister_version
            <= other.invalidated_entries_by_canister_version
        &&& self.invalidated_entries_by_canister_balance
            <= other.invalidated_entries_by_canister_balance
        &&& self.invalidated_entries_duration.counts_le(other.invalidated_entries_duration)
    }
}

impl View for QueryCacheMetrics {
    type V = MetricsView;

    closed spec fn view(&self) -> MetricsView {
        MetricsView {
            hits: self.hits,
            misses: self.misses,
            evicted_entries: self.evicted_entries,
            evicted_entries_duration: self.evicted_entries_duration@,
            invalidated_entries: self.invalidated_entries,
            invalidated_entries_by_time: self.invalidated_entries_by_time,
            invalidated_entries_by_canister_version: self.invalidated_entries_by_canister_version,
            invalidated_entries_by_canister_balance: self.invalidated_entries_by_canister_balance,
            invalidated_entries_duration: self.invalidated_entries_duration@,
            count_bytes: self.count_bytes,
        }
    }
}

impl QueryCacheMetrics {
    /// All counters and histograms empty, the gauge at `count_bytes`.
    pub fn new(count_bytes: u64) -> (r: QueryCacheMetrics)
        ensures
            r@ == MetricsView::initial(count_bytes),
    {
        QueryCacheMetrics {
            hits: 0,
            misses: 0,
            evicted_entries: 0,
            evicted_entries_duration: DurationHistogram::new(),
            invalidated_entries: 0,
            invalidated_entries_by_time: 0,
            invalidated_entries_by_canister_version: 0,
            invalidated_entries_by_canister_balance: 0,
            invalidated_entries_duration: DurationHistogram::new(),
            count_bytes,
        }
    }

    pub fn hits(&self) -> (r: u64)
        ensures
            r == self@.hits,
    {
        self.hits
    }

    pub fn misses(&self) -> (r: u64)
        ensures
            r == self@.misses,
    {
        self.misses
    }

    pub fn evicted_entries(&self) -> (r: u64)
        ensures
            r == self@.evicted_entries,
    {
        self.evicted_entries
    }

    pub fn evicted_entries_duration(&self) -> (r: &DurationHistogram)
        ensures
            r@ == self@.evicted_entries_duration,
    {
        &self.evicted_entries_duration
    }

    pub fn invalidated_entries(&self) -> (r: u64)
        ensures
            r == self@.invalidated_entries,
    {
        self.invalidated_entries
    }

    pub fn invalidated_entries_by_time(&self) -> (r: u64)
        ensures
            r == self@.invalidated_entries_by_time,
    {
        self.invalidated_entries_by_time
    }

    pub fn invalidated_entries_by_canister_version(&self) -> (r: u64)
        ensures
            r == self@.invalidated_entries_by_canister_version,
    {
        self.invalidated_entries_by_canister_version
    }

    pub fn invalidated_entries_by_canister_balance(&self) -> (r: u64)
        ensures
            r == self@.invalidated_entries_by_canister_balance,
    {
        self.invalidated_entries_by_canister_balance
    }

    pub fn invalidated_entries_duration(&self) -> (r: &DurationHistogram)
        ensures
            r@ == self@.invalidated_entries_duration,
    {
        &self.invalidated_entries_duration
    }

    pub fn count_bytes(&self) -> (r: u64)
        ensures
            r == self@.count_bytes,
    {
        self.count_bytes
    }

    pub(crate) fn record_hit(&mut self)
        ensures
            final(self)@ == old(self)@.after_hit(),
    {
        self.hits = inc(self.hits);
    }

    pub(crate) fn record_miss(&mut self)
        ensures
            final(self)@ == old(self)@.after_miss(),
    {
        self.misses = inc(self.misses);
    }

    pub(crate) fn record_invalidation(&mut self, m: EnvMismatch, age: u64)
        requires
            old(self)@.wf(),
        ensures
            final(self)@ == old(self)@.after_invalidation(m, age),
            final(self)@.wf(),
    {
        self.misses = inc(self.misses);
        self.invalidated_entries = inc(self.invalidated_entries);
        if m.batch_time {
            self.invalidated_entries_by_time = inc(self.invalidated_entries_by_time);
        }
        if m.canister_version {
            self.invalidated_entries_by_canister_version = inc(
                self.invalidated_entries_by_canister_version,
            );
        }
        if m.canister_balance {
            self.invalidated_entries_by_canister_balance = inc(
                self.invalidated_entries_by_canister_balance,
            );
        }
        self.invalidated_entries_duration.observe(age);
    }

    pub(crate) fn record_eviction(&mut self, age: u64)
        requires
            old(self)@.wf(),
        ensures
            final(self)@ == old(self)@.after_eviction(age),
            final(self)@.wf(),
    {
        self.evicted_entries = inc(self.evicted_entries);
        self.evicted_entries_duration.observe(age);
    }

    pub(crate) fn set_count_bytes(&mut self, count_bytes: u64)
        ensures
            final(self)@ == old(self)@.with_count_bytes(count_bytes),
    {
        self.count_bytes = count_bytes;
    }
}

} // verus!

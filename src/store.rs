use vstd::prelude::*;
use crate::key::{EntryKey, EntryKeyView, key_bytes};
use crate::value::{EntryValue, EntryValueView, value_bytes};

verus! {

/// Bytes that the store's own structure occupies, whatever it holds.
pub const STORE_FIXED_BYTES: u64 = 64;

/// The largest capacity a store accepts, so that its reported byte count
/// (content plus fixed part) always fits in a `u64`.
pub const MAX_CAPACITY_BYTES: u64 = u64::MAX - STORE_FIXED_BYTES;

/// A cached entry as a mathematical value.
pub type EntryView = (EntryKeyView, EntryValueView);

/// Storage footprint of one entry.
pub open spec fn entry_bytes(e: EntryView) -> nat {
    key_bytes(e.0) + value_bytes(e.1)
}

/// Sum of the footprints of all entries of `s`.
pub open spec fn total_bytes(s: Seq<EntryView>) -> nat
    decreases s.len(),
{
    if s.len() == 0 {
        0
    } else {
        entry_bytes(s[0]) + total_bytes(s.drop_first())
    }
}

/// Whether some entry of `s` has key `k`.
pub open spec fn has_key(s: Seq<EntryView>, k: EntryKeyView) -> bool {
    exists|i: int| 0 <= i < s.len() && (#[trigger] s[i]).0 == k
}

/// The position of the entry with key `k` (meaningful when `has_key`).
pub open spec fn key_index(s: Seq<EntryView>, k: EntryKeyView) -> int {
    choose|i: int| 0 <= i < s.len() && (#[trigger] s[i]).0 == k
}

/// No two entries of `s` share a key.
pub open spec fn keys_unique(s: Seq<EntryView>) -> bool {
    forall|i: int, j: int| 0 <= i < j < s.len() ==> (#[trigger] s[i]).0 != (#[trigger] s[j]).0
}

/// `s` without the entry of key `k`, if there is one.
pub open spec fn without_key(s: Seq<EntryView>, k: EntryKeyView) -> Seq<EntryView> {
    if has_key(s, k) {
        s.remove(key_index(s, k))
    } else {
        s
    }
}

/// How many entries, taken from the least recently used end, must go so
/// that the rest fits in `capacity` bytes.
pub open spec fn evict_count(s: Seq<EntryView>, capacity: nat) -> nat
    decreases s.len(),
{
    if s.len() == 0 || total_bytes(s) <= capacity {
        0
    } else {
        1 + evict_count(s.drop_first(), capacity)
    }
}

/// The entries after `put(k, v)` and before eviction: any entry of key `k`
/// is replaced, and the new one is the most recently used.
pub open spec fn staged_put(s: Seq<EntryView>, k: EntryKeyView, v: EntryValueView) -> Seq<EntryView> {
    without_key(s, k).push((k, v))
}

/// The entries after `s[i]` was used: it moves to the most recently used end.
pub open spec fn touch(s: Seq<EntryView>, i: int) -> Seq<EntryView> {
    s.remove(i).push(s[i])
}

pub open spec fn entries_view(v: Seq<(EntryKey, EntryValue)>) -> Seq<EntryView> {
    v.map_values(|e: (EntryKey, EntryValue)| (e.0@, e.1@))
}

pub proof fn lemma_total_push(s: Seq<EntryView>, e: EntryView)
    ensures
        total_bytes(s.push(e)) == total_bytes(s) + entry_bytes(e),
    decreases s.len(),
{
    if s.len() == 0 {
        assert(s.push(e).drop_first() =~= s);
    } else {
        assert(s.push(e).drop_first() =~= s.drop_first().push(e));
        lemma_total_push(s.drop_first(), e);
    }
}

pub proof fn lemma_total_remove(s: Seq<EntryView>, i: int)
    requires
        0 <= i < s.len(),
    ensures
        total_bytes(s.remove(i)) + entry_bytes(s[i]) == total_bytes(s),
    decreases i,
{
    if i == 0 {
        assert(s.remove(0) =~= s.drop_first());
    } else {
        assert(s.remove(i).drop_first() =~= s.drop_first().remove(i - 1));
        lemma_total_remove(s.drop_first(), i - 1);
    }
}

pub proof fn lemma_total_touch(s: Seq<EntryView>, i: int)
    requires
        0 <= i < s.len(),
    ensures
        total_bytes(touch(s, i)) == total_bytes(s),
{
    lemma_total_remove(s, i);
    lemma_total_push(s.remove(i), s[i]);
}

pub proof fn lemma_unique_touch(s: Seq<EntryView>, i: int)
    requires
        keys_unique(s),
        0 <= i < s.len(),
    ensures
        keys_unique(touch(s, i)),
{
    lemma_unique_remove(s, i);
    let t = touch(s, i);
    let w = s.remove(i);
    assert forall|a: int, b: int| 0 <= a < b < t.len() implies (#[trigger] t[a]).0 != (
    #[trigger] t[b]).0 by {
        if b == w.len() {
            assert(t[a] == w[a]);
            assert(!has_key(w, s[i].0));
        } else {
            assert(t[a] == w[a] && t[b] == w[b]);
        }
    }
}

/// What eviction leaves fits the capacity.
pub proof fn lemma_evict_fits(s: Seq<EntryView>, capacity: nat)
    ensures
        evict_count(s, capacity) <= s.len(),
        total_bytes(s.skip(evict_count(s, capacity) as int)) <= capacity,
    decreases s.len(),
{
    if s.len() == 0 || total_bytes(s) <= capacity {
        assert(s.skip(0) =~= s);
    } else {
        lemma_evict_fits(s.drop_first(), capacity);
        let n = evict_count(s.drop_first(), capacity) as int;
        assert(s.skip(n + 1) =~= s.drop_first().skip(n));
    }
}

/// Eviction never takes the most recently used entry when that entry fits
/// the capacity by itself.
pub proof fn lemma_evict_keeps_last(s: Seq<EntryView>, capacity: nat)
    requires
        s.len() > 0,
        entry_bytes(s.last()) <= capacity,
    ensures
        evict_count(s, capacity) < s.len(),
    decreases s.len(),
{
    if s.len() == 1 {
        assert(s.drop_first() =~= Seq::<EntryView>::empty());
        assert(total_bytes(s.drop_first()) == 0);
        assert(total_bytes(s) == entry_bytes(s.last()));
    } else if total_bytes(s) > capacity {
        assert(s.drop_first().last() == s.last());
        lemma_evict_keeps_last(s.drop_first(), capacity);
    }
}

pub proof fn lemma_key_index(s: Seq<EntryView>, k: EntryKeyView, i: int)
    requires
        keys_unique(s),
        0 <= i < s.len(),
        s[i].0 == k,
    ensures
        has_key(s, k),
        key_index(s, k) == i,
{
    assert(has_key(s, k));
    let j = key_index(s, k);
    if j < i {
        assert(s[j].0 != s[i].0);
    } else if i < j {
        assert(s[i].0 != s[j].0);
    }
}

pub proof fn lemma_unique_remove(s: Seq<EntryView>, i: int)
    requires
        keys_unique(s),
        0 <= i < s.len(),
    ensures
        keys_unique(s.remove(i)),
        !has_key(s.remove(i), s[i].0),
{
    let r = s.remove(i);
    assert forall|a: int, b: int| 0 <= a < b < r.len() implies (#[trigger] r[a]).0 != (
    #[trigger] r[b]).0 by {
        let a1 = if a < i { a } else { a + 1 };
        let b1 = if b < i { b } else { b + 1 };
        assert(r[a] == s[a1] && r[b] == s[b1]);
    }
    if has_key(r, s[i].0) {
        let j = key_index(r, s[i].0);
        let j1 = if j < i { j } else { j + 1 };
        assert(r[j] == s[j1]);
    }
}

pub proof fn lemma_unique_staged(s: Seq<EntryView>, k: EntryKeyView, v: EntryValueView)
    requires
        keys_unique(s),
    ensures
        keys_unique(staged_put(s, k, v)),
        total_bytes(staged_put(s, k, v)) == total_bytes(without_key(s, k)) + entry_bytes((k, v)),
{
    let w = without_key(s, k);
    if has_key(s, k) {
        lemma_unique_remove(s, key_index(s, k));
    }
    assert(!has_key(w, k));
    let t = w.push((k, v));
    assert forall|a: int, b: int| 0 <= a < b < t.len() implies (#[trigger] t[a]).0 != (
    #[trigger] t[b]).0 by {
        if b == w.len() {
            assert(t[a] == w[a]);
        } else {
            assert(t[a] == w[a] && t[b] == w[b]);
        }
    }
    lemma_total_push(w, (k, v));
}

pub proof fn lemma_unique_skip(s: Seq<EntryView>, n: int)
    requires
        keys_unique(s),
        0 <= n <= s.len(),
    ensures
        keys_unique(s.skip(n)),
{
    let t = s.skip(n);
    assert forall|a: int, b: int| 0 <= a < b < t.len() implies (#[trigger] t[a]).0 != (
    #[trigger] t[b]).0 by {
        assert(t[a] == s[a + n] && t[b] == s[b + n]);
    }
}

/// A byte-capped map from keys to values that keeps its entries in order of
/// last use and evicts from the least recently used end.
pub struct LruStore {
    /// Least recently used first.
    entries: Vec<(EntryKey, EntryValue)>,
    content_bytes: u64,
    capacity: u64,
}

pub struct LruStoreView {
    /// Least recently used first.
    pub entries: Seq<EntryView>,
    pub capacity: nat,
}

impl View for LruStore {
    type V = LruStoreView;

    closed spec fn view(&self) -> LruStoreView {
        LruStoreView { entries: entries_view(self.entries@), capacity: self.capacity as nat }
    }
}

impl LruStoreView {
    /// The invariant of a store: keys are unique and the content fits.
    pub open spec fn wf(self) -> bool {
        &&& keys_unique(self.entries)
        &&& total_bytes(self.entries) <= self.capacity
        &&& self.capacity <= MAX_CAPACITY_BYTES
    }

    /// The byte count that the store reports.
    pub open spec fn count_bytes(self) -> nat {
        (STORE_FIXED_BYTES + total_bytes(self.entries)) as nat
    }
}

impl LruStore {
    pub closed spec fn inv(&self) -> bool {
        &&& self@.wf()
        &&& self.content_bytes == total_bytes(self@.entries)
    }

    /// An empty store that holds at most `capacity` bytes of entries.
    pub fn new(capacity: u64) -> (r: LruStore)
        requires
            capacity <= MAX_CAPACITY_BYTES,
        ensures
            r.inv(),
            r@.wf(),
            r@.entries == Seq::<EntryView>::empty(),
            r@.capacity == capacity,
    {
        let r = LruStore { entries: Vec::new(), content_bytes: 0, capacity };
        assert(r@.entries =~= Seq::<EntryView>::empty());
        r
    }

    /// The capacity in bytes.
    pub fn capacity(&self) -> (r: u64)
        ensures
            r == self@.capacity,
    {
        self.capacity
    }

    /// Number of live entries.
    pub fn len(&self) -> (r: usize)
        ensures
            r == self@.entries.len(),
    {
        self.entries.len()
    }

    /// Live bytes, including the store's fixed part.
    pub fn count_bytes(&self) -> (r: u64)
        requires
            self.inv(),
        ensures
            r == self@.count_bytes(),
            self@.wf(),
    {
        STORE_FIXED_BYTES + self.content_bytes
    }

    /// Position of the entry with key `k`, if any.
    fn find_index(&self, k: &EntryKey) -> (r: Option<usize>)
        requires
            self.inv(),
        ensures
            match r {
                Some(i) => has_key(self@.entries, k@) && i == key_index(self@.entries, k@),
                None => !has_key(self@.entries, k@),
            },
    {
        let mut i: usize = 0;
        while i < self.entries.len()
            invariant
                self.inv(),
                0 <= i <= self.entries@.len(),
                forall|j: int| 0 <= j < i ==> (#[trigger] self@.entries[j]).0 != k@,
            decreases self.entries@.len() - i,
        {
            if self.entries[i].0.same_key(k) {
                proof {
                    lemma_key_index(self@.entries, k@, i as int);
                }
                return Some(i);
            }
            i = i + 1;
        }
        None
    }

    /// The value stored under `k`, if any, without changing the order of use.
    pub fn peek(&self, k: &EntryKey) -> (r: Option<&EntryValue>)
        requires
            self.inv(),
        ensures
            has_key(self@.entries, k@) ==> r is Some && r.unwrap()@ == self@.entries[key_index(
                self@.entries,
                k@,
            )].1,
            !has_key(self@.entries, k@) ==> r is None,
    {
        match self.find_index(k) {
            None => None,
            Some(i) => Some(&self.entries[i].1),
        }
    }

    /// Looks up `k`; on a hit the entry becomes the most recently used and a
    /// copy of its value is returned.
    pub fn get(&mut self, k: &EntryKey) -> (r: Option<EntryValue>)
        requires
            old(self).inv(),
        ensures
            final(self).inv(),
            final(self)@.wf(),
            final(self)@.capacity == old(self)@.capacity,
            has_key(old(self)@.entries, k@) ==> {
                let i = key_index(old(self)@.entries, k@);
                &&& r is Some
                &&& r.unwrap()@ == old(self)@.entries[i].1
                &&& final(self)@.entries == touch(old(self)@.entries, i)
            },
            !has_key(old(self)@.entries, k@) ==> r is None && final(self)@ == old(self)@,
    {
        match self.find_index(k) {
            None => None,
            Some(i) => {
                let ghost s = self@.entries;
                let e = self.entries.remove(i);
                let v = e.1.duplicate();
                self.entries.push(e);
                proof {
                    assert(self@.entries =~= touch(s, i as int));
                    lemma_total_remove(s, i as int);
                    lemma_total_push(s.remove(i as int), s[i as int]);
                    lemma_unique_touch(s, i as int);
                }
                Some(v)
            },
        }
    }

    /// Takes the entry of key `k` out of the store, without reordering the
    /// others.
    pub fn remove(&mut self, k: &EntryKey) -> (r: Option<EntryValue>)
        requires
            old(self).inv(),
        ensures
            final(self).inv(),
            final(self)@.wf(),
            final(self)@.capacity == old(self)@.capacity,
            final(self)@.entries == without_key(old(self)@.entries, k@),
            has_key(old(self)@.entries, k@) ==> r is Some && r.unwrap()@ == old(self)@.entries[key_index(
                old(self)@.entries,
                k@,
            )].1,
            !has_key(old(self)@.entries, k@) ==> r is None,
    {
        match self.find_index(k) {
            None => None,
            Some(i) => {
                let ghost s = self@.entries;
                let e = self.entries.remove(i);
                let size = e.0.count_bytes() + e.1.count_bytes();
                proof {
                    assert(self@.entries =~= s.remove(i as int));
                    lemma_total_remove(s, i as int);
                    lemma_unique_remove(s, i as int);
                }
                self.content_bytes = (self.content_bytes as u128 - size) as u64;
                Some(e.1)
            },
        }
    }

    /// Inserts `v` under `k` as the most recently used entry, replacing any
    /// entry of the same key, then evicts least recently used entries until
    /// the content fits the capacity. Returns the evicted entries, least
    /// recently used first. A replaced entry is not among them.
    pub fn put(&mut self, k: EntryKey, v: EntryValue) -> (evicted: Vec<(EntryKey, EntryValue)>)
        requires
            old(self).inv(),
        ensures
            final(self).inv(),
            final(self)@.wf(),
            final(self)@.capacity == old(self)@.capacity,
            ({
                let staged = staged_put(old(self)@.entries, k@, v@);
                let n = evict_count(staged, old(self)@.capacity) as int;
                &&& final(self)@.entries == staged.skip(n)
                &&& entries_view(evicted@) == staged.take(n)
            }),
    {
        let ghost s = self@.entries;
        let ghost kv = k@;
        let ghost vv = v@;
        let ghost staged = staged_put(s, kv, vv);
        let ghost cap = self.capacity as nat;
        match self.find_index(&k) {
            None => {},
            Some(i) => {
                let old_entry = self.entries.remove(i);
                let old_size = old_entry.0.count_bytes() + old_entry.1.count_bytes();
                proof {
                    lemma_total_remove(s, i as int);
                }
                self.content_bytes = (self.content_bytes as u128 - old_size) as u64;
            },
        }
        let size = k.count_bytes() + v.count_bytes();
        let mut total: u128 = self.content_bytes as u128 + size;
        self.entries.push((k, v));
        proof {
            assert(self@.entries =~= staged);
            lemma_unique_staged(s, kv, vv);
        }
        let mut evicted: Vec<(EntryKey, EntryValue)> = Vec::new();
        while total > self.capacity as u128
            invariant
                self.capacity == cap,
                cap <= MAX_CAPACITY_BYTES,
                keys_unique(staged),
                evicted@.len() <= staged.len(),
                self@.entries == staged.skip(evicted@.len() as int),
                entries_view(evicted@) == staged.take(evicted@.len() as int),
                total == total_bytes(self@.entries),
                evict_count(staged, cap) == evicted@.len() + evict_count(self@.entries, cap),
            decreases self.entries@.len(),
        {
            let ghost cur = self@.entries;
            let ghost n = evicted@.len() as int;
            assert(cur.len() > 0);
            let e = self.entries.remove(0);
            let size = e.0.count_bytes() + e.1.count_bytes();
            total = total - size;
            evicted.push(e);
            proof {
                assert(self@.entries =~= cur.drop_first());
                assert(cur.drop_first() =~= staged.skip(n + 1));
                assert(entries_view(evicted@) =~= staged.take(n + 1));
            }
        }
        proof {
            lemma_unique_skip(staged, evicted@.len() as int);
        }
        self.content_bytes = total as u64;
        evicted
    }
}

} // verus!

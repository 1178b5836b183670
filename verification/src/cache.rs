//! The bounded, time-expiring cache store. Keys are cache-key byte strings,
//! values are captured upstream responses. Every entry carries the time it
//! was inserted; a lookup at time `now` returns an entry only while
//! `now < inserted_at + ttl`. An insert beyond capacity evicts the entry
//! with the smallest insertion time (the first such entry on a tie).
//!
//! Time is an explicit argument everywhere, so the store's behaviour is a
//! pure function of its model; the surrounding program supplies the clock
//! and its own synchronization around the store.

use vstd::prelude::*;
use vstd::slice::slice_to_vec;

verus! {

/// An immutable snapshot of an upstream reply.
pub struct CachedResponse {
    pub status: u16,
    pub body: Vec<u8>,
    pub content_type: Option<Vec<u8>>,
}

#[verifier::ext_equal]
pub ghost struct CachedResponseView {
    pub status: u16,
    pub body: Seq<u8>,
    pub content_type: Option<Seq<u8>>,
}

impl View for CachedResponse {
    type V = CachedResponseView;

    open spec fn view(&self) -> CachedResponseView {
        CachedResponseView {
            status: self.status,
            body: self.body@,
            content_type: match self.content_type {
                Some(ct) => Some(ct@),
                None => None,
            },
        }
    }
}

impl Clone for CachedResponse {
    fn clone(&self) -> (r: Self)
        ensures
            r@ == self@,
    {
        CachedResponse {
            status: self.status,
            body: slice_to_vec(self.body.as_slice()),
            content_type: match &self.content_type {
                Some(ct) => Some(slice_to_vec(ct.as_slice())),
                None => None,
            },
        }
    }
}

/// One model entry: what the store remembers about one key.
#[verifier::ext_equal]
pub ghost struct CacheEntry {
    pub key: Seq<u8>,
    pub value: CachedResponseView,
    pub inserted_at: u64,
}

struct Entry {
    key: Vec<u8>,
    value: CachedResponse,
    inserted_at: u64,
}

impl View for Entry {
    type V = CacheEntry;

    closed spec fn view(&self) -> CacheEntry {
        CacheEntry { key: self.key@, value: self.value@, inserted_at: self.inserted_at }
    }
}

/// No key occurs twice.
pub open spec fn keys_unique(m: Seq<CacheEntry>) -> bool {
    forall|i: int, j: int| 0 <= i < j < m.len() ==> (#[trigger] m[i]).key != (#[trigger] m[j]).key
}

/// The index of `key` in `m`, or -1 when absent (first occurrence).
pub open spec fn index_of_key(m: Seq<CacheEntry>, key: Seq<u8>) -> int
    decreases m.len(),
{
    if m.len() == 0 {
        -1
    } else if m[0].key == key {
        0
    } else {
        let r = index_of_key(m.drop_first(), key);
        if r < 0 {
            -1
        } else {
            1 + r
        }
    }
}

/// An entry is returnable at `now`: strictly younger than the TTL.
pub open spec fn entry_fresh(e: CacheEntry, now: u64, ttl: u64) -> bool {
    now < e.inserted_at + ttl
}

/// What a lookup at time `now` returns.
pub open spec fn lookup_model(m: Seq<CacheEntry>, key: Seq<u8>, now: u64, ttl: u64) -> Option<
    CachedResponseView,
> {
    let i = index_of_key(m, key);
    if i < 0 {
        None
    } else if entry_fresh(m[i], now, ttl) {
        Some(m[i].value)
    } else {
        None
    }
}

/// The index of the entry with the smallest insertion time (first on ties).
pub open spec fn oldest_index(m: Seq<CacheEntry>) -> int
    decreases m.len(),
{
    if m.len() <= 1 {
        0
    } else {
        let r = oldest_index(m.drop_last());
        if m.last().inserted_at < m[r].inserted_at {
            m.len() - 1
        } else {
            r
        }
    }
}

/// What an insert at time `now` does to the model: an existing key is
/// re-inserted at the end with the new value and time; a new key is
/// appended, evicting the oldest entry when the store is full. With zero
/// capacity nothing is ever stored.
pub open spec fn insert_model(
    m: Seq<CacheEntry>,
    key: Seq<u8>,
    value: CachedResponseView,
    now: u64,
    capacity: u64,
) -> Seq<CacheEntry> {
    let e = CacheEntry { key, value, inserted_at: now };
    let i = index_of_key(m, key);
    if i >= 0 {
        m.remove(i).push(e)
    } else if m.len() < capacity {
        m.push(e)
    } else if capacity == 0 {
        m
    } else {
        m.remove(oldest_index(m)).push(e)
    }
}

pub proof fn lemma_index_of_key_props(m: Seq<CacheEntry>, key: Seq<u8>)
    ensures
        index_of_key(m, key) >= 0 ==> {
            &&& 0 <= index_of_key(m, key) < m.len()
            &&& m[index_of_key(m, key)].key == key
            &&& forall|j: int| 0 <= j < index_of_key(m, key) ==> (#[trigger] m[j]).key != key
        },
        index_of_key(m, key) < 0 ==> index_of_key(m, key) == -1 && forall|j: int|
            0 <= j < m.len() ==> (#[trigger] m[j]).key != key,
    decreases m.len(),
{
    if m.len() > 0 && m[0].key != key {
        let d = m.drop_first();
        lemma_index_of_key_props(d, key);
        assert(forall|j: int| 0 <= j < d.len() ==> #[trigger] d[j] == m[j + 1]);
        let r = index_of_key(d, key);
        if r >= 0 {
            assert(m[r + 1].key == key);
            assert forall|j: int| 0 <= j < r + 1 implies (#[trigger] m[j]).key != key by {
                if j > 0 {
                    assert(d[j - 1].key != key);
                }
            }
        } else {
            assert forall|j: int| 0 <= j < m.len() implies (#[trigger] m[j]).key != key by {
                if j > 0 {
                    assert(d[j - 1].key != key);
                }
            }
        }
    }
}

pub proof fn lemma_index_of_key_at(m: Seq<CacheEntry>, key: Seq<u8>, i: int)
    requires
        0 <= i < m.len(),
        m[i].key == key,
        forall|j: int| 0 <= j < i ==> (#[trigger] m[j]).key != key,
    ensures
        index_of_key(m, key) == i,
    decreases m.len(),
{
    if i > 0 {
        assert(m.drop_first()[i - 1].key == key);
        assert(forall|j: int|
            0 <= j < m.drop_first().len() ==> #[trigger] m.drop_first()[j] == m[j + 1]);
        lemma_index_of_key_at(m.drop_first(), key, i - 1);
    }
}

pub proof fn lemma_index_of_key_absent(m: Seq<CacheEntry>, key: Seq<u8>)
    requires
        forall|j: int| 0 <= j < m.len() ==> (#[trigger] m[j]).key != key,
    ensures
        index_of_key(m, key) == -1,
    decreases m.len(),
{
    if m.len() > 0 {
        assert(forall|j: int|
            0 <= j < m.drop_first().len() ==> #[trigger] m.drop_first()[j] == m[j + 1]);
        lemma_index_of_key_absent(m.drop_first(), key);
    }
}

pub proof fn lemma_oldest_index_bounds(m: Seq<CacheEntry>)
    requires
        m.len() >= 1,
    ensures
        0 <= oldest_index(m) < m.len(),
        forall|j: int|
            0 <= j < m.len() ==> m[oldest_index(m)].inserted_at <= (#[trigger] m[j]).inserted_at,
    decreases m.len(),
{
    if m.len() > 1 {
        let d = m.drop_last();
        lemma_oldest_index_bounds(d);
        assert(forall|j: int| 0 <= j < d.len() ==> #[trigger] d[j] == m[j]);
        let r = oldest_index(d);
        assert forall|j: int| 0 <= j < m.len() implies m[oldest_index(m)].inserted_at
            <= (#[trigger] m[j]).inserted_at by {
            if j < d.len() {
                assert(d[r].inserted_at <= d[j].inserted_at);
            }
        }
    }
}

/// Inserting keeps keys unique.
pub proof fn lemma_insert_model_unique(
    m: Seq<CacheEntry>,
    key: Seq<u8>,
    value: CachedResponseView,
    now: u64,
    capacity: u64,
)
    requires
        keys_unique(m),
    ensures
        keys_unique(insert_model(m, key, value, now, capacity)),
{
    lemma_index_of_key_props(m, key);
    let i = index_of_key(m, key);
    if i >= 0 {
        let m1 = m.remove(i);
        assert forall|j: int| 0 <= j < m1.len() implies (#[trigger] m1[j]).key != key by {
            if j < i {
                assert(m1[j] == m[j]);
            } else {
                assert(m1[j] == m[j + 1]);
            }
        }
        assert(keys_unique(m1.push(CacheEntry { key, value, inserted_at: now })));
    } else if m.len() < capacity {
        assert(keys_unique(m.push(CacheEntry { key, value, inserted_at: now })));
    } else if capacity == 0 {
    } else {
        lemma_oldest_index_bounds(m);
        let oi = oldest_index(m);
        let m1 = m.remove(oi);
        assert forall|j: int| 0 <= j < m1.len() implies (#[trigger] m1[j]).key != key by {
            if j < oi {
                assert(m1[j] == m[j]);
            } else {
                assert(m1[j] == m[j + 1]);
            }
        }
        assert(keys_unique(m1.push(CacheEntry { key, value, inserted_at: now })));
    }
}

/// Capacity law: an insert never grows the store past its capacity.
pub proof fn lemma_insert_model_bounded(
    m: Seq<CacheEntry>,
    key: Seq<u8>,
    value: CachedResponseView,
    now: u64,
    capacity: u64,
)
    requires
        m.len() <= capacity,
    ensures
        insert_model(m, key, value, now, capacity).len() <= capacity,
{
    lemma_index_of_key_props(m, key);
    if index_of_key(m, key) < 0 && !(m.len() < capacity) && capacity != 0 {
        lemma_oldest_index_bounds(m);
    }
}

/// With any capacity at all, an insert always lands: the inserted entry is
/// the last one, and it is the one a lookup of its key finds.
pub proof fn lemma_insert_model_found(
    m: Seq<CacheEntry>,
    key: Seq<u8>,
    value: CachedResponseView,
    now: u64,
    capacity: u64,
)
    requires
        keys_unique(m),
        capacity >= 1,
    ensures
        ({
            let m2 = insert_model(m, key, value, now, capacity);
            &&& m2.len() >= 1
            &&& index_of_key(m2, key) == m2.len() - 1
            &&& m2.last() == CacheEntry { key, value, inserted_at: now }
        }),
{
    lemma_index_of_key_props(m, key);
    let e = CacheEntry { key, value, inserted_at: now };
    let i = index_of_key(m, key);
    let prefix = if i >= 0 {
        m.remove(i)
    } else if m.len() < capacity {
        m
    } else {
        lemma_oldest_index_bounds(m);
        m.remove(oldest_index(m))
    };
    let m2 = prefix.push(e);
    assert(insert_model(m, key, value, now, capacity) == m2);
    assert forall|j: int| 0 <= j < prefix.len() implies (#[trigger] prefix[j]).key != key by {
        if i >= 0 {
            if j < i {
                assert(prefix[j] == m[j]);
            } else {
                assert(prefix[j] == m[j + 1]);
            }
        } else if m.len() < capacity {
        } else {
            let oi = oldest_index(m);
            if j < oi {
                assert(prefix[j] == m[j]);
            } else {
                assert(prefix[j] == m[j + 1]);
            }
        }
    }
    lemma_index_of_key_at(m2, key, prefix.len() as int);
}

/// A fresh insert is found by a lookup before its TTL runs out.
pub proof fn lemma_insert_then_get(
    m: Seq<CacheEntry>,
    key: Seq<u8>,
    value: CachedResponseView,
    t_insert: u64,
    t_query: u64,
    ttl: u64,
    capacity: u64,
)
    requires
        keys_unique(m),
        capacity >= 1,
        t_insert <= t_query,
        t_query < t_insert + ttl,
    ensures
        lookup_model(insert_model(m, key, value, t_insert, capacity), key, t_query, ttl)
            == Some(value),
{
    lemma_insert_model_found(m, key, value, t_insert, capacity);
}

/// Idempotence law: after two inserts under one key, a lookup within the
/// second insert's TTL window returns the second value.
pub proof fn lemma_insert_overwrites(
    m: Seq<CacheEntry>,
    key: Seq<u8>,
    first: CachedResponseView,
    second: CachedResponseView,
    t1: u64,
    t2: u64,
    t_query: u64,
    ttl: u64,
    capacity: u64,
)
    requires
        keys_unique(m),
        capacity >= 1,
        t2 <= t_query,
        t_query < t2 + ttl,
    ensures
        lookup_model(
            insert_model(insert_model(m, key, first, t1, capacity), key, second, t2, capacity),
            key,
            t_query,
            ttl,
        ) == Some(second),
{
    lemma_insert_model_unique(m, key, first, t1, capacity);
    lemma_insert_then_get(insert_model(m, key, first, t1, capacity), key, second, t2, t_query,
        ttl, capacity);
}

/// TTL law: an entry inserted at `t` is not returned at or after `t + ttl`.
pub proof fn lemma_ttl_expiry(
    m: Seq<CacheEntry>,
    key: Seq<u8>,
    value: CachedResponseView,
    t_insert: u64,
    t_query: u64,
    ttl: u64,
    capacity: u64,
)
    requires
        keys_unique(m),
        capacity >= 1,
        t_query >= t_insert + ttl,
    ensures
        lookup_model(insert_model(m, key, value, t_insert, capacity), key, t_query, ttl)
            is None,
{
    lemma_insert_model_found(m, key, value, t_insert, capacity);
}

/// The bounded, time-expiring keyed store.
pub struct CacheStore {
    entries: Vec<Entry>,
    ttl_seconds: u64,
    max_capacity: u64,
}

/// A point-in-time read of the store's size and settings. Entries are not
/// weighed, so the weighted size equals the entry count.
pub struct CacheStats {
    pub entry_count: u64,
    pub weighted_size: u64,
    pub ttl_seconds: u64,
    pub max_capacity: u64,
}

impl CacheStore {
    pub closed spec fn model(self) -> Seq<CacheEntry> {
        self.entries@.map_values(|e: Entry| e@)
    }

    pub closed spec fn spec_ttl(self) -> u64 {
        self.ttl_seconds
    }

    pub closed spec fn spec_capacity(self) -> u64 {
        self.max_capacity
    }

    pub open spec fn wf(self) -> bool {
        keys_unique(self.model()) && self.model().len() <= self.spec_capacity()
    }

    pub fn new(ttl_seconds: u64, max_capacity: u64) -> (s: CacheStore)
        ensures
            s.wf(),
            s.model() == Seq::<CacheEntry>::empty(),
            s.spec_ttl() == ttl_seconds,
            s.spec_capacity() == max_capacity,
    {
        let s = CacheStore { entries: Vec::new(), ttl_seconds, max_capacity };
        proof {
            assert(s.model() =~= Seq::<CacheEntry>::empty());
        }
        s
    }

    /// The first entry holding `key`, as the model sees it.
    fn find_index(&self, key: &[u8]) -> (r: Option<usize>)
        ensures
            match r {
                Some(i) => i < self.model().len() && index_of_key(self.model(), key@) == i,
                None => index_of_key(self.model(), key@) == -1,
            },
    {
        let mut i: usize = 0;
        while i < self.entries.len()
            invariant
                i <= self.entries@.len(),
                self.model().len() == self.entries@.len(),
                forall|j: int| 0 <= j < i ==> (#[trigger] self.model()[j]).key != key@,
            decreases self.entries@.len() - i,
        {
            if crate::bytestr::bytes_eq(self.entries[i].key.as_slice(), key) {
                proof {
                    lemma_index_of_key_at(self.model(), key@, i as int);
                }
                return Some(i);
            }
            i = i + 1;
        }
        proof {
            lemma_index_of_key_absent(self.model(), key@);
        }
        None
    }

    /// Returns the entry under `key` if it is present and still fresh at
    /// time `now`; an entry at or past its TTL is never returned.
    pub fn get(&self, key: &[u8], now: u64) -> (r: Option<&CachedResponse>)
        ensures
            match r {
                Some(v) => lookup_model(self.model(), key@, now, self.spec_ttl()) == Some(v@),
                None => lookup_model(self.model(), key@, now, self.spec_ttl()) is None,
            },
    {
        match self.find_index(key) {
            None => None,
            Some(i) => {
                let e = &self.entries[i];
                let fresh = if now < e.inserted_at {
                    true
                } else {
                    now - e.inserted_at < self.ttl_seconds
                };
                if fresh {
                    Some(&e.value)
                } else {
                    None
                }
            },
        }
    }

    /// Stores `value` under `key` with a TTL countdown starting at `now`,
    /// evicting the oldest entry if the store is at capacity.
    pub fn insert(&mut self, key: Vec<u8>, value: CachedResponse, now: u64)
        requires
            old(self).wf(),
        ensures
            final(self).wf(),
            final(self).model() == insert_model(
                old(self).model(),
                key@,
                value@,
                now,
                old(self).spec_capacity(),
            ),
            final(self).spec_ttl() == old(self).spec_ttl(),
            final(self).spec_capacity() == old(self).spec_capacity(),
    {
        proof {
            lemma_insert_model_unique(old(self).model(), key@, value@, now,
                old(self).spec_capacity());
            lemma_insert_model_bounded(old(self).model(), key@, value@, now,
                old(self).spec_capacity());
        }
        let ghost m0 = self.model();
        let entry = Entry { key, value, inserted_at: now };
        match self.find_index(entry.key.as_slice()) {
            Some(i) => {
                self.entries.remove(i);
                proof {
                    assert(self.model() =~= m0.remove(i as int));
                }
                self.entries.push(entry);
                proof {
                    assert(self.model() =~= m0.remove(i as int).push(entry@));
                }
            },
            None => {
                if (self.entries.len() as u64) < self.max_capacity {
                    self.entries.push(entry);
                    proof {
                        assert(self.model() =~= m0.push(entry@));
                    }
                } else if self.max_capacity == 0 {
                    proof {
                        assert(self.model() =~= m0);
                    }
                } else {
                    let oi = self.find_oldest();
                    self.entries.remove(oi);
                    proof {
                        assert(self.model() =~= m0.remove(oi as int));
                    }
                    self.entries.push(entry);
                    proof {
                        assert(self.model() =~= m0.remove(oi as int).push(entry@));
                    }
                }
            },
        }
    }

    /// The index of the entry with the smallest insertion time.
    fn find_oldest(&self) -> (r: usize)
        requires
            self.model().len() >= 1,
        ensures
            r < self.model().len(),
            r == oldest_index(self.model()),
    {
        let ghost m = self.model();
        let mut best: usize = 0;
        let mut i: usize = 1;
        proof {
            assert(m.take(1).len() == 1);
            assert(oldest_index(m.take(1)) == 0);
        }
        while i < self.entries.len()
            invariant
                1 <= i <= self.entries@.len(),
                self.model() == m,
                m.len() == self.entries@.len(),
                best < i,
                best == oldest_index(m.take(i as int)),
            decreases self.entries@.len() - i,
        {
            proof {
                assert(m.take(i + 1).drop_last() =~= m.take(i as int));
                assert(m.take(i + 1).last() == m[i as int]);
                lemma_oldest_index_bounds(m.take(i as int));
            }
            if self.entries[i].inserted_at < self.entries[best].inserted_at {
                best = i;
            }
            i = i + 1;
        }
        proof {
            assert(m.take(m.len() as int) =~= m);
        }
        best
    }

    pub fn stats(&self) -> (r: CacheStats)
        requires
            self.wf(),
        ensures
            r.entry_count == self.model().len(),
            r.weighted_size == self.model().len(),
            r.ttl_seconds == self.spec_ttl(),
            r.max_capacity == self.spec_capacity(),
    {
        let n = self.entries.len() as u64;
        CacheStats {
            entry_count: n,
            weighted_size: n,
            ttl_seconds: self.ttl_seconds,
            max_capacity: self.max_capacity,
        }
    }

    pub fn ttl_seconds(&self) -> (r: u64)
        ensures
            r == self.spec_ttl(),
    {
        self.ttl_seconds
    }

    pub fn max_capacity(&self) -> (r: u64)
        ensures
            r == self.spec_capacity(),
    {
        self.max_capacity
    }

    pub fn entry_count(&self) -> (r: u64)
        requires
            self.wf(),
        ensures
            r == self.model().len(),
    {
        self.entries.len() as u64
    }
}

} // verus!

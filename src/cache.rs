use lru::LruCache;
use std::num::NonZeroUsize;
use vstd::pervasive::cloned;
use vstd::prelude::*;

verus! {

/// The largest capacity a cache can be created with. The LRU map sizes its
/// hash table for its capacity up front, and that size must not overflow.
pub const MAX_CACHE_CAPACITY: usize = 0xffff_ffff;

#[verifier::external_type_specification]
#[verifier::external_body]
#[verifier::reject_recursive_types(K)]
#[verifier::reject_recursive_types(V)]
#[verifier::reject_recursive_types(S)]
pub struct ExLruCache<K, V, S>(LruCache<K, V, S>);

#[verifier::external_type_specification]
#[verifier::external_body]
pub struct ExDefaultHasher(lru::DefaultHasher);

/// What an LRU map from keys to slot numbers holds, least recently used first.
pub uninterp spec fn lru_entries(c: LruCache<String, usize>) -> Seq<(Seq<char>, usize)>;

/// The capacity an LRU map from keys to slot numbers was created with.
pub uninterp spec fn lru_capacity(c: LruCache<String, usize>) -> nat;

/// Whether some entry of `s` has key `k`.
pub open spec fn has_key<V>(s: Seq<(Seq<char>, V)>, k: Seq<char>) -> bool {
    exists|i: int| 0 <= i < s.len() && s[i].0 == k
}

/// The position of the entry of `s` with key `k`.
pub open spec fn key_index<V>(s: Seq<(Seq<char>, V)>, k: Seq<char>) -> int {
    choose|i: int| 0 <= i < s.len() && s[i].0 == k
}

/// No two entries of `s` share a key.
pub open spec fn keys_distinct<V>(s: Seq<(Seq<char>, V)>) -> bool {
    forall|i: int, j: int| 0 <= i < s.len() && 0 <= j < s.len() && i != j ==> s[i].0 != s[j].0
}

/// Relies on `LruCache::new`: an empty map that holds at most `cap` entries.
#[verifier::external_body]
fn lru_new(cap: usize) -> (r: LruCache<String, usize>)
    requires
        0 < cap <= MAX_CACHE_CAPACITY,
    ensures
        lru_entries(r) == Seq::<(Seq<char>, usize)>::empty(),
        lru_capacity(r) == cap,
{
    LruCache::new(NonZeroUsize::new(cap).unwrap())
}

/// Relies on `LruCache::get`: returns the value under `k` and makes that
/// entry the most recently used one.
#[verifier::external_body]
fn lru_get(c: &mut LruCache<String, usize>, k: &str) -> (r: Option<usize>)
    ensures
        lru_capacity(*final(c)) == lru_capacity(*old(c)),
        ({
            let e = lru_entries(*old(c));
            let i = key_index(e, k@);
            if has_key(e, k@) {
                &&& r == Some(e[i].1)
                &&& lru_entries(*final(c)) == e.remove(i).push(e[i])
            } else {
                &&& r is None
                &&& lru_entries(*final(c)) == e
            }
        }),
{
    c.get(k).copied()
}

/// Relies on `LruCache::pop`: removes the entry under `k` and returns its value.
#[verifier::external_body]
fn lru_pop(c: &mut LruCache<String, usize>, k: &str) -> (r: Option<usize>)
    ensures
        lru_capacity(*final(c)) == lru_capacity(*old(c)),
        ({
            let e = lru_entries(*old(c));
            let i = key_index(e, k@);
            if has_key(e, k@) {
                &&& r == Some(e[i].1)
                &&& lru_entries(*final(c)) == e.remove(i)
            } else {
                &&& r is None
                &&& lru_entries(*final(c)) == e
            }
        }),
{
    c.pop(k)
}

/// Relies on `LruCache::pop_lru`: removes and returns the least recently used entry.
#[verifier::external_body]
fn lru_pop_lru(c: &mut LruCache<String, usize>) -> (r: Option<(String, usize)>)
    ensures
        lru_capacity(*final(c)) == lru_capacity(*old(c)),
        ({
            let e = lru_entries(*old(c));
            if e.len() > 0 {
                &&& r matches Some((k, v)) && k@ == e[0].0 && v == e[0].1
                &&& lru_entries(*final(c)) == e.remove(0)
            } else {
                &&& r is None
                &&& lru_entries(*final(c)) == e
            }
        }),
{
    c.pop_lru()
}

/// Relies on `LruCache::put`: a key that is absent, put into a map below its
/// capacity, becomes the most recently used entry and nothing is evicted.
#[verifier::external_body]
fn lru_put(c: &mut LruCache<String, usize>, k: String, v: usize)
    requires
        !has_key(lru_entries(*old(c)), k@),
        lru_entries(*old(c)).len() < lru_capacity(*old(c)),
    ensures
        lru_capacity(*final(c)) == lru_capacity(*old(c)),
        lru_entries(*final(c)) == lru_entries(*old(c)).push((k@, v)),
{
    c.put(k, v);
}

/// Relies on `LruCache::clear`: removes every entry.
#[verifier::external_body]
fn lru_clear(c: &mut LruCache<String, usize>)
    ensures
        lru_capacity(*final(c)) == lru_capacity(*old(c)),
        lru_entries(*final(c)) == Seq::<(Seq<char>, usize)>::empty(),
{
    c.clear()
}

/// Relies on `LruCache::len`: the number of entries.
#[verifier::external_body]
fn lru_len(c: &LruCache<String, usize>) -> (r: usize)
    ensures
        r == lru_entries(*c).len(),
{
    c.len()
}

/// A cached value with the instant (in milliseconds) after which it is stale.
#[derive(Clone, Debug)]
pub struct CacheEntry<T> {
    pub data: T,
    pub expires_at: u64,
}

impl<T> CacheEntry<T> {
    /// Whether the entry is stale at time `now`.
    pub open spec fn expired_at(&self, now: u64) -> bool {
        now > self.expires_at
    }

    /// Checks whether the entry is stale at time `now`.
    pub fn is_expired(&self, now: u64) -> (r: bool)
        ensures
            r == self.expired_at(now),
    {
        now > self.expires_at
    }
}

/// The model of a cache: its entries, least recently used first.
pub type CacheModel<T> = Seq<(Seq<char>, CacheEntry<T>)>;

/// What `get(key)` at time `now` returns.
pub open spec fn lookup<T>(v: CacheModel<T>, key: Seq<char>, now: u64) -> Option<T> {
    let i = key_index(v, key);
    if has_key(v, key) && !v[i].1.expired_at(now) {
        Some(v[i].1.data)
    } else {
        None
    }
}

/// The entries after `get(key)` at time `now`: a live entry becomes the most
/// recently used one, a stale one is dropped.
pub open spec fn after_lookup<T>(v: CacheModel<T>, key: Seq<char>, now: u64) -> CacheModel<T> {
    let i = key_index(v, key);
    if !has_key(v, key) {
        v
    } else if v[i].1.expired_at(now) {
        v.remove(i)
    } else {
        v.remove(i).push(v[i])
    }
}

/// The entries after inserting `entry` under `key` into a cache of capacity
/// `cap`: an existing entry under the key is replaced and becomes the most
/// recently used one; a new key in a full cache first evicts the least
/// recently used entry.
pub open spec fn after_insert<T>(
    v: CacheModel<T>,
    key: Seq<char>,
    entry: CacheEntry<T>,
    cap: nat,
) -> CacheModel<T> {
    if has_key(v, key) {
        v.remove(key_index(v, key)).push((key, entry))
    } else if v.len() >= cap {
        v.remove(0).push((key, entry))
    } else {
        v.push((key, entry))
    }
}

/// The expiry instant of an entry stored at `now` with time-to-live `ttl`.
pub open spec fn expiry(now: u64, ttl: u64) -> u64 {
    if now + ttl > u64::MAX {
        u64::MAX
    } else {
        (now + ttl) as u64
    }
}

proof fn lemma_key_index<V>(s: Seq<(Seq<char>, V)>, i: int, k: Seq<char>)
    requires
        keys_distinct(s),
        0 <= i < s.len(),
        s[i].0 == k,
    ensures
        has_key(s, k),
        key_index(s, k) == i,
{
    assert(has_key(s, k));
}

/// Making entry `i` the most recently used keeps keys and slots distinct,
/// every slot in use valid, and the free slots apart from those in use.
proof fn lemma_promote_keeps_parts<T>(
    e: Seq<(Seq<char>, usize)>,
    i: int,
    slots: Seq<Option<CacheEntry<T>>>,
    free: Seq<usize>,
)
    requires
        0 <= i < e.len(),
        keys_distinct(e),
        forall|a: int, b: int| 0 <= a < e.len() && 0 <= b < e.len() && a != b ==> e[a].1 != e[b].1,
        forall|a: int| 0 <= a < e.len() ==> e[a].1 < slots.len() && slots[e[a].1 as int] is Some,
        forall|f: int, a: int| 0 <= f < free.len() && 0 <= a < e.len() ==> free[f] != e[a].1,
    ensures
        ({
            let e1 = e.remove(i).push(e[i]);
            &&& keys_distinct(e1)
            &&& forall|a: int, b: int|
                0 <= a < e1.len() && 0 <= b < e1.len() && a != b ==> e1[a].1 != e1[b].1
            &&& forall|a: int|
                0 <= a < e1.len() ==> e1[a].1 < slots.len() && slots[e1[a].1 as int] is Some
            &&& forall|f: int, a: int| 0 <= f < free.len() && 0 <= a < e1.len() ==> free[f] != e1[a].1
        }),
{
    let e1 = e.remove(i).push(e[i]);
    assert forall|a: int| 0 <= a < e1.len() implies e1[a] == e[if a < i {
        a
    } else if a < e1.len() - 1 {
        a + 1
    } else {
        i
    }] by {}
    assert forall|a: int, b: int|
        0 <= a < e1.len() && 0 <= b < e1.len() && a != b implies e1[a].1 != e1[b].1 && e1[a].0
        != e1[b].0 by {
        let sa = if a < i {
            a
        } else if a < e1.len() - 1 {
            a + 1
        } else {
            i
        };
        let sb = if b < i {
            b
        } else if b < e1.len() - 1 {
            b + 1
        } else {
            i
        };
        assert(e1[a] == e[sa]);
        assert(e1[b] == e[sb]);
    }
}

/// Generic LRU cache with a time-to-live for every entry.
///
/// Keys live in an LRU map that records, for each key, the slot of `slots`
/// holding its entry; `free` lists the slots that hold nothing.
pub struct GenericCache<T> {
    map: LruCache<String, usize>,
    slots: Vec<Option<CacheEntry<T>>>,
    free: Vec<usize>,
    capacity: usize,
    ttl_ms: u64,
}

impl<T> View for GenericCache<T> {
    type V = CacheModel<T>;

    closed spec fn view(&self) -> CacheModel<T> {
        lru_entries(self.map).map_values(
            |e: (Seq<char>, usize)| (e.0, self.slots@[e.1 as int]->0),
        )
    }
}

impl<T: Clone> GenericCache<T> {
    /// The most entries the cache holds.
    pub closed spec fn capacity(&self) -> nat {
        self.capacity as nat
    }

    /// How long, in milliseconds, an entry stays fresh.
    pub closed spec fn ttl(&self) -> u64 {
        self.ttl_ms
    }

    /// The cache's internal invariant, except that `spare` slots are
    /// neither in use nor listed as free.
    closed spec fn parts_ok(&self, spare: nat) -> bool {
        let e = lru_entries(self.map);
        let slots = self.slots@;
        let free = self.free@;
        &&& 0 < self.capacity <= MAX_CACHE_CAPACITY
        &&& lru_capacity(self.map) == self.capacity
        &&& keys_distinct(e)
        &&& forall|i: int, j: int| 0 <= i < e.len() && 0 <= j < e.len() && i != j ==> e[i].1 != e[j].1
        &&& forall|i: int| 0 <= i < e.len() ==> e[i].1 < slots.len() && slots[e[i].1 as int] is Some
        &&& forall|i: int| 0 <= i < free.len() ==> free[i] < slots.len()
        &&& forall|i: int, j: int| 0 <= i < free.len() && 0 <= j < free.len() && i != j ==> free[i] != free[j]
        &&& forall|i: int, j: int| 0 <= i < free.len() && 0 <= j < e.len() ==> free[i] != e[j].1
        &&& e.len() + free.len() + spare == slots.len()
        &&& slots.len() <= self.capacity
    }

    /// The cache's internal invariant.
    pub closed spec fn wf(&self) -> bool {
        self.parts_ok(0)
    }

    /// Creates a cache holding at most `capacity` entries, each fresh for
    /// `ttl_ms` milliseconds after its insertion.
    pub fn new(capacity: usize, ttl_ms: u64) -> (r: Self)
        requires
            0 < capacity <= MAX_CACHE_CAPACITY,
        ensures
            r.wf(),
            r@ == CacheModel::<T>::empty(),
            r.capacity() == capacity,
            r.ttl() == ttl_ms,
    {
        let r = GenericCache {
            map: lru_new(capacity),
            slots: Vec::new(),
            free: Vec::new(),
            capacity,
            ttl_ms,
        };
        assert(r@ =~= CacheModel::<T>::empty());
        r
    }

    /// Marks `slot`, which no entry uses any longer, as free.
    fn release(&mut self, slot: usize)
        requires
            old(self).parts_ok(1),
            slot < old(self).slots@.len(),
            forall|i: int| 0 <= i < old(self).free@.len() ==> old(self).free@[i] != slot,
            forall|i: int|
                0 <= i < lru_entries(old(self).map).len() ==> lru_entries(old(self).map)[i].1
                    != slot,
        ensures
            final(self).wf(),
            final(self)@ == old(self)@,
            final(self).capacity == old(self).capacity,
            final(self).ttl_ms == old(self).ttl_ms,
    {
        self.slots.set(slot, None);
        self.free.push(slot);
        assert(self@ =~= old(self)@);
    }

    /// Stores `entry` under `key`, which is absent, in a cache below capacity.
    fn attach(&mut self, key: String, entry: CacheEntry<T>)
        requires
            old(self).wf(),
            !has_key(old(self)@, key@),
            old(self)@.len() < old(self).capacity(),
        ensures
            final(self).wf(),
            final(self)@ == old(self)@.push((key@, entry)),
            final(self).capacity == old(self).capacity,
            final(self).ttl_ms == old(self).ttl_ms,
    {
        let ghost e = lru_entries(self.map);
        let ghost old_view = self@;
        proof {
            if has_key(e, key@) {
                let i = key_index(e, key@);
                assert(old_view[i].0 == key@);
            }
        }
        let slot: usize = match self.free.pop() {
            Some(s) => s,
            None => {
                self.slots.push(None);
                self.slots.len() - 1
            },
        };
        proof {
            assert forall|i: int| 0 <= i < e.len() implies e[i].1 != slot by {
                if self.free@.len() + 1 == old(self).free@.len() {
                    assert(old(self).free@[old(self).free@.len() - 1] == slot);
                }
            }
        }
        lru_put(&mut self.map, key, slot);
        self.slots.set(slot, Some(entry));
        proof {
            let e2 = lru_entries(self.map);
            assert(e2 == e.push((key@, slot)));
            assert forall|i: int| 0 <= i < self.free@.len() implies self.free@[i]
                != slot by {
                assert(old(self).free@[i] == self.free@[i]);
            }
            assert(self@ =~= old_view.push((key@, entry)));
        }
    }

    /// Looks `key` up at time `now`. A live entry is returned (as a clone) and
    /// becomes the most recently used one; a stale entry is removed.
    pub fn get(&mut self, key: &str, now: u64) -> (r: Option<T>)
        requires
            old(self).wf(),
        ensures
            final(self).wf(),
            final(self).capacity() == old(self).capacity(),
            final(self).ttl() == old(self).ttl(),
            final(self)@ == after_lookup(old(self)@, key@, now),
            match lookup(old(self)@, key@, now) {
                None => r is None,
                Some(v) => r matches Some(x) && cloned(v, x),
            },
    {
        let ghost e = lru_entries(self.map);
        let ghost v0 = self@;
        proof {
            if has_key(e, key@) {
                let i = key_index(e, key@);
                assert(v0[i].0 == key@);
                lemma_key_index(v0, i, key@);
            }
            if has_key(v0, key@) {
                let i = key_index(v0, key@);
                assert(e[i].0 == key@);
            }
        }
        match lru_get(&mut self.map, key) {
            None => {
                assert(self@ =~= v0);
                None
            },
            Some(slot) => {
                let ghost i = key_index(e, key@);
                let ghost e1 = lru_entries(self.map);
                proof {
                    lemma_key_index(e, i, key@);
                    lemma_promote_keeps_parts(e, i, self.slots@, self.free@);
                    assert(self.wf());
                    assert(self@ =~= v0.remove(i).push(v0[i]));
                }
                let expired = match &self.slots[slot] {
                    Some(entry) => entry.is_expired(now),
                    None => true,
                };
                if expired {
                    proof {
                        lemma_key_index(e1, e1.len() - 1, key@);
                    }
                    let _ = lru_pop(&mut self.map, key);
                    proof {
                        let e2 = lru_entries(self.map);
                        assert(e2 =~= e.remove(i));
                        assert forall|a: int| 0 <= a < e2.len() implies e2[a].1 != slot by {
                            assert(e2[a] == e1[a]);
                        }
                        assert forall|f: int| 0 <= f < self.free@.len() implies self.free@[f]
                            != slot by {
                            assert(e1[e1.len() - 1].1 == slot);
                        }
                    }
                    self.release(slot);
                    proof {
                        assert(self@ =~= v0.remove(i));
                    }
                    None
                } else {
                    match &self.slots[slot] {
                        Some(entry) => Some(entry.data.clone()),
                        None => None,
                    }
                }
            },
        }
    }

    /// Inserts `value` under `key` at time `now`, fresh until `now + ttl`.
    /// An existing entry under the key is replaced and becomes the most
    /// recently used one; a new key in a full cache first evicts the least
    /// recently used entry.
    pub fn insert(&mut self, key: String, value: T, now: u64)
        requires
            old(self).wf(),
        ensures
            final(self).wf(),
            final(self).capacity() == old(self).capacity(),
            final(self).ttl() == old(self).ttl(),
            final(self)@ == after_insert(
                old(self)@,
                key@,
                CacheEntry { data: value, expires_at: expiry(now, old(self).ttl()) },
                old(self).capacity(),
            ),
            final(self)@.len() <= final(self).capacity(),
    {
        let ghost e = lru_entries(self.map);
        let ghost v0 = self@;
        let expires_at = now.saturating_add(self.ttl_ms);
        let entry = CacheEntry { data: value, expires_at };
        proof {
            if has_key(e, key@) {
                let i = key_index(e, key@);
                assert(v0[i].0 == key@);
                lemma_key_index(v0, i, key@);
            }
            if has_key(v0, key@) {
                let i = key_index(v0, key@);
                assert(e[i].0 == key@);
            }
        }
        match lru_get(&mut self.map, key.as_str()) {
            Some(slot) => {
                let ghost i = key_index(e, key@);
                let ghost e1 = lru_entries(self.map);
                proof {
                    lemma_key_index(e, i, key@);
                    lemma_promote_keeps_parts(e, i, self.slots@, self.free@);
                }
                self.slots.set(slot, Some(entry));
                proof {
                    assert(self.wf());
                    assert(self@ =~= v0.remove(i).push((key@, entry)));
                }
            },
            None => {
                if lru_len(&self.map) == self.capacity {
                    let ghost e0 = lru_entries(self.map);
                    match lru_pop_lru(&mut self.map) {
                        Some((_, slot)) => {
                            proof {
                                let e2 = lru_entries(self.map);
                                assert forall|a: int| 0 <= a < e2.len() implies e2[a] == e0[a
                                    + 1] by {}
                                assert forall|a: int| 0 <= a < e2.len() implies e2[a].1
                                    != slot by {
                                    assert(e2[a] == e0[a + 1]);
                                }
                                assert forall|f: int| 0 <= f < self.free@.len() implies self.free@[f]
                                    != slot by {
                                    assert(e0[0].1 == slot);
                                }
                            }
                            self.release(slot);
                            proof {
                                assert(self@ =~= v0.remove(0));
                            }
                        },
                        None => {},
                    }
                }
                proof {
                    if has_key(self@, key@) {
                        let j = key_index(self@, key@);
                        if self@.len() < v0.len() {
                            assert(self@[j] == v0[j + 1]);
                        }
                    }
                }
                self.attach(key, entry);
            },
        }
    }

    /// Removes every entry.
    pub fn clear(&mut self)
        requires
            old(self).wf(),
        ensures
            final(self).wf(),
            final(self).capacity() == old(self).capacity(),
            final(self).ttl() == old(self).ttl(),
            final(self)@ == CacheModel::<T>::empty(),
    {
        lru_clear(&mut self.map);
        self.slots = Vec::new();
        self.free = Vec::new();
        assert(self@ =~= CacheModel::<T>::empty());
    }

    /// The number of entries, stale ones included until a lookup drops them.
    pub fn len(&self) -> (r: usize)
        requires
            self.wf(),
        ensures
            r == self@.len(),
    {
        lru_len(&self.map)
    }

    /// Whether the cache holds no entry.
    pub fn is_empty(&self) -> (r: bool)
        requires
            self.wf(),
        ensures
            r == (self@.len() == 0),
    {
        lru_len(&self.map) == 0
    }
}

/// Thread-free LRU cache of response bodies keyed by URL.
pub struct ResponseCache {
    inner: GenericCache<String>,
}

impl View for ResponseCache {
    type V = CacheModel<String>;

    closed spec fn view(&self) -> CacheModel<String> {
        self.inner@
    }
}

impl ResponseCache {
    /// The most entries the cache holds.
    pub closed spec fn capacity(&self) -> nat {
        self.inner.capacity()
    }

    /// How long, in milliseconds, an entry stays fresh.
    pub closed spec fn ttl(&self) -> u64 {
        self.inner.ttl()
    }

    /// The cache's internal invariant.
    pub closed spec fn wf(&self) -> bool {
        self.inner.wf()
    }

    /// Creates a cache holding at most `capacity` bodies, each fresh for
    /// `ttl_ms` milliseconds after its insertion.
    pub fn new(capacity: usize, ttl_ms: u64) -> (r: Self)
        requires
            0 < capacity <= MAX_CACHE_CAPACITY,
        ensures
            r.wf(),
            r@ == CacheModel::<String>::empty(),
            r.capacity() == capacity,
            r.ttl() == ttl_ms,
    {
        ResponseCache { inner: GenericCache::new(capacity, ttl_ms) }
    }

    /// Looks `key` up at time `now`; see [`GenericCache::get`].
    pub fn get(&mut self, key: &str, now: u64) -> (r: Option<String>)
        requires
            old(self).wf(),
        ensures
            final(self).wf(),
            final(self).capacity() == old(self).capacity(),
            final(self).ttl() == old(self).ttl(),
            final(self)@ == after_lookup(old(self)@, key@, now),
            r == lookup(old(self)@, key@, now),
    {
        self.inner.get(key, now)
    }

    /// Inserts `value` under `key` at time `now`; see [`GenericCache::insert`].
    pub fn insert(&mut self, key: String, value: String, now: u64)
        requires
            old(self).wf(),
        ensures
            final(self).wf(),
            final(self).capacity() == old(self).capacity(),
            final(self).ttl() == old(self).ttl(),
            final(self)@ == after_insert(
                old(self)@,
                key@,
                CacheEntry { data: value, expires_at: expiry(now, old(self).ttl()) },
                old(self).capacity(),
            ),
            final(self)@.len() <= final(self).capacity(),
    {
        self.inner.insert(key, value, now)
    }

    /// Removes every entry.
    pub fn clear(&mut self)
        requires
            old(self).wf(),
        ensures
            final(self).wf(),
            final(self).capacity() == old(self).capacity(),
            final(self).ttl() == old(self).ttl(),
            final(self)@ == CacheModel::<String>::empty(),
    {
        self.inner.clear()
    }

    /// The number of entries.
    pub fn len(&self) -> (r: usize)
        requires
            self.wf(),
        ensures
            r == self@.len(),
    {
        self.inner.len()
    }

    /// Whether the cache holds no entry.
    pub fn is_empty(&self) -> (r: bool)
        requires
            self.wf(),
        ensures
            r == (self@.len() == 0),
    {
        self.inner.is_empty()
    }
}

/// A well-formed cache never holds two entries under one key.
pub proof fn lemma_keys_distinct<T: Clone>(c: GenericCache<T>)
    requires
        c.wf(),
    ensures
        keys_distinct(c@),
        c@.len() <= c.capacity(),
{
    let e = lru_entries(c.map);
    assert forall|i: int, j: int|
        0 <= i < c@.len() && 0 <= j < c@.len() && i != j implies c@[i].0 != c@[j].0 by {
        assert(c@[i].0 == e[i].0);
        assert(c@[j].0 == e[j].0);
    }
}

/// A well-formed response cache never holds two entries under one key, nor
/// more entries than its capacity.
pub proof fn lemma_response_keys_distinct(c: ResponseCache)
    requires
        c.wf(),
    ensures
        keys_distinct(c@),
        c@.len() <= c.capacity(),
{
    lemma_keys_distinct(c.inner);
}

/// Inserting never takes a cache past its capacity; inserting a new key into
/// a full cache evicts exactly the least recently used entry and keeps every
/// other one.
pub proof fn lemma_insert_respects_capacity<T>(
    v: CacheModel<T>,
    key: Seq<char>,
    entry: CacheEntry<T>,
    cap: nat,
)
    requires
        keys_distinct(v),
        0 < cap,
        v.len() <= cap,
    ensures
        after_insert(v, key, entry, cap).len() <= cap,
        keys_distinct(after_insert(v, key, entry, cap)),
        !has_key(v, key) && v.len() == cap ==> {
            &&& !has_key(after_insert(v, key, entry, cap), v[0].0)
            &&& forall|i: int|
                1 <= i < v.len() ==> has_key(after_insert(v, key, entry, cap), #[trigger] v[i].0)
        },
{
    let w = after_insert(v, key, entry, cap);
    if has_key(v, key) {
        let k = key_index(v, key);
        assert forall|a: int, b: int|
            0 <= a < w.len() && 0 <= b < w.len() && a != b implies w[a].0 != w[b].0 by {
            if a < w.len() - 1 && b < w.len() - 1 {
                let sa = if a < k { a } else { a + 1 };
                let sb = if b < k { b } else { b + 1 };
                assert(w[a] == v[sa]);
                assert(w[b] == v[sb]);
            } else if a < w.len() - 1 {
                let sa = if a < k { a } else { a + 1 };
                assert(w[a] == v[sa]);
            } else {
                let sb = if b < k { b } else { b + 1 };
                assert(w[b] == v[sb]);
            }
        }
    } else if v.len() >= cap {
        assert forall|a: int, b: int|
            0 <= a < w.len() && 0 <= b < w.len() && a != b implies w[a].0 != w[b].0 by {
            if a < w.len() - 1 {
                assert(w[a] == v[a + 1]);
            }
            if b < w.len() - 1 {
                assert(w[b] == v[b + 1]);
            }
        }
        if has_key(w, v[0].0) {
            let j = key_index(w, v[0].0);
            if j < w.len() - 1 {
                assert(w[j] == v[j + 1]);
            } else {
                assert(v[0].0 != key);
            }
        }
        assert forall|i: int| 1 <= i < v.len() implies has_key(w, #[trigger] v[i].0) by {
            assert(w[i - 1] == v[i]);
        }
    } else {
        assert forall|a: int, b: int|
            0 <= a < w.len() && 0 <= b < w.len() && a != b implies w[a].0 != w[b].0 by {
            if a < w.len() - 1 {
                assert(w[a] == v[a]);
            }
            if b < w.len() - 1 {
                assert(w[b] == v[b]);
            }
        }
    }
}

/// A lookup of another key leaves an entry in the cache, and what a lookup
/// of it returns, unchanged (other than its place in the recency order).
pub proof fn lemma_lookup_other_key<T>(
    v: CacheModel<T>,
    k: Seq<char>,
    other: Seq<char>,
    now: u64,
    t: u64,
)
    requires
        keys_distinct(v),
        has_key(v, k),
        k != other,
    ensures
        keys_distinct(after_lookup(v, other, now)),
        after_lookup(v, other, now).len() <= v.len(),
        has_key(after_lookup(v, other, now), k),
        lookup(after_lookup(v, other, now), k, t) == lookup(v, k, t),
{
    let j = key_index(v, k);
    lemma_key_index(v, j, k);
    let w = after_lookup(v, other, now);
    if has_key(v, other) {
        let i = key_index(v, other);
        lemma_key_index(v, i, other);
        assert forall|a: int| 0 <= a < v.len() - 1 implies w[a] == v[if a < i {
            a
        } else {
            a + 1
        }] by {}
        assert forall|a: int, b: int|
            0 <= a < w.len() && 0 <= b < w.len() && a != b implies w[a].0 != w[b].0 by {
            let sa = if a == v.len() - 1 {
                i
            } else if a < i {
                a
            } else {
                a + 1
            };
            let sb = if b == v.len() - 1 {
                i
            } else if b < i {
                b
            } else {
                b + 1
            };
            assert(w[a] == v[sa]);
            assert(w[b] == v[sb]);
        }
        let pos = if j < i {
            j
        } else {
            j - 1
        };
        assert(w[pos] == v[j]);
        lemma_key_index(w, pos, k);
    }
}

/// Inserting under another key leaves an entry in the cache, and what a
/// lookup of it returns, unchanged, unless that insert evicts it: only a new
/// key in a full cache evicts, and only the least recently used entry.
pub proof fn lemma_insert_other_key<T>(
    v: CacheModel<T>,
    k: Seq<char>,
    other: Seq<char>,
    entry: CacheEntry<T>,
    cap: nat,
    t: u64,
)
    requires
        keys_distinct(v),
        0 < cap,
        v.len() <= cap,
        has_key(v, k),
        k != other,
        has_key(v, other) || v.len() < cap || v[0].0 != k,
    ensures
        has_key(after_insert(v, other, entry, cap), k),
        lookup(after_insert(v, other, entry, cap), k, t) == lookup(v, k, t),
{
    let j = key_index(v, k);
    lemma_key_index(v, j, k);
    let w = after_insert(v, other, entry, cap);
    lemma_insert_respects_capacity(v, other, entry, cap);
    if has_key(v, other) {
        let i = key_index(v, other);
        lemma_key_index(v, i, other);
        let pos = if j < i {
            j
        } else {
            j - 1
        };
        assert(w[pos] == v[j]);
        lemma_key_index(w, pos, k);
    } else if v.len() >= cap {
        assert(j != 0);
        assert(w[j - 1] == v[j]);
        lemma_key_index(w, j - 1, k);
    } else {
        assert(w[j] == v[j]);
        lemma_key_index(w, j, k);
    }
}

/// A lookup that finds its entry stale removes it: the key is gone, the
/// cache holds one entry fewer, and the other entries keep their order.
pub proof fn lemma_stale_entry_dropped<T>(v: CacheModel<T>, k: Seq<char>, now: u64)
    requires
        keys_distinct(v),
        has_key(v, k),
        v[key_index(v, k)].1.expired_at(now),
    ensures
        lookup(v, k, now) is None,
        !has_key(after_lookup(v, k, now), k),
        after_lookup(v, k, now).len() == v.len() - 1,
        after_lookup(v, k, now) == v.remove(key_index(v, k)),
{
    let i = key_index(v, k);
    lemma_key_index(v, i, k);
    let w = after_lookup(v, k, now);
    if has_key(w, k) {
        let j = key_index(w, k);
        if j < i {
            assert(w[j] == v[j]);
        } else {
            assert(w[j] == v[j + 1]);
        }
    }
}

/// An entry is returned by a lookup at any time up to its expiry instant
/// (insertion time plus time-to-live) and by none after it.
pub proof fn lemma_fresh_until_expiry<T>(
    v: CacheModel<T>,
    key: Seq<char>,
    value: T,
    now: u64,
    ttl: u64,
    cap: nat,
    t: u64,
)
    requires
        keys_distinct(v),
        0 < cap,
        v.len() <= cap,
    ensures
        t <= expiry(now, ttl) ==> lookup(
            after_insert(v, key, CacheEntry { data: value, expires_at: expiry(now, ttl) }, cap),
            key,
            t,
        ) == Some(value),
        t > expiry(now, ttl) ==> lookup(
            after_insert(v, key, CacheEntry { data: value, expires_at: expiry(now, ttl) }, cap),
            key,
            t,
        ) is None,
        now <= t <= now + ttl ==> t <= expiry(now, ttl),
{
    let entry = CacheEntry { data: value, expires_at: expiry(now, ttl) };
    let w = after_insert(v, key, entry, cap);
    lemma_insert_respects_capacity(v, key, entry, cap);
    assert(w[w.len() - 1] == (key, entry));
    lemma_key_index(w, w.len() - 1, key);
}

} // verus!

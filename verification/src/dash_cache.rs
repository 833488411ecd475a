//! A cache whose entries live in a sharded hash map.
use std::hash::Hash;
use std::time::Duration;

use vstd::prelude::*;
use vstd::std_specs::hash::obeys_key_model;

use crate::cache::{CacheConfiguration, CacheError, CacheMap};
use crate::entry::CacheEntry;
use crate::eviction::Notifier;
use crate::model::{
    cleanup_step, clear_step, contains_key_step, evict_step, get_step, insert_step,
    lemma_live_entries_bounded, refresh_step, CacheState,
};
use crate::store::{expired, lists_keys, EntryMap};
use crate::time::{duration_nanos, Stopwatch};

verus! {

/// Capacity of a cache that is configured without one.
pub const DEFAULT_CAPACITY: usize = 1024;

/// TTL, in seconds, of a cache that is configured without one.
pub const DEFAULT_TTL_SECS: u64 = 300;

/// The largest available parallelism at which a sequential cleanup beats a parallel one.
pub const RETAIN_MAX_PARALLELISM: usize = 8;

/// How a cache was put together.
pub struct Build {
    /// The number of entries that the map was made with room for.
    pub initial_capacity: usize,
    /// The number of shards that the map was made with, unless that was left to the map.
    pub shard_count: Option<usize>,
    /// Whether a cleanup drops expired entries in place, instead of looking for them in parallel.
    pub retain_cleanup: bool,
    /// The time from one cleanup to the next, if there is to be one.
    pub cleanup_interval: Option<Duration>,
}

/// A hash map with per-entry TTL expiration, backed by `DashMap`.
///
/// The operations that change the cache take it by `&mut`; put it behind a lock to share it
/// between threads.
#[verifier::reject_recursive_types(K)]
#[verifier::reject_recursive_types(V)]
pub struct DashCache<K, V> where
    K: Eq + Hash + Clone + Send + Sync + 'static,
    V: Clone + Send + Sync + 'static,
 {
    inner: EntryMap<K, V>,
    clock: Stopwatch,
    default_ttl: Duration,
    max_capacity: Option<usize>,
    use_retain_cleanup: bool,
    cleanup_interval: Option<Duration>,
    notifier: Notifier<K, V>,
}

impl<K, V> DashCache<K, V> where
    K: Eq + Hash + Clone + Send + Sync + 'static,
    V: Clone + Send + Sync + 'static,
 {
    /// How the cache was put together.
    pub closed spec fn build(&self) -> Build {
        Build {
            initial_capacity: self.inner.sizing().capacity,
            shard_count: self.inner.sizing().shard_amount,
            retain_cleanup: self.use_retain_cleanup,
            cleanup_interval: self.cleanup_interval,
        }
    }

    /// The clock that the operations of the cache read.
    pub closed spec fn clock(&self) -> Stopwatch {
        self.clock
    }

    /// The time of the cache is the time of the machine: it counts from the creation of the cache,
    /// and its latest reading is the time that has passed from then until the moment that the clock
    /// of the machine showed when it was last read.
    pub proof fn goes_by_the_system_clock(&self)
        ensures
            self.reading() == self.clock()@,
            self.clock().started_at() + self.reading() == self.clock().moment(),
    {
    }

    /// A cache never holds more entries than its capacity, if it has one.
    pub proof fn stays_within_capacity(&self)
        requires
            self.wf(),
            obeys_key_model::<K>(),
        ensures
            self.state().bounded(),
            self.state().entries.dom().finite(),
            self.state().max_capacity matches Some(capacity) ==> self.state().entries.len()
                <= capacity,
    {
    }

    /// The record of evictions is true: the eviction callback of the cache has been called with
    /// each pair in it, and without a callback there is nothing in it.
    pub proof fn every_recorded_pair_was_handed_over(&self)
        requires
            self.wf(),
        ensures
            match self.state().listener {
                Some(listener) => forall|i: int|
                    0 <= i < self.state().notified.len() ==> listener.performs(
                        (#[trigger] self.state().notified[i]).0,
                        self.state().notified[i].1,
                    ),
                None => self.state().notified.len() == 0,
            },
    {
        self.notifier.every_recorded_pair_was_handed_over();
    }

    /// Makes an empty cache. `parallelism` is the number of threads that can run at once, if it
    /// is known.
    ///
    /// Expired entries are dropped in place if there is no eviction callback to tell and the
    /// machine is small. Otherwise they are looked for in parallel.
    pub fn from_config(config: CacheConfiguration<K, V>, parallelism: Option<usize>) -> (cache:
        Self)
        requires
            config@.valid(),
        ensures
            cache.wf(),
            cache.reading() == 0,
            cache.clock().answers() == Seq::<Duration>::empty(),
            cache.state() == (CacheState::<K, V> {
                entries: Map::empty(),
                default_ttl: match config@.default_ttl {
                    Some(ttl) => duration_nanos(ttl),
                    None => 300_000_000_000,
                },
                max_capacity: config@.max_capacity,
                listener: config@.on_evict,
                notified: Seq::empty(),
            }),
            cache.build() == (Build {
                initial_capacity: match config@.initial_capacity {
                    Some(capacity) => capacity,
                    None => 1024,
                },
                shard_count: config@.shard_count,
                retain_cleanup: config@.on_evict is None && match parallelism {
                    Some(threads) => threads <= 8,
                    None => true,
                },
                cleanup_interval: config@.cleanup_interval,
            }),
    {
        let capacity = config.get_initial_capacity().unwrap_or(DEFAULT_CAPACITY);
        let inner = match config.get_shard_count() {
            Some(shards) => EntryMap::with_capacity_and_shard_amount(capacity, shards),
            None => EntryMap::with_capacity(capacity),
        };
        let has_evict = config.get_on_evict().is_some();
        let small = match parallelism {
            Some(threads) => threads <= RETAIN_MAX_PARALLELISM,
            None => true,
        };
        DashCache {
            inner,
            clock: Stopwatch::start(),
            default_ttl: config.get_default_ttl().unwrap_or(
                Duration::from_secs(DEFAULT_TTL_SECS),
            ),
            max_capacity: config.get_max_capacity(),
            use_retain_cleanup: !has_evict && small,
            cleanup_interval: config.get_cleanup_interval(),
            notifier: Notifier::new(config.get_on_evict().cloned()),
        }
    }
}

/// What is said of a cache is said of its parts: of the map that it stores in, of the clock that it
/// reads and of the callback that it calls.
proof fn cache_is_described_by_its_parts<K, V>(cache: DashCache<K, V>) where
    K: Eq + Hash + Clone + Send + Sync + 'static,
    V: Clone + Send + Sync + 'static,

    ensures
        cache.state().entries == cache.inner@,
        cache.state().default_ttl == duration_nanos(cache.default_ttl),
        cache.state().max_capacity == cache.max_capacity,
        cache.state().listener == cache.notifier.listener(),
        cache.state().notified == cache.notifier.notified(),
        cache.clock() == cache.clock,
        cache.reading() == cache.clock@,
        cache.build().initial_capacity == cache.inner.sizing().capacity,
        cache.build().shard_count == cache.inner.sizing().shard_amount,
{
}

/// The entries of `state` under `keys`, in this order.
spec fn pairs_of<K, V>(state: CacheState<K, V>, keys: Seq<K>) -> Seq<(K, V)> {
    Seq::new(keys.len(), |i: int| (keys[i], state.entries[keys[i]].value))
}

/// What is left of `before` when `keys` have been evicted one by one.
spec fn expelled<K, V>(
    before: CacheState<K, V>,
    keys: Seq<K>,
    after: CacheState<K, V>,
) -> bool {
    after =~= (CacheState {
        entries: before.entries.remove_keys(keys.to_set()),
        notified: if before.listener is Some {
            before.notified + pairs_of(before, keys)
        } else {
            before.notified
        },
        ..before
    })
}

/// Whether `keys` are different keys of stored entries.
spec fn are_stored<K, V>(state: CacheState<K, V>, keys: Seq<K>) -> bool {
    &&& keys.no_duplicates()
    &&& forall|i: int| 0 <= i < keys.len() ==> state.holds(#[trigger] keys[i])
}

/// Evicting the next key goes one step further.
proof fn lemma_expelled_next<K, V>(
    before: CacheState<K, V>,
    keys: Seq<K>,
    n: int,
    middle: CacheState<K, V>,
)
    requires
        are_stored(before, keys),
        0 <= n < keys.len(),
        expelled(before, keys.take(n), middle),
    ensures
        middle.holds(keys[n]),
        expelled(before, keys.take(n + 1), middle.expel(keys[n])),
{
    let key = keys[n];
    let done = keys.take(n);
    assert(!done.contains(key));
    assert(keys.take(n + 1) =~= done.push(key));
    assert(done.push(key).to_set() =~= done.to_set().insert(key)) by {
        assert forall|k: K| done.to_set().insert(key).contains(k) implies done.push(
            key,
        ).contains(k) by {
            if k == key {
                assert(done.push(key)[n] == key);
            } else {
                let i = choose|i: int| 0 <= i < n && done[i] == k;
                assert(done.push(key)[i] == k);
            }
        }
    }
    assert(pairs_of(before, done.push(key)) =~= pairs_of(before, done).push(
        (key, before.entries[key].value),
    ));
    assert(before.holds(keys[n]));
}

/// When all of a set of stored keys have been evicted, the eviction callback, if there is one, has
/// been told of each of them once.
proof fn lemma_expelled_all<K, V>(
    before: CacheState<K, V>,
    set: Set<K>,
    keys: Seq<K>,
    after: CacheState<K, V>,
)
    requires
        lists_keys(set, keys),
        expelled(before, keys, after),
    ensures
        after.notified_of(before, set),
        keys.to_set() == set,
{
    let pairs = pairs_of(before, keys);
    assert(before.lists(set, pairs)) by {
        assert forall|i: int| 0 <= i < pairs.len() implies set.contains(
            (#[trigger] pairs[i]).0,
        ) by {
            assert(keys.contains(keys[i]));
        }
        assert forall|key: K| #[trigger] set.contains(key) implies exists|i: int|
            0 <= i < pairs.len() && (#[trigger] pairs[i]).0 == key by {
            assert(keys.contains(key));
            let i = choose|i: int| 0 <= i < keys.len() && keys[i] == key;
            assert(pairs[i].0 == key);
        }
    }
    assert forall|key: K| keys.to_set().contains(key) == set.contains(key) by {
        assert(keys.contains(key) == set.contains(key));
    }
    assert(keys.to_set() =~= set);
}

/// Keys that list a set of stored keys are stored.
proof fn lemma_listed_keys_are_stored<K, V>(state: CacheState<K, V>, set: Set<K>, keys: Seq<K>)
    requires
        lists_keys(set, keys),
        set.subset_of(state.entries.dom()),
    ensures
        are_stored(state, keys),
{
    assert forall|i: int| 0 <= i < keys.len() implies state.holds(#[trigger] keys[i]) by {
        assert(keys.contains(keys[i]));
    }
}

impl<K, V> CacheMap<K, V> for DashCache<K, V> where
    K: Eq + Hash + Clone + Send + Sync + 'static,
    V: Clone + Send + Sync + 'static,
 {
    closed spec fn state(&self) -> CacheState<K, V> {
        CacheState {
            entries: self.inner@,
            default_ttl: duration_nanos(self.default_ttl),
            max_capacity: self.max_capacity,
            listener: self.notifier.listener(),
            notified: self.notifier.notified(),
        }
    }

    closed spec fn reading(&self) -> nat {
        self.clock@
    }

    closed spec fn wf(&self) -> bool {
        &&& self.notifier.wf()
        &&& self.use_retain_cleanup ==> self.notifier.listener() is None
        &&& obeys_key_model::<K>() ==> self.state().bounded()
    }

    fn insert(&mut self, key: K, value: V) -> (result: Result<
        (),
        CacheError,
    >)
        ensures
            final(self).build() == old(self).build(),
            final(self).clock().started_at() == old(self).clock().started_at(),
            final(self).clock().answers() == old(self).clock().answers().push(
                final(self).clock().answers().last(),
            ),
            final(self).reading() == duration_nanos(final(self).clock().answers().last()),
    {
        let ttl = self.default_ttl;
        self.insert_with_ttl(key, value, ttl)
    }

    fn insert_with_ttl(&mut self, key: K, value: V, ttl: Duration) -> (result: Result<
        (),
        CacheError,
    >)
        ensures
            final(self).build() == old(self).build(),
            final(self).clock().started_at() == old(self).clock().started_at(),
            final(self).clock().answers() == old(self).clock().answers().push(
                final(self).clock().answers().last(),
            ),
            final(self).reading() == duration_nanos(final(self).clock().answers().last()),
    {
        let now = self.clock.elapsed();
        self.insert_with_ttl_at(key, value, ttl, now)
    }

    fn get(&mut self, key: &K) -> (result: Option<V>)
        ensures
            final(self).build() == old(self).build(),
            final(self).clock().started_at() == old(self).clock().started_at(),
            final(self).clock().answers() == old(self).clock().answers().push(
                final(self).clock().answers().last(),
            ),
            final(self).reading() == duration_nanos(final(self).clock().answers().last()),
    {
        let now = self.clock.elapsed();
        self.get_at(key, now)
    }

    fn evict(&mut self, key: &K) -> (result: Option<V>)
        ensures
            final(self).build() == old(self).build(),
            final(self).clock() == old(self).clock(),
    {
        let ghost before = self.state();
        match self.inner.remove(key) {
            Some((removed, entry)) => {
                let copy = entry.value.clone();
                self.notify_evict(removed, copy);
                proof {
                    if obeys_key_model::<K>() {
                        assert(cloned(before.entries[*key].value, copy));
                        assert(self.state() == before.with_entries(
                            before.entries.remove(*key),
                        ).notify(*key, copy));
                    }
                }
                Some(entry.value)
            },
            None => {
                assert(obeys_key_model::<K>() ==> self.state() =~= before);
                None
            },
        }
    }

    fn refresh(&mut self, key: &K) -> (result: bool)
        ensures
            final(self).build() == old(self).build(),
            final(self).clock().started_at() == old(self).clock().started_at(),
            final(self).clock().answers() == old(self).clock().answers().push(
                final(self).clock().answers().last(),
            ),
            final(self).reading() == duration_nanos(final(self).clock().answers().last()),
    {
        let now = self.clock.elapsed();
        self.refresh_at(key, now)
    }

    fn contains_key(&mut self, key: &K) -> (result: bool)
        ensures
            final(self).build() == old(self).build(),
            final(self).clock().started_at() == old(self).clock().started_at(),
            final(self).clock().answers() == old(self).clock().answers().push(
                final(self).clock().answers().last(),
            ),
            final(self).reading() == duration_nanos(final(self).clock().answers().last()),
    {
        let now = self.clock.elapsed();
        self.contains_key_at(key, now)
    }

    fn len(&self) -> usize {
        self.inner.len()
    }

    fn is_empty(&self) -> bool {
        self.len() == 0
    }

    fn clear(&mut self)
        ensures
            final(self).build() == old(self).build(),
            final(self).clock() == old(self).clock(),
    {
        let ghost before = self.state();
        if self.notifier.is_listening() {
            let keys = self.inner.keys();
            proof {
                if obeys_key_model::<K>() {
                    lemma_listed_keys_are_stored(before, before.entries.dom(), keys@);
                }
            }
            self.expel_all(&keys);
            proof {
                if obeys_key_model::<K>() {
                    lemma_expelled_all(before, before.entries.dom(), keys@, self.state());
                }
            }
        }
        self.inner.clear();
    }
}

impl<K, V> DashCache<K, V> where
    K: Eq + Hash + Clone + Send + Sync + 'static,
    V: Clone + Send + Sync + 'static,
 {
    /// Stores a value for `ttl` at the time `now`.
    pub fn insert_with_ttl_at(&mut self, key: K, value: V, ttl: Duration, now: Duration) -> (result:
        Result<(), CacheError>)
        requires
            old(self).wf(),
        ensures
            final(self).wf(),
            final(self).build() == old(self).build(),
            final(self).state().follows(old(self).state()),
            final(self).reading() == old(self).reading(),
            final(self).clock() == old(self).clock(),
            obeys_key_model::<K>() ==> insert_step(
                old(self).state(),
                key,
                value,
                duration_nanos(ttl),
                duration_nanos(now),
                result,
                final(self).state(),
            ),
    {
        if let Some(capacity) = self.max_capacity {
            if self.inner.len() >= capacity {
                return Err(CacheError::MaxCapacityReached);
            }
        }
        self.inner.insert(key, CacheEntry::new(value, ttl, now));
        Ok(())
    }

    /// Reads a value at the time `now`.
    pub fn get_at(&mut self, key: &K, now: Duration) -> (result: Option<V>)
        requires
            old(self).wf(),
        ensures
            final(self).wf(),
            final(self).build() == old(self).build(),
            final(self).state().follows(old(self).state()),
            final(self).reading() == old(self).reading(),
            final(self).clock() == old(self).clock(),
            obeys_key_model::<K>() ==> get_step(
                old(self).state(),
                *key,
                duration_nanos(now),
                result,
                final(self).state(),
            ),
    {
        let value = match self.inner.get(key) {
            None => return None,
            Some(found) => {
                let entry = found.value();
                if entry.is_expired(now) {
                    None
                } else {
                    Some(entry.value.clone())
                }
            },
        };
        if value.is_none() {
            self.expel(key);
        }
        value
    }

    /// Renews an entry at the time `now`.
    pub fn refresh_at(&mut self, key: &K, now: Duration) -> (result: bool)
        requires
            old(self).wf(),
        ensures
            final(self).wf(),
            final(self).build() == old(self).build(),
            final(self).state().follows(old(self).state()),
            final(self).reading() == old(self).reading(),
            final(self).clock() == old(self).clock(),
            obeys_key_model::<K>() ==> refresh_step(
                old(self).state(),
                *key,
                duration_nanos(now),
                result,
                final(self).state(),
            ),
    {
        let expired = match self.inner.get(key) {
            None => return false,
            Some(found) => found.value().is_expired(now),
        };
        if expired {
            self.expel(key);
            return false;
        }
        let expires_at = now.as_nanos() + self.default_ttl.as_nanos();
        self.inner.renew(key, expires_at)
    }

    /// Asks for a key at the time `now`.
    pub fn contains_key_at(&mut self, key: &K, now: Duration) -> (result: bool)
        requires
            old(self).wf(),
        ensures
            final(self).wf(),
            final(self).build() == old(self).build(),
            final(self).state().follows(old(self).state()),
            final(self).reading() == old(self).reading(),
            final(self).clock() == old(self).clock(),
            obeys_key_model::<K>() ==> contains_key_step(
                old(self).state(),
                *key,
                duration_nanos(now),
                result,
                final(self).state(),
            ),
    {
        self.evict_if_expired(key, now);
        self.inner.contains_key(key)
    }

    /// Whether a cleanup is due when the last one was `since_last` ago: as soon as the configured
    /// interval has passed. Without one, no cleanup is ever due.
    pub fn is_cleanup_due(&self, since_last: Duration) -> (due: bool)
        ensures
            due == (self.build().cleanup_interval matches Some(interval) && duration_nanos(
                since_last,
            ) >= duration_nanos(interval)),
    {
        match self.cleanup_interval {
            Some(interval) => since_last.as_nanos() >= interval.as_nanos(),
            None => false,
        }
    }

    /// Remove all expired entries, in parallel where that pays.
    pub fn cleanup(&mut self)
        requires
            old(self).wf(),
        ensures
            final(self).wf(),
            final(self).build() == old(self).build(),
            final(self).state().follows(old(self).state()),
            final(self).reading() >= old(self).reading(),
            final(self).clock().started_at() == old(self).clock().started_at(),
            final(self).clock().answers() == old(self).clock().answers().push(
                final(self).clock().answers().last(),
            ),
            final(self).reading() == duration_nanos(final(self).clock().answers().last()),
            obeys_key_model::<K>() ==> cleanup_step(
                old(self).state(),
                final(self).reading(),
                final(self).state(),
            ),
    {
        let now = self.clock.elapsed();
        self.cleanup_at(now);
    }

    /// Removes all entries that have expired at the time `now`.
    pub fn cleanup_at(&mut self, now: Duration)
        requires
            old(self).wf(),
        ensures
            final(self).wf(),
            final(self).build() == old(self).build(),
            final(self).state().follows(old(self).state()),
            final(self).reading() == old(self).reading(),
            final(self).clock() == old(self).clock(),
            obeys_key_model::<K>() ==> cleanup_step(
                old(self).state(),
                duration_nanos(now),
                final(self).state(),
            ),
    {
        let ghost before = self.state();
        let ghost at = duration_nanos(now);
        if self.use_retain_cleanup {
            self.inner.retain_live(now);
            proof {
                if obeys_key_model::<K>() {
                    assert(self.inner@ =~= before.live_entries(at));
                    lemma_live_entries_bounded(before, at);
                }
            }
            return;
        }
        let expired_keys = self.inner.expired_keys(now);
        let ghost stale = before.stale_keys(at);
        proof {
            if obeys_key_model::<K>() {
                assert(expired(before.entries, at) =~= stale);
                lemma_listed_keys_are_stored(before, stale, expired_keys@);
            }
        }
        self.expel_all(&expired_keys);
        proof {
            if obeys_key_model::<K>() {
                lemma_expelled_all(before, stale, expired_keys@, self.state());
                assert(self.state().entries =~= before.live_entries(at));
            }
        }
    }

    /// Removes entries one by one, as far as they are there, and tells the eviction callback of
    /// each.
    fn expel_all(&mut self, keys: &Vec<K>)
        requires
            old(self).wf(),
        ensures
            final(self).wf(),
            final(self).build() == old(self).build(),
            final(self).state().follows(old(self).state()),
            final(self).reading() == old(self).reading(),
            final(self).clock() == old(self).clock(),
            obeys_key_model::<K>() && are_stored(old(self).state(), keys@) ==> expelled(
                old(self).state(),
                keys@,
                final(self).state(),
            ),
    {
        let ghost before = self.state();
        let mut i: usize = 0;
        while i < keys.len()
            invariant
                i <= keys.len(),
                self.wf(),
                self.build() == old(self).build(),
                self.state().follows(before),
                self.reading() == old(self).reading(),
                self.clock() == old(self).clock(),
                before == old(self).state(),
                obeys_key_model::<K>() && are_stored(before, keys@) ==> expelled(
                    before,
                    keys@.take(i as int),
                    self.state(),
                ),
            decreases keys.len() - i,
        {
            let ghost middle = self.state();
            self.expel(&keys[i]);
            proof {
                if obeys_key_model::<K>() && are_stored(before, keys@) {
                    lemma_expelled_next(before, keys@, i as int, middle);
                }
            }
            i += 1;
        }
        assert(keys@.take(keys.len() as int) =~= keys@);
    }

    /// Fires the eviction callback if one is configured.
    fn notify_evict(&mut self, key: K, value: V)
        requires
            old(self).wf(),
        ensures
            final(self).wf(),
            final(self).build() == old(self).build(),
            final(self).state().follows(old(self).state()),
            final(self).reading() == old(self).reading(),
            final(self).clock() == old(self).clock(),
            final(self).state() == old(self).state().notify(key, value),
    {
        self.notifier.notify(key, value);
    }

    /// Removes an entry, if there is one, and tells the eviction callback.
    fn expel(&mut self, key: &K)
        requires
            old(self).wf(),
        ensures
            final(self).wf(),
            final(self).build() == old(self).build(),
            final(self).state().follows(old(self).state()),
            final(self).reading() == old(self).reading(),
            final(self).clock() == old(self).clock(),
            obeys_key_model::<K>() ==> final(self).state() == if old(self).state().holds(*key) {
                old(self).state().expel(*key)
            } else {
                old(self).state()
            },
    {
        if let Some((key, entry)) = self.inner.remove(key) {
            self.notify_evict(key, entry.value);
        }
    }

    /// Evicts the entry if it has expired at the time `now`, returning `true` if it was removed.
    fn evict_if_expired(&mut self, key: &K, now: Duration) -> (result: bool)
        requires
            old(self).wf(),
        ensures
            final(self).wf(),
            final(self).build() == old(self).build(),
            final(self).state().follows(old(self).state()),
            final(self).reading() == old(self).reading(),
            final(self).clock() == old(self).clock(),
            obeys_key_model::<K>() ==> {
                &&& result == old(self).state().stale(*key, duration_nanos(now))
                &&& final(self).state() == old(self).state().touch(*key, duration_nanos(now))
            },
    {
        let expired = match self.inner.get(key) {
            None => false,
            Some(found) => found.value().is_expired(now),
        };
        if expired {
            self.expel(key);
        }
        expired
    }
}

} // verus!

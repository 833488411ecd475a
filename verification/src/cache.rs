//! The configuration of a cache, its errors, and the trait that every cache implements.
use std::hash::Hash;
use std::time::Duration;

use vstd::arithmetic::power2::is_pow2;
use vstd::prelude::*;
use vstd::std_specs::hash::obeys_key_model;

use crate::entry::CacheEntry;
use crate::eviction::EvictionListener;
use crate::model::{
    clear_step, contains_key_step, evict_step, get_step, insert_step, refresh_step, CacheState,
};
use crate::time::duration_nanos;

verus! {

/// Errors that can occur when interacting with a cache.
#[derive(Debug, Clone, Copy, PartialEq, Eq, Structural)]
pub enum CacheError {
    MaxCapacityReached,
}

impl CacheError {
    /// The error in words.
    pub fn to_string(&self) -> (text: String)
        ensures
            text@ == (match *self {
                CacheError::MaxCapacityReached => "cache has reached its maximum capacity"@,
            }),
    {
        match self {
            CacheError::MaxCapacityReached => "cache has reached its maximum capacity".to_owned(),
        }
    }
}

/// The settings in a `CacheConfiguration`.
#[verifier::reject_recursive_types(K)]
#[verifier::reject_recursive_types(V)]
pub struct Settings<K, V> {
    pub default_ttl: Option<Duration>,
    pub max_capacity: Option<usize>,
    pub initial_capacity: Option<usize>,
    pub cleanup_interval: Option<Duration>,
    pub shard_count: Option<usize>,
    pub on_evict: Option<EvictionListener<K, V>>,
}

impl<K, V> Settings<K, V> {
    /// Whether a cache can be made with these settings: the number of shards is a power of two
    /// and greater than one, the initial capacity is one that a table can have, and the eviction
    /// callback takes every pair.
    pub open spec fn valid(self) -> bool {
        &&& self.initial_capacity matches Some(capacity) ==> capacity <= isize::MAX
        &&& self.shard_count matches Some(count) ==> count > 1 && is_pow2(count as int)
        &&& self.on_evict matches Some(listener) ==> listener.total()
    }
}

/// The settings of a cache, each of them optional.
#[verifier::reject_recursive_types(K)]
#[verifier::reject_recursive_types(V)]
pub struct CacheConfiguration<K, V> where
    K: Eq + Hash + Clone + Send + Sync + 'static,
    V: Clone + Send + Sync + 'static,
 {
    /// Default TTL for entries in the cache. Can be overridden per entry.
    default_ttl: Option<Duration>,
    /// Maximum number of entries in the cache. If `None`, the cache can grow without bound.
    max_capacity: Option<usize>,
    /// Initial capacity of the cache. If `None`, a default value is used.
    initial_capacity: Option<usize>,
    /// Interval at which expired entries are to be cleaned up. A cache has no thread of its own: it
    /// tells whether a cleanup is due, and its owner runs it.
    cleanup_interval: Option<Duration>,
    /// Number of shards for the underlying concurrent map. Higher values reduce contention at
    /// the cost of slightly more memory. Defaults to four times the available parallelism,
    /// rounded up to a power of two.
    shard_count: Option<usize>,
    /// Optional callback invoked when an entry is evicted (expired or removed).
    on_evict: Option<EvictionListener<K, V>>,
}

impl<K, V> CacheConfiguration<K, V> where
    K: Eq + Hash + Clone + Send + Sync + 'static,
    V: Clone + Send + Sync + 'static,
 {
    pub closed spec fn view(&self) -> Settings<K, V> {
        Settings {
            default_ttl: self.default_ttl,
            max_capacity: self.max_capacity,
            initial_capacity: self.initial_capacity,
            cleanup_interval: self.cleanup_interval,
            shard_count: self.shard_count,
            on_evict: self.on_evict,
        }
    }

    /// A configuration in which nothing is set.
    pub fn new() -> (config: Self)
        ensures
            config@ == (Settings::<K, V> {
                default_ttl: None,
                max_capacity: None,
                initial_capacity: None,
                cleanup_interval: None,
                shard_count: None,
                on_evict: None,
            }),
    {
        CacheConfiguration {
            default_ttl: None,
            max_capacity: None,
            initial_capacity: None,
            cleanup_interval: None,
            shard_count: None,
            on_evict: None,
        }
    }

    pub fn set_default_ttl(self, ttl: Duration) -> (config: Self)
        ensures
            config@ == (Settings { default_ttl: Some(ttl), ..self@ }),
    {
        CacheConfiguration { default_ttl: Some(ttl), ..self }
    }

    pub fn set_max_capacity(self, capacity: usize) -> (config: Self)
        ensures
            config@ == (Settings { max_capacity: Some(capacity), ..self@ }),
    {
        CacheConfiguration { max_capacity: Some(capacity), ..self }
    }

    pub fn set_initial_capacity(self, capacity: usize) -> (config: Self)
        ensures
            config@ == (Settings { initial_capacity: Some(capacity), ..self@ }),
    {
        CacheConfiguration { initial_capacity: Some(capacity), ..self }
    }

    pub fn set_cleanup_interval(self, interval: Duration) -> (config: Self)
        ensures
            config@ == (Settings { cleanup_interval: Some(interval), ..self@ }),
    {
        CacheConfiguration { cleanup_interval: Some(interval), ..self }
    }

    /// Sets the number of shards for the underlying concurrent map, a power of two greater than
    /// one. A good starting point for machines with many cores is eight times their number.
    pub fn set_shard_count(self, count: usize) -> (config: Self)
        ensures
            config@ == (Settings { shard_count: Some(count), ..self@ }),
    {
        CacheConfiguration { shard_count: Some(count), ..self }
    }

    /// Sets a callback that fires when an entry is evicted. Replaces any previously set callback.
    pub fn set_on_evict(
        self,
        listener: impl Fn(K, V) + Send + Sync + 'static,
    ) -> (config: Self)
        requires
            forall|key: K, value: V| #[trigger] call_requires(listener, (key, value)),
        ensures
            config@ == (Settings { on_evict: config@.on_evict, ..self@ }),
            config@.on_evict matches Some(l) && l.calls(listener) && l.total(),
            forall|key: K, value: V| #[trigger]
                config@.on_evict->0.performs(key, value) ==> call_ensures(
                    listener,
                    (key, value),
                    (),
                ),
    {
        CacheConfiguration { on_evict: Some(EvictionListener::new(listener)), ..self }
    }

    pub fn get_default_ttl(&self) -> (ttl: Option<Duration>)
        ensures
            ttl == self@.default_ttl,
    {
        self.default_ttl
    }

    pub fn get_max_capacity(&self) -> (capacity: Option<usize>)
        ensures
            capacity == self@.max_capacity,
    {
        self.max_capacity
    }

    pub fn get_initial_capacity(&self) -> (capacity: Option<usize>)
        ensures
            capacity == self@.initial_capacity,
    {
        self.initial_capacity
    }

    pub fn get_cleanup_interval(&self) -> (interval: Option<Duration>)
        ensures
            interval == self@.cleanup_interval,
    {
        self.cleanup_interval
    }

    pub fn get_shard_count(&self) -> (count: Option<usize>)
        ensures
            count == self@.shard_count,
    {
        self.shard_count
    }

    pub fn get_on_evict(&self) -> (listener: Option<&EvictionListener<K, V>>)
        ensures
            match (listener, self@.on_evict) {
                (Some(l), Some(set)) => *l == set,
                (None, None) => true,
                _ => false,
            },
    {
        self.on_evict.as_ref()
    }
}

/// A key-value map with TTL-based expiration.
///
/// The operations that read the clock say what they do in terms of the reading that they took.
/// What they say of the entries rests on the keys being usable as hash keys: equal keys are
/// identical, hashing is deterministic, and a clone of a key equals it.
pub trait CacheMap<K, V> where
    K: Eq + Hash + Clone + Send + Sync + 'static,
    V: Clone + Send + Sync + 'static,
 {
    /// What the cache holds.
    spec fn state(&self) -> CacheState<K, V>;

    /// The latest reading of the clock, in nanoseconds.
    spec fn reading(&self) -> nat;

    /// The invariant of the cache.
    spec fn wf(&self) -> bool;

    /// Insert a value with the default TTL.
    fn insert(&mut self, key: K, value: V) -> (result: Result<(), CacheError>)
        requires
            old(self).wf(),
        ensures
            final(self).wf(),
            final(self).state().follows(old(self).state()),
            final(self).reading() >= old(self).reading(),
            obeys_key_model::<K>() ==> insert_step(
                old(self).state(),
                key,
                value,
                old(self).state().default_ttl,
                final(self).reading(),
                result,
                final(self).state(),
            ),
    ;

    /// Insert a value with a custom TTL override.
    fn insert_with_ttl(&mut self, key: K, value: V, ttl: Duration) -> (result: Result<
        (),
        CacheError,
    >)
        requires
            old(self).wf(),
        ensures
            final(self).wf(),
            final(self).state().follows(old(self).state()),
            final(self).reading() >= old(self).reading(),
            obeys_key_model::<K>() ==> insert_step(
                old(self).state(),
                key,
                value,
                duration_nanos(ttl),
                final(self).reading(),
                result,
                final(self).state(),
            ),
    ;

    /// Get a cloned value for the given key, if it exists and has not expired.
    fn get(&mut self, key: &K) -> (result: Option<V>)
        requires
            old(self).wf(),
        ensures
            final(self).wf(),
            final(self).state().follows(old(self).state()),
            final(self).reading() >= old(self).reading(),
            obeys_key_model::<K>() ==> get_step(
                old(self).state(),
                *key,
                final(self).reading(),
                result,
                final(self).state(),
            ),
    ;

    /// Evict a key immediately, returning the value if it existed.
    fn evict(&mut self, key: &K) -> (result: Option<V>)
        requires
            old(self).wf(),
        ensures
            final(self).wf(),
            final(self).state().follows(old(self).state()),
            final(self).reading() == old(self).reading(),
            obeys_key_model::<K>() ==> evict_step(
                old(self).state(),
                *key,
                result,
                final(self).state(),
            ),
    ;

    /// Refresh the TTL of an existing key, returning `true` if the key was present and refreshed.
    fn refresh(&mut self, key: &K) -> (result: bool)
        requires
            old(self).wf(),
        ensures
            final(self).wf(),
            final(self).state().follows(old(self).state()),
            final(self).reading() >= old(self).reading(),
            obeys_key_model::<K>() ==> refresh_step(
                old(self).state(),
                *key,
                final(self).reading(),
                result,
                final(self).state(),
            ),
    ;

    /// Check if a key exists and is not expired.
    fn contains_key(&mut self, key: &K) -> (result: bool)
        requires
            old(self).wf(),
        ensures
            final(self).wf(),
            final(self).state().follows(old(self).state()),
            final(self).reading() >= old(self).reading(),
            obeys_key_model::<K>() ==> contains_key_step(
                old(self).state(),
                *key,
                final(self).reading(),
                result,
                final(self).state(),
            ),
    ;

    /// Returns the total number of entries, expired ones among them.
    fn len(&self) -> (len: usize)
        requires
            self.wf(),
        ensures
            obeys_key_model::<K>() ==> len == self.state().entries.len(),
    ;

    /// Returns `true` if the map contains no entries.
    fn is_empty(&self) -> (empty: bool)
        requires
            self.wf(),
        ensures
            obeys_key_model::<K>() ==> empty == (self.state().entries.len() == 0),
    {
        self.len() == 0
    }

    /// Remove all entries. The eviction callback is told of each of them.
    fn clear(&mut self)
        requires
            old(self).wf(),
        ensures
            final(self).wf(),
            final(self).state().follows(old(self).state()),
            final(self).reading() == old(self).reading(),
            final(self).state().entries == Map::<K, CacheEntry<V>>::empty(),
            obeys_key_model::<K>() ==> clear_step(old(self).state(), final(self).state()),
    ;
}

} // verus!

//! The concurrent map that holds the entries of a cache.
use std::hash::Hash;
use std::time::Duration;

use dashmap::mapref::one::Ref;
use dashmap::DashMap;
use rayon::iter::{IntoParallelRefIterator, ParallelIterator};
use vstd::arithmetic::power2::is_pow2;
use vstd::prelude::*;
use vstd::std_specs::hash::obeys_key_model;

use crate::entry::CacheEntry;
use crate::time::duration_nanos;

verus! {

/// The sharded hash map of the `dashmap` crate.
#[verifier::external_type_specification]
#[verifier::external_body]
#[verifier::reject_recursive_types(K)]
#[verifier::reject_recursive_types(V)]
#[verifier::reject_recursive_types(S)]
pub struct ExDashMap<K, V, S>(DashMap<K, V, S>);

/// A read guard on one entry of a `DashMap`.
#[verifier::external_type_specification]
#[verifier::external_body]
#[verifier::reject_recursive_types(K)]
#[verifier::reject_recursive_types(V)]
pub struct ExRef<'a, K, V>(Ref<'a, K, V>);

/// What a map was made with.
pub(crate) struct Sizing {
    /// The number of entries to make room for.
    pub capacity: usize,
    /// The number of shards, unless it was left to the map.
    pub shard_amount: Option<usize>,
}

/// A `DashMap` from keys to entries.
///
/// Its view is the contents of the map; `sizing` is what it was made with, however it grows. A
/// `DashMap` changes behind a shared reference; here the
/// methods that change it take it by `&mut`, so that what a caller knows of the contents stays
/// true between two calls.
#[verifier::reject_recursive_types(K)]
#[verifier::reject_recursive_types(V)]
pub(crate) struct EntryMap<K, V> where
    K: Eq + Hash + Clone + Send + Sync + 'static,
    V: Clone + Send + Sync + 'static,
 {
    map: DashMap<K, CacheEntry<V>>,
    contents: Ghost<Map<K, CacheEntry<V>>>,
    sizing: Ghost<Sizing>,
}

/// A shared reference to one entry of an `EntryMap`.
///
/// Its view is the entry.
#[verifier::reject_recursive_types(K)]
#[verifier::reject_recursive_types(V)]
pub(crate) struct EntryRef<'a, K, V> where
    K: Eq + Hash + Clone + Send + Sync + 'static,
    V: Clone + Send + Sync + 'static,
 {
    guard: Ref<'a, K, CacheEntry<V>>,
    entry: Ghost<CacheEntry<V>>,
}

impl<'a, K, V> EntryRef<'a, K, V> where
    K: Eq + Hash + Clone + Send + Sync + 'static,
    V: Clone + Send + Sync + 'static,
 {
    pub(crate) closed spec fn view(&self) -> CacheEntry<V> {
        self.entry@
    }

    /// `Ref::value` returns the entry that the guard stands on.
    #[verifier::external_body]
    pub(crate) fn value(&self) -> (entry: &CacheEntry<V>)
        ensures
            *entry == self@,
    {
        self.guard.value()
    }
}

/// The keys of the entries that have expired at the time `now`.
pub open spec fn expired<K, V>(contents: Map<K, CacheEntry<V>>, now: nat) -> Set<K> {
    Set::new(|key: K| contents.contains_key(key) && contents[key].expired(now))
}

/// `keys` lists a set of keys, each of them once.
pub open spec fn lists_keys<K>(set: Set<K>, keys: Seq<K>) -> bool {
    &&& keys.no_duplicates()
    &&& forall|key: K| #[trigger] keys.contains(key) == set.contains(key)
}

impl<K, V> EntryMap<K, V> where
    K: Eq + Hash + Clone + Send + Sync + 'static,
    V: Clone + Send + Sync + 'static,
 {
    pub(crate) closed spec fn view(&self) -> Map<K, CacheEntry<V>> {
        self.contents@
    }

    /// What the map was made with.
    pub(crate) closed spec fn sizing(&self) -> Sizing {
        self.sizing@
    }

    /// `DashMap::with_capacity` makes an empty map.
    ///
    /// The capacity is rounded up to a multiple of the number of shards, which a capacity above
    /// `isize::MAX` could overflow. Running out of memory is not ruled out, neither here nor when
    /// the map grows.
    #[verifier::external_body]
    pub(crate) fn with_capacity(capacity: usize) -> (map: Self)
        requires
            capacity <= isize::MAX,
        ensures
            (map@ == Map::<K, CacheEntry<V>>::empty()),
            map.sizing() == (Sizing { capacity, shard_amount: None }),
    {
        EntryMap {
            map: DashMap::with_capacity(capacity),
            contents: Ghost(Map::empty()),
            sizing: Ghost(Sizing { capacity, shard_amount: None }),
        }
    }

    /// `DashMap::with_capacity_and_shard_amount` makes an empty map. It panics unless the number
    /// of shards is a power of two and greater than one.
    #[verifier::external_body]
    pub(crate) fn with_capacity_and_shard_amount(capacity: usize, shard_amount: usize) -> (map:
        Self)
        requires
            capacity <= isize::MAX,
            shard_amount > 1,
            is_pow2(shard_amount as int),
        ensures
            (map@ == Map::<K, CacheEntry<V>>::empty()),
            map.sizing() == (Sizing { capacity, shard_amount: Some(shard_amount) }),
    {
        EntryMap {
            map: DashMap::with_capacity_and_shard_amount(capacity, shard_amount),
            contents: Ghost(Map::empty()),
            sizing: Ghost(Sizing { capacity, shard_amount: Some(shard_amount) }),
        }
    }

    /// `DashMap::insert` stores an entry under a key and returns the one that it replaces.
    #[verifier::external_body]
    pub(crate) fn insert(&mut self, key: K, entry: CacheEntry<V>) -> (replaced: Option<
        CacheEntry<V>,
    >)
        ensures
            final(self).sizing() == old(self).sizing(),
            obeys_key_model::<K>() ==> {
                &&& final(self)@ == old(self)@.insert(key, entry)
                &&& replaced == if old(self)@.contains_key(key) {
                    Some(old(self)@[key])
                } else {
                    None
                }
            },
    {
        self.map.insert(key, entry)
    }

    /// `DashMap::remove` takes a key and its entry out of the map, if the key is there.
    #[verifier::external_body]
    pub(crate) fn remove(&mut self, key: &K) -> (removed: Option<(K, CacheEntry<V>)>)
        ensures
            final(self).sizing() == old(self).sizing(),
            obeys_key_model::<K>() ==> {
                &&& final(self)@ == old(self)@.remove(*key)
                &&& removed == if old(self)@.contains_key(*key) {
                    Some((*key, old(self)@[*key]))
                } else {
                    None
                }
            },
    {
        self.map.remove(key)
    }

    /// `DashMap::get` finds the entry under a key.
    #[verifier::external_body]
    pub(crate) fn get<'a>(&'a self, key: &K) -> (found: Option<EntryRef<'a, K, V>>)
        ensures
            obeys_key_model::<K>() ==> match found {
                Some(entry) => self@.contains_key(*key) && entry@ == self@[*key],
                None => !self@.contains_key(*key),
            },
    {
        self.map.get(key).map(|guard| EntryRef { guard, entry: Ghost(arbitrary()) })
    }

    /// `DashMap::get_mut` gives access to the entry under a key, which is renewed here. The result
    /// says whether the key is in the map.
    #[verifier::external_body]
    pub(crate) fn renew(&mut self, key: &K, expires_at: u128) -> (found: bool)
        ensures
            final(self).sizing() == old(self).sizing(),
            obeys_key_model::<K>() ==> {
                &&& found == old(self)@.contains_key(*key)
                &&& final(self)@ == if found {
                    old(self)@.insert(
                        *key,
                        CacheEntry { value: old(self)@[*key].value, expires_at },
                    )
                } else {
                    old(self)@
                }
            },
    {
        self.map.get_mut(key).map(|mut entry| entry.renew(expires_at)).is_some()
    }

    /// `DashMap::contains_key` tells whether a key is in the map.
    #[verifier::external_body]
    pub(crate) fn contains_key(&self, key: &K) -> (found: bool)
        ensures
            obeys_key_model::<K>() ==> found == self@.contains_key(*key),
    {
        self.map.contains_key(key)
    }

    /// `DashMap::len` counts the entries.
    #[verifier::external_body]
    pub(crate) fn len(&self) -> (len: usize)
        ensures
            obeys_key_model::<K>() ==> len == self@.len(),
    {
        self.map.len()
    }

    /// `DashMap::clear` removes every entry.
    #[verifier::external_body]
    pub(crate) fn clear(&mut self)
        ensures
            final(self).sizing() == old(self).sizing(),
            (final(self)@ == Map::<K, CacheEntry<V>>::empty()),
    {
        self.map.clear()
    }

    /// `DashMap::retain` drops the entries for which its closure returns `false`; here those that
    /// have expired at the time `now`. The others stay as they are.
    #[verifier::external_body]
    pub(crate) fn retain_live(&mut self, now: Duration)
        ensures
            final(self).sizing() == old(self).sizing(),
            obeys_key_model::<K>() ==> final(self)@ == old(self)@.restrict(
                Set::new(|key: K| !old(self)@[key].expired(duration_nanos(now))),
            ),
    {
        self.map.retain(|_, entry| !entry.is_expired(now))
    }

    /// The parallel iterator of a `DashMap`, filtered, mapped and collected by `rayon`: the keys
    /// of the entries that have expired at the time `now`, each of them once, in no particular
    /// order. They are clones of the stored keys, and so equal to them.
    #[verifier::external_body]
    pub(crate) fn expired_keys(&self, now: Duration) -> (keys: Vec<K>)
        ensures
            obeys_key_model::<K>() ==> lists_keys(
                expired(self@, duration_nanos(now)),
                keys@,
            ),
    {
        self.map
            .par_iter()
            .filter(|entry| entry.value().is_expired(now))
            .map(|entry| entry.key().clone())
            .collect()
    }

    /// The parallel iterator of a `DashMap`, mapped and collected by `rayon`: the keys of all
    /// entries, each of them once, in no particular order. They are clones of the stored keys, and
    /// so equal to them.
    #[verifier::external_body]
    pub(crate) fn keys(&self) -> (keys: Vec<K>)
        ensures
            obeys_key_model::<K>() ==> lists_keys(self@.dom(), keys@),
    {
        self.map.par_iter().map(|entry| entry.key().clone()).collect()
    }
}

} // verus!

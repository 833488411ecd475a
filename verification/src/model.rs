//! What a cache holds, and what each operation does to it.
use vstd::prelude::*;

use crate::cache::CacheError;
use crate::entry::CacheEntry;
use crate::eviction::EvictionListener;

verus! {

/// The state of a cache. Times and durations are in nanoseconds.
#[verifier::ext_equal]
#[verifier::reject_recursive_types(K)]
#[verifier::reject_recursive_types(V)]
pub struct CacheState<K, V> {
    /// The stored entries. Some of them may have expired.
    pub entries: Map<K, CacheEntry<V>>,
    /// The TTL of an entry that is stored without one of its own.
    pub default_ttl: nat,
    /// The largest number of entries that may be stored, if there is a limit.
    pub max_capacity: Option<usize>,
    /// The eviction callback, if there is one.
    pub listener: Option<EvictionListener<K, V>>,
    /// The pairs that the eviction callback has been called with, in order.
    pub notified: Seq<(K, V)>,
}

impl<K, V> CacheState<K, V> {
    /// Whether an entry, expired or not, is stored under `key`.
    pub open spec fn holds(self, key: K) -> bool {
        self.entries.contains_key(key)
    }

    /// Whether an entry is stored under `key` that has expired at the time `now`.
    pub open spec fn stale(self, key: K, now: nat) -> bool {
        self.holds(key) && self.entries[key].expired(now)
    }

    /// Whether an entry is stored under `key` that has not expired at the time `now`.
    pub open spec fn live(self, key: K, now: nat) -> bool {
        self.holds(key) && !self.entries[key].expired(now)
    }

    /// Whether no further entry is taken.
    pub open spec fn full(self) -> bool {
        self.max_capacity matches Some(capacity) && self.entries.len() >= capacity
    }

    /// The number of entries is finite and within the capacity.
    pub open spec fn bounded(self) -> bool {
        &&& self.entries.dom().finite()
        &&& self.max_capacity matches Some(capacity) ==> self.entries.len() <= capacity
    }

    /// The state with other entries.
    pub open spec fn with_entries(self, entries: Map<K, CacheEntry<V>>) -> Self {
        CacheState { entries, ..self }
    }

    /// The state after the eviction callback, if there is one, was called with a pair.
    pub open spec fn notify(self, key: K, value: V) -> Self {
        if self.listener is Some {
            CacheState { notified: self.notified.push((key, value)), ..self }
        } else {
            self
        }
    }

    /// The state without the entry under `key`, whose removal the eviction callback was told of.
    pub open spec fn expel(self, key: K) -> Self {
        self.with_entries(self.entries.remove(key)).notify(key, self.entries[key].value)
    }

    /// The state after the entry under `key` was looked at: an expired entry is gone.
    pub open spec fn touch(self, key: K, now: nat) -> Self {
        if self.stale(key, now) {
            self.expel(key)
        } else {
            self
        }
    }

    /// The entries that have not expired at the time `now`.
    pub open spec fn live_entries(self, now: nat) -> Map<K, CacheEntry<V>> {
        self.entries.restrict(Set::new(|key: K| self.live(key, now)))
    }

    /// The keys of the entries that have expired at the time `now`.
    pub open spec fn stale_keys(self, now: nat) -> Set<K> {
        Set::new(|key: K| self.stale(key, now))
    }

    /// `pairs` lists the entries under `keys`, each of them once.
    pub open spec fn lists(self, keys: Set<K>, pairs: Seq<(K, V)>) -> bool {
        &&& forall|i: int, j: int|
            0 <= i < j < pairs.len() ==> (#[trigger] pairs[i]).0 != (#[trigger] pairs[j]).0
        &&& forall|i: int|
            0 <= i < pairs.len() ==> {
                &&& keys.contains((#[trigger] pairs[i]).0)
                &&& pairs[i].1 == self.entries[pairs[i].0].value
            }
        &&& forall|key: K| #[trigger]
            keys.contains(key) ==> exists|i: int|
                0 <= i < pairs.len() && (#[trigger] pairs[i]).0 == key
    }

    /// The eviction callback, if there is one, has been called for the entries under `keys` since
    /// the state `before`, for each of them once, in no particular order.
    pub open spec fn notified_of(self, before: Self, keys: Set<K>) -> bool {
        if before.listener is Some {
            exists|pairs: Seq<(K, V)>| #[trigger]
                before.lists(keys, pairs) && self.notified == before.notified + pairs
        } else {
            self.notified == before.notified
        }
    }

    /// The state is one that a cache in the state `before` can come to: with the same settings and
    /// the same eviction callback, whose earlier calls are not taken back.
    pub open spec fn follows(self, before: Self) -> bool {
        &&& self.default_ttl == before.default_ttl
        &&& self.max_capacity == before.max_capacity
        &&& self.listener == before.listener
        &&& before.notified.is_prefix_of(self.notified)
    }
}

/// Storing `value` under `key` for `ttl` at the time `now`. A cache at its capacity refuses it,
/// whether or not the key is stored already, and stays as it is.
pub open spec fn insert_step<K, V>(
    before: CacheState<K, V>,
    key: K,
    value: V,
    ttl: nat,
    now: nat,
    result: Result<(), CacheError>,
    after: CacheState<K, V>,
) -> bool {
    if before.full() {
        &&& result == Err::<(), CacheError>(CacheError::MaxCapacityReached)
        &&& after == before
    } else {
        &&& result == Ok::<(), CacheError>(())
        &&& now + ttl <= u128::MAX
        &&& after == before.with_entries(
            before.entries.insert(key, CacheEntry::fresh(value, ttl, now)),
        )
    }
}

/// Reading the value under `key` at the time `now`. What comes back is a clone of the stored
/// value. An expired entry is evicted and counts as absent.
pub open spec fn get_step<K, V: Clone>(
    before: CacheState<K, V>,
    key: K,
    now: nat,
    result: Option<V>,
    after: CacheState<K, V>,
) -> bool {
    &&& after == before.touch(key, now)
    &&& match result {
        Some(value) => before.live(key, now) && cloned(before.entries[key].value, value),
        None => !before.live(key, now),
    }
}

/// Taking the entry under `key` out, expired or not. The value comes back, and the eviction
/// callback gets a clone of it.
pub open spec fn evict_step<K, V: Clone>(
    before: CacheState<K, V>,
    key: K,
    result: Option<V>,
    after: CacheState<K, V>,
) -> bool {
    if before.holds(key) {
        &&& result == Some(before.entries[key].value)
        &&& exists|copy: V| #[trigger]
            cloned(before.entries[key].value, copy) && after == before.with_entries(
                before.entries.remove(key),
            ).notify(key, copy)
    } else {
        &&& result == None::<V>
        &&& after == before
    }
}

/// Renewing the entry under `key` at the time `now`, for the default TTL. An expired entry is
/// evicted instead.
pub open spec fn refresh_step<K, V>(
    before: CacheState<K, V>,
    key: K,
    now: nat,
    result: bool,
    after: CacheState<K, V>,
) -> bool {
    &&& result == before.live(key, now)
    &&& if result {
        &&& now + before.default_ttl <= u128::MAX
        &&& after == before.with_entries(
            before.entries.insert(
                key,
                CacheEntry::fresh(before.entries[key].value, before.default_ttl, now),
            ),
        )
    } else {
        after == before.touch(key, now)
    }
}

/// Asking for `key` at the time `now`. An expired entry is evicted and counts as absent.
pub open spec fn contains_key_step<K, V>(
    before: CacheState<K, V>,
    key: K,
    now: nat,
    result: bool,
    after: CacheState<K, V>,
) -> bool {
    &&& result == before.live(key, now)
    &&& after == before.touch(key, now)
}

/// Removing every entry, expired or not. The eviction callback, if there is one, is told of each of
/// them once, in no particular order.
pub open spec fn clear_step<K, V>(before: CacheState<K, V>, after: CacheState<K, V>) -> bool {
    &&& after == (CacheState { entries: Map::empty(), notified: after.notified, ..before })
    &&& after.notified_of(before, before.entries.dom())
}

/// Evicting every entry that has expired at the time `now`. The eviction callback, if there is
/// one, is told of each of them once, in no particular order.
pub open spec fn cleanup_step<K, V>(
    before: CacheState<K, V>,
    now: nat,
    after: CacheState<K, V>,
) -> bool {
    &&& after == (CacheState {
        entries: before.live_entries(now),
        notified: after.notified,
        ..before
    })
    &&& after.notified_of(before, before.stale_keys(now))
}

/// An operation with its arguments, the time at which it took place and what it returned.
#[verifier::reject_recursive_types(K)]
#[verifier::reject_recursive_types(V)]
pub enum Operation<K, V> {
    Insert { key: K, value: V, ttl: nat, now: nat, result: Result<(), CacheError> },
    Get { key: K, now: nat, found: Option<V> },
    Evict { key: K, evicted: Option<V> },
    Refresh { key: K, now: nat, refreshed: bool },
    ContainsKey { key: K, now: nat, present: bool },
    Cleanup { now: nat },
    Clear,
}

impl<K, V: Clone> Operation<K, V> {
    /// Whether the operation can lead from the state `before` to the state `after`.
    pub open spec fn step(self, before: CacheState<K, V>, after: CacheState<K, V>) -> bool {
        match self {
            Operation::Insert { key, value, ttl, now, result } => insert_step(
                before,
                key,
                value,
                ttl,
                now,
                result,
                after,
            ),
            Operation::Get { key, now, found } => get_step(before, key, now, found, after),
            Operation::Evict { key, evicted } => evict_step(before, key, evicted, after),
            Operation::Refresh { key, now, refreshed } => refresh_step(
                before,
                key,
                now,
                refreshed,
                after,
            ),
            Operation::ContainsKey { key, now, present } => contains_key_step(
                before,
                key,
                now,
                present,
                after,
            ),
            Operation::Cleanup { now } => cleanup_step(before, now, after),
            Operation::Clear => clear_step(before, after),
        }
    }

    /// Whether the operation is about the entry under `key` alone.
    pub open spec fn is_about(self, key: K) -> bool {
        match self {
            Operation::Insert { key: k, .. } => k == key,
            Operation::Get { key: k, .. } => k == key,
            Operation::Evict { key: k, .. } => k == key,
            Operation::Refresh { key: k, .. } => k == key,
            Operation::ContainsKey { key: k, .. } => k == key,
            Operation::Cleanup { .. } | Operation::Clear => false,
        }
    }

    /// Whether the operation leaves an entry under `key` in place that expires at the time
    /// `expires_at`: it does not replace, renew or remove the entry, and an operation that could
    /// find it expired takes place before that time.
    pub open spec fn spares(self, key: K, expires_at: nat) -> bool {
        match self {
            Operation::Insert { key: k, result, .. } => k != key || result is Err,
            Operation::Get { key: k, now, .. } => k != key || now < expires_at,
            Operation::Evict { key: k, .. } => k != key,
            Operation::Refresh { key: k, .. } => k != key,
            Operation::ContainsKey { key: k, now, .. } => k != key || now < expires_at,
            Operation::Cleanup { now } => now < expires_at,
            Operation::Clear => false,
        }
    }

    /// Whether the operation neither stores under `key` nor renews what was due to expire at the
    /// time `expires_at`.
    pub open spec fn does_not_prolong(self, key: K, expires_at: nat) -> bool {
        match self {
            Operation::Insert { key: k, result, .. } => k != key || result is Err,
            Operation::Refresh { key: k, now, .. } => k != key || now >= expires_at,
            _ => true,
        }
    }
}

/// `states` are the states that the operations `ops`, one after the other, lead through.
pub open spec fn history<K, V: Clone>(
    states: Seq<CacheState<K, V>>,
    ops: Seq<Operation<K, V>>,
) -> bool {
    &&& states.len() == ops.len() + 1
    &&& forall|i: int|
        0 <= i < ops.len() ==> (#[trigger] ops[i]).step(states[i], states[i + 1])
}

/// The live entries of a bounded state are bounded too.
pub proof fn lemma_live_entries_bounded<K, V>(state: CacheState<K, V>, now: nat)
    requires
        state.bounded(),
    ensures
        state.live_entries(now).dom().finite(),
        state.live_entries(now).len() <= state.entries.len(),
{
    let live = Set::new(|key: K| state.live(key, now));
    assert(state.live_entries(now).dom() =~= state.entries.dom().intersect(live));
    vstd::set_lib::lemma_len_intersect(state.entries.dom(), live);
}

} // verus!

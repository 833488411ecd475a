//! What holds of the operations together.
use std::hash::Hash;
use std::time::Duration;

use vstd::arithmetic::power2::is_pow2;
use vstd::prelude::*;

use crate::cache::{CacheError, CacheMap, Settings};
use crate::clock::{expiry_timestamp, timestamp, CoarseClock, TIMESTAMPS};
use crate::dash_cache::DashCache;
use crate::entry::CacheEntry;
use crate::eviction::EvictionListener;
use crate::model::{
    cleanup_step, clear_step, contains_key_step, evict_step, get_step, history, insert_step,
    lemma_live_entries_bounded, refresh_step, CacheState, Operation,
};
use crate::random::Draw;
use crate::time::duration_nanos;
use crate::workload::{
    batch_step, key_step, load_step, preload_step, read_step, tally_step, DrawnTtl, LoadReport,
    ReadReport, ReadTally, TtlPlan, ELEMENTS_PER_LOAD,
};

verus! {

/// A stored value can be read until its TTL has passed, and not from then on. A read that comes
/// too late takes the entry out.
pub proof fn get_returns_what_insert_stored<K, V: Clone>(
    s0: CacheState<K, V>,
    key: K,
    value: V,
    ttl: nat,
    stored_at: nat,
    s1: CacheState<K, V>,
    read_at: nat,
    found: Option<V>,
    s2: CacheState<K, V>,
)
    requires
        insert_step(s0, key, value, ttl, stored_at, Ok(()), s1),
        get_step(s1, key, read_at, found, s2),
    ensures
        read_at < stored_at + ttl ==> found is Some && cloned(value, found->0) && s2 == s1,
        read_at >= stored_at + ttl ==> found is None && s2 == s1.expel(key) && !s2.holds(key),
{
}

/// An insert is refused if and only if the cache has a capacity and has reached it. A refused
/// insert changes nothing.
pub proof fn insert_is_refused_when_full<K, V>(
    s0: CacheState<K, V>,
    key: K,
    value: V,
    ttl: nat,
    now: nat,
    result: Result<(), CacheError>,
    s1: CacheState<K, V>,
)
    requires
        insert_step(s0, key, value, ttl, now, result, s1),
    ensures
        result is Err <==> (s0.max_capacity matches Some(capacity) && s0.entries.len() >= capacity),
        result is Err ==> result->Err_0 == CacheError::MaxCapacityReached && s1 == s0,
        result is Ok ==> s1.live(key, now) == (ttl > 0),
{
}

/// An operation on one key leaves every other entry as it is.
pub proof fn operations_leave_other_keys_alone<K, V: Clone>(
    s0: CacheState<K, V>,
    op: Operation<K, V>,
    s1: CacheState<K, V>,
    key: K,
    other: K,
)
    requires
        op.step(s0, s1),
        op.is_about(key),
        other != key,
    ensures
        s1.holds(other) == s0.holds(other),
        s1.holds(other) ==> s1.entries[other] == s0.entries[other],
{
}

/// However a cache is used, its default TTL, its capacity and its eviction callback stay as they
/// are, its number of entries stays within the capacity, and nothing is taken back that the
/// callback has been told.
pub proof fn invariants_hold_throughout<K, V: Clone>(
    states: Seq<CacheState<K, V>>,
    ops: Seq<Operation<K, V>>,
)
    requires
        history(states, ops),
        states[0].bounded(),
    ensures
        forall|i: int|
            0 <= i < states.len() ==> (#[trigger] states[i]).bounded() && states[i].follows(
                states[0],
            ),
    decreases ops.len(),
{
    if ops.len() > 0 {
        let n = ops.len() - 1;
        let earlier = states.drop_last();
        assert forall|i: int| 0 <= i < n implies (#[trigger] ops.drop_last()[i]).step(
            earlier[i],
            earlier[i + 1],
        ) by {
            assert(ops[i].step(states[i], states[i + 1]));
        }
        invariants_hold_throughout(earlier, ops.drop_last());
        assert(earlier[n] == states[n]);
        assert(ops[n].step(states[n], states[n + 1]));
        lemma_invariants_step(states[n], ops[n], states[n + 1]);
        assert forall|i: int| 0 <= i < states.len() implies (#[trigger] states[i]).bounded()
            && states[i].follows(states[0]) by {
            if i <= n {
                assert(earlier[i] == states[i]);
            }
        }
    }
}

/// One operation keeps what stays the same throughout.
proof fn lemma_invariants_step<K, V: Clone>(
    s0: CacheState<K, V>,
    op: Operation<K, V>,
    s1: CacheState<K, V>,
)
    requires
        op.step(s0, s1),
        s0.bounded(),
    ensures
        s1.bounded(),
        s1.follows(s0),
{
    if let Operation::Cleanup { now } = op {
        lemma_live_entries_bounded(s0, now);
    }
}

/// A stored value is found by every read before its TTL has passed, whatever else happens in
/// between, unless the entry is replaced, renewed or removed on purpose.
pub proof fn stored_value_survives<K, V: Clone>(
    states: Seq<CacheState<K, V>>,
    ops: Seq<Operation<K, V>>,
    key: K,
    value: V,
    ttl: nat,
    stored_at: nat,
    read_at: nat,
    found: Option<V>,
)
    requires
        ops.len() >= 2,
        history(states, ops),
        ops.first() == (Operation::Insert { key, value, ttl, now: stored_at, result: Ok(()) }),
        forall|i: int|
            0 < i < ops.len() - 1 ==> (#[trigger] ops[i]).spares(key, stored_at + ttl),
        ops.last() == (Operation::Get { key, now: read_at, found }),
        read_at < stored_at + ttl,
    ensures
        found is Some,
        cloned(value, found->0),
{
    assert(ops[0].step(states[0], states[1]));
    lemma_spared_entry_stays(states, ops, key, stored_at + ttl, ops.len() - 1);
    let last = ops.len() - 1;
    assert(ops[last].step(states[last], states[last + 1]));
}

/// An entry that every operation after the first one spares is still there `n` operations in.
proof fn lemma_spared_entry_stays<K, V: Clone>(
    states: Seq<CacheState<K, V>>,
    ops: Seq<Operation<K, V>>,
    key: K,
    expires_at: nat,
    n: int,
)
    requires
        history(states, ops),
        1 <= n < states.len(),
        states[1].holds(key),
        states[1].entries[key].expires_at == expires_at,
        forall|i: int| 0 < i < n ==> (#[trigger] ops[i]).spares(key, expires_at),
    ensures
        states[n].holds(key),
        states[n].entries[key] == states[1].entries[key],
    decreases n,
{
    if n > 1 {
        lemma_spared_entry_stays(states, ops, key, expires_at, n - 1);
        assert(ops[n - 1].step(states[n - 1], states[n - 1 + 1]));
        assert(ops[n - 1].spares(key, expires_at));
    }
}

/// A stored value is found by no read after its TTL has passed, whatever else happens in between,
/// unless the key is stored again or renewed in time.
pub proof fn expired_value_is_never_found<K, V: Clone>(
    states: Seq<CacheState<K, V>>,
    ops: Seq<Operation<K, V>>,
    key: K,
    value: V,
    ttl: nat,
    stored_at: nat,
    read_at: nat,
    found: Option<V>,
)
    requires
        ops.len() >= 2,
        history(states, ops),
        ops.first() == (Operation::Insert { key, value, ttl, now: stored_at, result: Ok(()) }),
        forall|i: int|
            0 < i < ops.len() - 1 ==> (#[trigger] ops[i]).does_not_prolong(key, stored_at + ttl),
        ops.last() == (Operation::Get { key, now: read_at, found }),
        read_at >= stored_at + ttl,
    ensures
        found is None,
        !states.last().holds(key),
{
    assert(ops[0].step(states[0], states[1]));
    lemma_expiry_is_not_prolonged(states, ops, key, stored_at + ttl, ops.len() - 1);
    let last = ops.len() - 1;
    assert(ops[last].step(states[last], states[last + 1]));
}

/// If no operation after the first one prolongs an entry, then `n` operations in it is gone or
/// expires in time.
proof fn lemma_expiry_is_not_prolonged<K, V: Clone>(
    states: Seq<CacheState<K, V>>,
    ops: Seq<Operation<K, V>>,
    key: K,
    expires_at: nat,
    n: int,
)
    requires
        history(states, ops),
        1 <= n < states.len(),
        states[1].holds(key) ==> states[1].entries[key].expires_at <= expires_at,
        forall|i: int| 0 < i < n ==> (#[trigger] ops[i]).does_not_prolong(key, expires_at),
    ensures
        states[n].holds(key) ==> states[n].entries[key].expires_at <= expires_at,
    decreases n,
{
    if n > 1 {
        lemma_expiry_is_not_prolonged(states, ops, key, expires_at, n - 1);
        assert(ops[n - 1].step(states[n - 1], states[n - 1 + 1]));
        assert(ops[n - 1].does_not_prolong(key, expires_at));
    }
}

/// An evicted key is gone: reading it finds nothing and changes nothing. The eviction returned
/// its value, expired or not.
pub proof fn evicted_key_is_gone<K, V: Clone>(
    s0: CacheState<K, V>,
    key: K,
    evicted: Option<V>,
    s1: CacheState<K, V>,
    now: nat,
    found: Option<V>,
    s2: CacheState<K, V>,
)
    requires
        evict_step(s0, key, evicted, s1),
        get_step(s1, key, now, found, s2),
    ensures
        evicted is Some <==> s0.holds(key),
        evicted matches Some(value) ==> value == s0.entries[key].value,
        found is None,
        s2 == s1,
{
}

/// A refreshed entry keeps its value and can be read until the default TTL has passed since the
/// refresh, and not from then on.
pub proof fn refresh_extends_the_ttl<K, V: Clone>(
    s0: CacheState<K, V>,
    key: K,
    refreshed_at: nat,
    s1: CacheState<K, V>,
    read_at: nat,
    found: Option<V>,
    s2: CacheState<K, V>,
)
    requires
        refresh_step(s0, key, refreshed_at, true, s1),
        get_step(s1, key, read_at, found, s2),
    ensures
        read_at < refreshed_at + s0.default_ttl ==> found is Some && cloned(
            s0.entries[key].value,
            found->0,
        ),
        read_at >= refreshed_at + s0.default_ttl ==> found is None,
{
}

/// A refresh that fails leaves nothing under the key, and tells the callback of an entry that had
/// expired.
pub proof fn failed_refresh_leaves_nothing<K, V>(
    s0: CacheState<K, V>,
    key: K,
    now: nat,
    s1: CacheState<K, V>,
)
    requires
        refresh_step(s0, key, now, false, s1),
    ensures
        !s1.holds(key),
        s1 == if s0.holds(key) {
            s0.expel(key)
        } else {
            s0
        },
{
}

/// Asking for a key and reading it, at the same time in the same state, agree on whether it is
/// there and do the same to the cache.
pub proof fn contains_key_agrees_with_get<K, V: Clone>(
    s0: CacheState<K, V>,
    key: K,
    now: nat,
    answer: bool,
    asked: CacheState<K, V>,
    found: Option<V>,
    read: CacheState<K, V>,
)
    requires
        contains_key_step(s0, key, now, answer, asked),
        get_step(s0, key, now, found, read),
    ensures
        answer == (found is Some),
        asked == read,
{
}

/// What has expired stays expired.
pub proof fn expired_stays_expired<K, V>(s: CacheState<K, V>, key: K, earlier: nat, later: nat)
    requires
        s.stale(key, earlier),
        earlier <= later,
    ensures
        s.stale(key, later),
        !s.live(key, later),
{
}

/// An expired entry is evicted by the first read that comes upon it, and by no other: the callback
/// is told once, and a second read changes nothing.
pub proof fn expired_entry_is_evicted_once<K, V: Clone>(
    s0: CacheState<K, V>,
    key: K,
    first: nat,
    found: Option<V>,
    s1: CacheState<K, V>,
    second: nat,
    found_again: Option<V>,
    s2: CacheState<K, V>,
)
    requires
        s0.stale(key, first),
        get_step(s0, key, first, found, s1),
        get_step(s1, key, second, found_again, s2),
    ensures
        found is None,
        found_again is None,
        s2 == s1,
        s1.notified == if s0.listener is Some {
            s0.notified.push((key, s0.entries[key].value))
        } else {
            s0.notified
        },
{
}

/// A cleanup removes the expired entries and nothing else.
pub proof fn cleanup_removes_exactly_the_expired<K, V>(
    s0: CacheState<K, V>,
    now: nat,
    s1: CacheState<K, V>,
    key: K,
)
    requires
        cleanup_step(s0, now, s1),
    ensures
        s1.holds(key) <==> s0.live(key, now),
        s1.holds(key) ==> s1.entries[key] == s0.entries[key],
        !s1.stale(key, now),
{
}

/// A cleanup does not change what a later read finds.
pub proof fn cleanup_is_invisible_to_later_reads<K, V: Clone>(
    s0: CacheState<K, V>,
    cleaned_at: nat,
    s1: CacheState<K, V>,
    key: K,
    read_at: nat,
    found: Option<V>,
    s2: CacheState<K, V>,
)
    requires
        cleanup_step(s0, cleaned_at, s1),
        cleaned_at <= read_at,
        get_step(s1, key, read_at, found, s2),
    ensures
        found is Some <==> s0.live(key, read_at),
        found matches Some(value) ==> cloned(s0.entries[key].value, value),
{
}

/// A second cleanup at the same time does nothing.
pub proof fn cleanup_is_idempotent<K, V>(
    s0: CacheState<K, V>,
    now: nat,
    s1: CacheState<K, V>,
    s2: CacheState<K, V>,
)
    requires
        cleanup_step(s0, now, s1),
        cleanup_step(s1, now, s2),
    ensures
        s2 == s1,
{
    assert(s2.entries =~= s1.entries);
    if s1.listener is Some {
        let pairs = choose|pairs: Seq<(K, V)>| #[trigger]
            s1.lists(s1.stale_keys(now), pairs) && s2.notified == s1.notified + pairs;
        if pairs.len() > 0 {
            assert(s1.stale_keys(now).contains(pairs[0].0));
        }
        assert(pairs =~= Seq::empty());
        assert(s2.notified =~= s1.notified);
    }
}

/// The keys of `pairs`, each of them different, are as many as the pairs.
proof fn lemma_pairs_have_as_many_keys<K, V>(pairs: Seq<(K, V)>, keys: Set<K>)
    requires
        forall|i: int, j: int|
            0 <= i < j < pairs.len() ==> (#[trigger] pairs[i]).0 != (#[trigger] pairs[j]).0,
        forall|i: int| 0 <= i < pairs.len() ==> keys.contains((#[trigger] pairs[i]).0),
        forall|key: K| #[trigger]
            keys.contains(key) ==> exists|i: int|
                0 <= i < pairs.len() && (#[trigger] pairs[i]).0 == key,
    ensures
        keys.finite(),
        keys.len() == pairs.len(),
    decreases pairs.len(),
{
    if pairs.len() == 0 {
        assert(keys =~= Set::empty());
    } else {
        let last = pairs.last().0;
        let rest = pairs.drop_last();
        assert forall|key: K| #[trigger] keys.remove(last).contains(key) implies exists|i: int|
            0 <= i < rest.len() && (#[trigger] rest[i]).0 == key by {
            assert(keys.contains(key));
            let i = choose|i: int| 0 <= i < pairs.len() && (#[trigger] pairs[i]).0 == key;
            assert(rest[i].0 == key);
        }
        lemma_pairs_have_as_many_keys(rest, keys.remove(last));
        assert(keys =~= keys.remove(last).insert(last));
    }
}

/// The callback has been called once for each of some keys, with the value that was stored there.
proof fn lemma_notified_of_each<K, V>(s0: CacheState<K, V>, keys: Set<K>, s1: CacheState<K, V>)
    requires
        s0.listener is Some,
        s1.notified_of(s0, keys),
    ensures
        keys.finite(),
        s1.notified.len() - s0.notified.len() == keys.len(),
        forall|key: K| #[trigger] keys.contains(key) ==> told_since(s0, s1, key),
{
    let pairs = choose|pairs: Seq<(K, V)>| #[trigger]
        s0.lists(keys, pairs) && s1.notified == s0.notified + pairs;
    lemma_pairs_have_as_many_keys(pairs, keys);
    assert forall|key: K| #[trigger] keys.contains(key) implies told_since(s0, s1, key) by {
        let i = choose|i: int| 0 <= i < pairs.len() && (#[trigger] pairs[i]).0 == key;
        assert(s1.notified[s0.notified.len() + i] == pairs[i]);
    }
}

/// Since the state `s0` the callback has been called with `key` and the value that was stored under
/// it.
pub open spec fn told_since<K, V>(s0: CacheState<K, V>, s1: CacheState<K, V>, key: K) -> bool {
    exists|i: int|
        {
            &&& s0.notified.len() <= i < s1.notified.len()
            &&& #[trigger] s1.notified[i] == (key, s0.entries[key].value)
        }
}

/// With a callback, every entry that a cleanup removes is told of, and nothing else: the callback
/// is called as many times as entries go.
pub proof fn cleanup_notifies_once_per_removed_entry<K, V>(
    s0: CacheState<K, V>,
    now: nat,
    s1: CacheState<K, V>,
)
    requires
        s0.bounded(),
        s0.listener is Some,
        cleanup_step(s0, now, s1),
    ensures
        s1.notified.len() - s0.notified.len() == s0.entries.len() - s1.entries.len(),
        forall|key: K| #[trigger] s0.stale(key, now) ==> told_since(s0, s1, key),
{
    let stale = s0.stale_keys(now);
    lemma_notified_of_each(s0, stale, s1);
    lemma_live_entries_bounded(s0, now);
    assert(s0.entries.dom() =~= s1.entries.dom() + stale);
    vstd::set_lib::lemma_set_disjoint_lens(s1.entries.dom(), stale);
    assert forall|key: K| #[trigger] s0.stale(key, now) implies told_since(s0, s1, key) by {
        assert(stale.contains(key));
    }
}

/// With a callback, every entry that a cache holds is told of when it is cleared, and nothing else:
/// the callback is called as many times as there are entries.
pub proof fn clear_notifies_once_per_entry<K, V>(s0: CacheState<K, V>, s1: CacheState<K, V>)
    requires
        s0.listener is Some,
        clear_step(s0, s1),
    ensures
        s1.notified.len() - s0.notified.len() == s0.entries.len(),
        forall|key: K| #[trigger] s0.holds(key) ==> told_since(s0, s1, key),
{
    lemma_notified_of_each(s0, s0.entries.dom(), s1);
    assert forall|key: K| #[trigger] s0.holds(key) implies told_since(s0, s1, key) by {
        assert(s0.entries.dom().contains(key));
    }
}

/// Whatever takes a single entry out, a read, a question, a refresh or an eviction, tells the
/// callback of it once; where no entry goes, the callback is not called.
pub proof fn one_notification_per_removed_entry<K, V: Clone>(
    s0: CacheState<K, V>,
    op: Operation<K, V>,
    s1: CacheState<K, V>,
    key: K,
)
    requires
        s0.listener is Some,
        op.step(s0, s1),
        op.is_about(key),
    ensures
        s0.holds(key) && !s1.holds(key) ==> {
            &&& s1.notified.drop_last() == s0.notified
            &&& s1.notified.len() == s0.notified.len() + 1
            &&& s1.notified.last().0 == key
            &&& s1.notified.last().1 == s0.entries[key].value || cloned(
                s0.entries[key].value,
                s1.notified.last().1,
            )
        },
        s0.holds(key) && s1.holds(key) ==> s1.notified == s0.notified,
        !s0.holds(key) ==> s1.notified == s0.notified,
{
    if s0.holds(key) && !s1.holds(key) {
        assert(s1.notified.drop_last() =~= s0.notified);
    }
}

/// Without a callback nothing is recorded.
pub proof fn nothing_is_recorded_without_a_callback<K, V: Clone>(
    s0: CacheState<K, V>,
    op: Operation<K, V>,
    s1: CacheState<K, V>,
)
    requires
        s0.listener is None,
        op.step(s0, s1),
    ensures
        s1.notified == s0.notified,
{
}

/// A cleared cache is empty, with its settings and its callback as before: nothing is found in it,
/// and it takes an entry again unless its capacity is zero.
pub proof fn cleared_cache_is_empty<K, V: Clone>(
    s0: CacheState<K, V>,
    s1: CacheState<K, V>,
    key: K,
    now: nat,
    found: Option<V>,
    s2: CacheState<K, V>,
)
    requires
        clear_step(s0, s1),
        get_step(s1, key, now, found, s2),
    ensures
        s1.entries.len() == 0,
        s1.follows(s0),
        found is None,
        s2 == s1,
        s1.full() <==> s0.max_capacity == Some(0usize),
{
}

/// However a cache is used, the callback that it was made with is the one that is told: of every
/// entry that goes, whatever takes it out, with its value or a clone of it.
pub proof fn configured_callback_is_told_of_every_removal<K, V: Clone>(
    states: Seq<CacheState<K, V>>,
    ops: Seq<Operation<K, V>>,
    n: int,
    key: K,
)
    requires
        history(states, ops),
        states[0].bounded(),
        states[0].listener is Some,
        0 <= n < ops.len(),
        states[n].holds(key),
        !states[n + 1].holds(key),
    ensures
        states.last().listener == states[0].listener,
        exists|i: int|
            {
                &&& states[n].notified.len() <= i < states[n + 1].notified.len()
                &&& (#[trigger] states.last().notified[i]).0 == key
                &&& cloned(states[n].entries[key].value, states.last().notified[i].1)
            },
{
    invariants_hold_throughout(states, ops);
    let s0 = states[n];
    let s1 = states[n + 1];
    assert(ops[n].step(states[n], states[n + 1]));
    assert(s0.bounded() && s0.follows(states[0]));
    assert(s1.bounded());
    let rest = states.skip(n + 1);
    assert forall|i: int| 0 <= i < ops.skip(n + 1).len() implies (#[trigger] ops.skip(
        n + 1,
    )[i]).step(rest[i], rest[i + 1]) by {
        assert(ops[n + 1 + i].step(states[n + 1 + i], states[n + 1 + i + 1]));
    }
    assert(rest[0] == s1);
    invariants_hold_throughout(rest, ops.skip(n + 1));
    assert(rest.last() == states.last());
    assert(rest[rest.len() - 1].follows(s1));
    let i = lemma_removal_is_told(s0, ops[n], s1, key);
    assert(states.last().notified[i] == s1.notified[i]);
}

/// An operation that takes an entry out tells the callback of it.
proof fn lemma_removal_is_told<K, V: Clone>(
    s0: CacheState<K, V>,
    op: Operation<K, V>,
    s1: CacheState<K, V>,
    key: K,
) -> (i: int)
    requires
        op.step(s0, s1),
        s0.bounded(),
        s0.listener is Some,
        s0.holds(key),
        !s1.holds(key),
    ensures
        s0.notified.len() <= i < s1.notified.len(),
        s1.notified[i].0 == key,
        cloned(s0.entries[key].value, s1.notified[i].1),
{
    match op {
        Operation::Cleanup { now } => {
            cleanup_notifies_once_per_removed_entry(s0, now, s1);
            assert(s0.stale(key, now));
            choose|i: int|
                {
                    &&& s0.notified.len() <= i < s1.notified.len()
                    &&& #[trigger] s1.notified[i] == (key, s0.entries[key].value)
                }
        },
        Operation::Clear => {
            clear_notifies_once_per_entry(s0, s1);
            assert(told_since(s0, s1, key));
            choose|i: int|
                {
                    &&& s0.notified.len() <= i < s1.notified.len()
                    &&& #[trigger] s1.notified[i] == (key, s0.entries[key].value)
                }
        },
        _ => {
            assert(op.is_about(key));
            one_notification_per_removed_entry(s0, op, s1, key);
            s1.notified.len() - 1
        },
    }
}

/// After a tick, the coarse clock takes nothing for living whose TTL has passed. What it takes for
/// expired has lived for more than the whole milliseconds of its TTL less one, and so has less than
/// two milliseconds to live. This holds as long as the timestamps do not wrap around.
pub proof fn coarse_clock_is_exact_to_two_milliseconds(stored_at: nat, ttl: nat, ticked_at: nat)
    requires
        stored_at / 1_000_000 + ttl / 1_000_000 < TIMESTAMPS,
        ticked_at / 1_000_000 < TIMESTAMPS,
    ensures
        ticked_at >= stored_at + ttl ==> timestamp(ticked_at) >= expiry_timestamp(stored_at, ttl),
        timestamp(ticked_at) >= expiry_timestamp(stored_at, ttl) ==> {
            &&& ticked_at - stored_at > (ttl / 1_000_000 - 1) * 1_000_000
            &&& ticked_at + 2_000_000 > stored_at + ttl
        },
{
}

/// What the coarse clock takes for expired, it takes for expired after every later tick, as long as
/// the timestamps do not wrap around.
pub proof fn coarse_clock_keeps_expired_expired(expires_at_ms: u64, earlier: nat, later: nat)
    requires
        earlier <= later,
        later / 1_000_000 < TIMESTAMPS,
        timestamp(earlier) >= expires_at_ms,
    ensures
        timestamp(later) >= expires_at_ms,
{
}

/// Each coarse clock counts from its own creation: of two clocks that have ticked, the younger one
/// first, the older one shows at least the whole milliseconds more that it is older. This holds as
/// long as the timestamps do not wrap around.
pub proof fn older_clock_shows_more(older: CoarseClock, younger: CoarseClock, ms: nat)
    requires
        older.cached() == timestamp(older.reading()),
        younger.cached() == timestamp(younger.reading()),
        older.started_at() + ms * 1_000_000 <= younger.started_at(),
        younger.moment() <= older.moment(),
        older.reading() / 1_000_000 < TIMESTAMPS,
    ensures
        older.cached() >= younger.cached() + ms,
{
}

/// A later tick shows no earlier time, as long as the timestamps do not wrap around.
pub proof fn coarse_clock_does_not_run_backwards(earlier: nat, later: nat)
    requires
        earlier <= later,
        later / 1_000_000 < TIMESTAMPS,
    ensures
        timestamp(earlier) <= timestamp(later),
{
}

/// A loaded key is found until its TTL has passed, and not from then on: for five to twenty seconds
/// after a preload. Of a mixed load, the short-lived entries are gone eight seconds after its end,
/// before the next load, and the others live for at least ten seconds, into the next load.
pub proof fn loaded_keys_live_as_planned(
    s0: CacheState<u64, u64>,
    start: nat,
    first: int,
    plan: TtlPlan,
    ttls: Seq<DrawnTtl>,
    readings: Seq<Duration>,
    s1: CacheState<u64, u64>,
    end: nat,
    key: u64,
    now: nat,
)
    requires
        load_step(s0, start, first, plan, ttls, readings, s1, end),
        first <= key < first + ttls.len(),
    ensures
        s1.holds(key) && s1.entries[key].value == key,
        now < start + ttls[key - first].ttl_ms * 1_000_000 ==> s1.live(key, now),
        now >= end + ttls[key - first].ttl_ms * 1_000_000 ==> s1.stale(key, now),
        plan is Preload && now < start + 5_000_000_000 ==> s1.live(key, now),
        plan is Preload && now >= end + 20_000_000_000 ==> s1.stale(key, now),
        plan is Mixed && now < start + 2_000_000_000 ==> s1.live(key, now),
        plan is Mixed && ttls[key - first].short_lived && now >= end + 8_000_000_000 ==> s1.stale(
            key,
            now,
        ),
        plan is Mixed && !ttls[key - first].short_lived && now < start + 10_000_000_000 ==> s1.live(
            key,
            now,
        ),
        plan is Mixed && now >= end + 25_000_000_000 ==> s1.stale(key, now),
{
    assert(s1.holds(key));
    assert(plan.allows(ttls[key - first]));
    assert(start <= duration_nanos(readings[key - first]) <= end);
}

/// The sum of the reads in some reports.
pub open spec fn reported_reads(reports: Seq<Option<ReadReport>>) -> int
    decreases reports.len(),
{
    if reports.len() == 0 {
        0
    } else {
        reported_reads(reports.drop_last()) + match reports.last() {
            Some(report) => report.reads as int,
            None => 0,
        }
    }
}

/// The sum of the hits in some reports.
pub open spec fn reported_hits(reports: Seq<Option<ReadReport>>) -> int
    decreases reports.len(),
{
    if reports.len() == 0 {
        0
    } else {
        reported_hits(reports.drop_last()) + match reports.last() {
            Some(report) => report.hits as int,
            None => 0,
        }
    }
}

/// The number of reads that hit.
pub open spec fn count_hits(hits: Seq<bool>) -> int
    decreases hits.len(),
{
    if hits.len() == 0 {
        0
    } else {
        count_hits(hits.drop_last()) + if hits.last() {
            1int
        } else {
            0int
        }
    }
}

/// No read and no hit is lost or counted twice: what a reader has handed over, together with what
/// is still pending, is what it has counted.
pub proof fn reports_add_up(
    tallies: Seq<ReadTally>,
    hits: Seq<bool>,
    reports: Seq<Option<ReadReport>>,
)
    requires
        tallies.len() == hits.len() + 1,
        reports.len() == hits.len(),
        tallies[0].total_reads() == 0,
        tallies[0].pending_hits() == 0,
        forall|i: int|
            0 <= i < hits.len() ==> tally_step(
                tallies[i],
                #[trigger] hits[i],
                reports[i],
                tallies[i + 1],
            ),
    ensures
        tallies.last().wf(),
        tallies.last().total_reads() == hits.len(),
        reported_reads(reports) + tallies.last().pending_reads() == hits.len(),
        reported_hits(reports) + tallies.last().pending_hits() == count_hits(hits),
    decreases hits.len(),
{
    if hits.len() > 0 {
        let n = hits.len() - 1;
        assert forall|i: int| 0 <= i < n implies tally_step(
            tallies.drop_last()[i],
            #[trigger] hits.drop_last()[i],
            reports.drop_last()[i],
            tallies.drop_last()[i + 1],
        ) by {
            assert(tally_step(tallies[i], hits[i], reports[i], tallies[i + 1]));
        }
        reports_add_up(tallies.drop_last(), hits.drop_last(), reports.drop_last());
        assert(tally_step(tallies[n], hits[n], reports[n], tallies[n + 1]));
    }
}

/// An insert is refused if and only if the number of entries has reached the capacity. One that is
/// not refused stores the value under the key until the TTL has passed. Nothing else changes.
pub proof fn insert_stores_until_the_ttl_has_passed<K, V>(
    s0: CacheState<K, V>,
    key: K,
    value: V,
    ttl: nat,
    now: nat,
    result: Result<(), CacheError>,
    s1: CacheState<K, V>,
    other: K,
)
    requires
        insert_step(s0, key, value, ttl, now, result, s1),
    ensures
        result is Err <==> (s0.max_capacity matches Some(capacity) && s0.entries.len() >= capacity),
        result is Err ==> s1.entries == s0.entries,
        result is Ok ==> {
            &&& s1.entries.contains_key(key)
            &&& s1.entries[key].value == value
            &&& s1.entries[key].expires_at == now + ttl
        },
        other != key ==> {
            &&& s1.entries.contains_key(other) == s0.entries.contains_key(other)
            &&& s1.entries.contains_key(other) ==> s1.entries[other] == s0.entries[other]
        },
        s1.default_ttl == s0.default_ttl,
        s1.max_capacity == s0.max_capacity,
        s1.listener == s0.listener,
        s1.notified == s0.notified,
{
}

/// A read finds a clone of the stored value if and only if there is one that expires later than the
/// read. A value that expires no later than the read goes, and the callback is told of it; nothing
/// else changes.
pub proof fn get_finds_what_expires_later<K, V: Clone>(
    s0: CacheState<K, V>,
    key: K,
    now: nat,
    found: Option<V>,
    s1: CacheState<K, V>,
)
    requires
        get_step(s0, key, now, found, s1),
    ensures
        found is Some <==> s0.entries.contains_key(key) && now < s0.entries[key].expires_at,
        found is Some ==> cloned(s0.entries[key].value, found->0),
        s1.entries == if s0.entries.contains_key(key) && s0.entries[key].expires_at <= now {
            s0.entries.remove(key)
        } else {
            s0.entries
        },
        s1.notified == if s0.entries.contains_key(key) && s0.entries[key].expires_at <= now
            && s0.listener is Some {
            s0.notified.push((key, s0.entries[key].value))
        } else {
            s0.notified
        },
        s1.default_ttl == s0.default_ttl,
        s1.max_capacity == s0.max_capacity,
        s1.listener == s0.listener,
{
}

/// A key is there if and only if a value is stored under it that expires later than the question. A
/// value that expires no later goes, and the callback is told of it; nothing else changes.
pub proof fn contains_key_sees_what_expires_later<K, V>(
    s0: CacheState<K, V>,
    key: K,
    now: nat,
    present: bool,
    s1: CacheState<K, V>,
)
    requires
        contains_key_step(s0, key, now, present, s1),
    ensures
        present <==> s0.entries.contains_key(key) && now < s0.entries[key].expires_at,
        s1.entries == if s0.entries.contains_key(key) && s0.entries[key].expires_at <= now {
            s0.entries.remove(key)
        } else {
            s0.entries
        },
        s1.notified == if s0.entries.contains_key(key) && s0.entries[key].expires_at <= now
            && s0.listener is Some {
            s0.notified.push((key, s0.entries[key].value))
        } else {
            s0.notified
        },
        s1.default_ttl == s0.default_ttl,
        s1.max_capacity == s0.max_capacity,
        s1.listener == s0.listener,
{
}

/// A refresh succeeds if and only if a value is stored under the key that expires later than the
/// refresh. The value then expires when the default TTL has passed since the refresh. A value that
/// expires no later than the refresh goes, and the callback is told of it; nothing else changes.
pub proof fn refresh_renews_what_expires_later<K, V>(
    s0: CacheState<K, V>,
    key: K,
    now: nat,
    refreshed: bool,
    s1: CacheState<K, V>,
    other: K,
)
    requires
        refresh_step(s0, key, now, refreshed, s1),
    ensures
        refreshed <==> s0.entries.contains_key(key) && now < s0.entries[key].expires_at,
        refreshed ==> {
            &&& s1.entries.contains_key(key)
            &&& s1.entries[key].value == s0.entries[key].value
            &&& s1.entries[key].expires_at == now + s0.default_ttl
        },
        !refreshed ==> !s1.entries.contains_key(key),
        other != key ==> {
            &&& s1.entries.contains_key(other) == s0.entries.contains_key(other)
            &&& s1.entries.contains_key(other) ==> s1.entries[other] == s0.entries[other]
        },
        s1.notified == if s0.entries.contains_key(key) && s0.entries[key].expires_at <= now
            && s0.listener is Some {
            s0.notified.push((key, s0.entries[key].value))
        } else {
            s0.notified
        },
        s1.default_ttl == s0.default_ttl,
        s1.max_capacity == s0.max_capacity,
        s1.listener == s0.listener,
{
}

/// A value that is stored and refreshed before its TTL has passed is found by every read before the
/// default TTL has passed since the refresh.
pub proof fn refreshed_value_is_found<K, V: Clone>(
    s0: CacheState<K, V>,
    key: K,
    value: V,
    ttl: nat,
    stored_at: nat,
    s1: CacheState<K, V>,
    refreshed_at: nat,
    refreshed: bool,
    s2: CacheState<K, V>,
    read_at: nat,
    found: Option<V>,
    s3: CacheState<K, V>,
)
    requires
        insert_step(s0, key, value, ttl, stored_at, Ok(()), s1),
        refresh_step(s1, key, refreshed_at, refreshed, s2),
        get_step(s2, key, read_at, found, s3),
        stored_at <= refreshed_at < stored_at + ttl,
    ensures
        refreshed,
        read_at < refreshed_at + s0.default_ttl ==> found is Some && cloned(value, found->0),
        read_at >= refreshed_at + s0.default_ttl ==> found is None,
{
}

/// An eviction returns the stored value, if there is one, expired or not, and takes it out; the
/// callback is told of it with a clone. Nothing else changes.
pub proof fn evict_takes_the_stored_value_out<K, V: Clone>(
    s0: CacheState<K, V>,
    key: K,
    evicted: Option<V>,
    s1: CacheState<K, V>,
)
    requires
        evict_step(s0, key, evicted, s1),
    ensures
        evicted is Some <==> s0.entries.contains_key(key),
        evicted is Some ==> evicted->0 == s0.entries[key].value,
        s1.entries == s0.entries.remove(key),
        s0.entries.contains_key(key) && s0.listener is Some ==> {
            &&& s1.notified == s0.notified.push((key, s1.notified.last().1))
            &&& cloned(s0.entries[key].value, s1.notified.last().1)
        },
        !s0.entries.contains_key(key) || s0.listener is None ==> s1.notified == s0.notified,
        s1.default_ttl == s0.default_ttl,
        s1.max_capacity == s0.max_capacity,
        s1.listener == s0.listener,
{
    if !s0.entries.contains_key(key) {
        assert(s0.entries.remove(key) =~= s0.entries);
    }
}

/// A cleanup takes out what expires no later than the cleanup, and nothing else. The callback, if
/// there is one, is told of each of these entries once, with its value, and of no other.
pub proof fn cleanup_takes_out_what_expires_no_later<K, V>(
    s0: CacheState<K, V>,
    now: nat,
    s1: CacheState<K, V>,
)
    requires
        cleanup_step(s0, now, s1),
    ensures
        forall|key: K| #[trigger]
            s1.entries.contains_key(key) <==> s0.entries.contains_key(key) && now
                < s0.entries[key].expires_at,
        forall|key: K| #[trigger]
            s1.entries.contains_key(key) ==> s1.entries[key] == s0.entries[key],
        s0.notified.is_prefix_of(s1.notified),
        s0.listener is None ==> s1.notified == s0.notified,
        forall|i: int|
            s0.notified.len() <= i < s1.notified.len() ==> {
                &&& s0.entries.contains_key((#[trigger] s1.notified[i]).0)
                &&& s0.entries[s1.notified[i].0].expires_at <= now
                &&& s1.notified[i].1 == s0.entries[s1.notified[i].0].value
            },
        forall|i: int, j: int|
            s0.notified.len() <= i < j < s1.notified.len() ==> (#[trigger] s1.notified[i]).0 != (
            #[trigger] s1.notified[j]).0,
        s0.listener is Some ==> forall|key: K| #[trigger]
            s0.entries.contains_key(key) && s0.entries[key].expires_at <= now ==> exists|i: int|
                s0.notified.len() <= i < s1.notified.len() && (#[trigger] s1.notified[i]).0 == key,
        s1.default_ttl == s0.default_ttl,
        s1.max_capacity == s0.max_capacity,
        s1.listener == s0.listener,
{
    if s0.listener is Some {
        let stale = s0.stale_keys(now);
        let pairs = choose|pairs: Seq<(K, V)>| #[trigger]
            s0.lists(stale, pairs) && s1.notified == s0.notified + pairs;
        let n = s0.notified.len() as int;
        assert forall|i: int| n <= i < s1.notified.len() implies {
            &&& s0.entries.contains_key((#[trigger] s1.notified[i]).0)
            &&& s0.entries[s1.notified[i].0].expires_at <= now
            &&& s1.notified[i].1 == s0.entries[s1.notified[i].0].value
        } by {
            assert(s1.notified[i] == pairs[i - n]);
            assert(stale.contains(pairs[i - n].0));
        }
        assert forall|i: int, j: int| n <= i < j < s1.notified.len() implies (
        #[trigger] s1.notified[i]).0 != (#[trigger] s1.notified[j]).0 by {
            assert(pairs[i - n].0 != pairs[j - n].0);
        }
        assert forall|key: K| #[trigger]
            s0.entries.contains_key(key) && s0.entries[key].expires_at <= now implies exists|i: int|
            n <= i < s1.notified.len() && (#[trigger] s1.notified[i]).0 == key by {
            assert(stale.contains(key));
            let i = choose|i: int| 0 <= i < pairs.len() && (#[trigger] pairs[i]).0 == key;
            assert(s1.notified[n + i] == pairs[i]);
        }
    }
}

/// A cleared cache holds nothing. The callback, if there is one, is told of each entry that was
/// stored once, with its value, and of no other. The settings stay.
pub proof fn clear_takes_everything_out<K, V>(s0: CacheState<K, V>, s1: CacheState<K, V>)
    requires
        clear_step(s0, s1),
    ensures
        forall|key: K| !(#[trigger] s1.entries.contains_key(key)),
        s1.entries.len() == 0,
        s0.notified.is_prefix_of(s1.notified),
        s0.listener is None ==> s1.notified == s0.notified,
        forall|i: int|
            s0.notified.len() <= i < s1.notified.len() ==> {
                &&& s0.entries.contains_key((#[trigger] s1.notified[i]).0)
                &&& s1.notified[i].1 == s0.entries[s1.notified[i].0].value
            },
        forall|i: int, j: int|
            s0.notified.len() <= i < j < s1.notified.len() ==> (#[trigger] s1.notified[i]).0 != (
            #[trigger] s1.notified[j]).0,
        s0.listener is Some ==> forall|key: K| #[trigger]
            s0.entries.contains_key(key) ==> exists|i: int|
                s0.notified.len() <= i < s1.notified.len() && (#[trigger] s1.notified[i]).0 == key,
        s1.default_ttl == s0.default_ttl,
        s1.max_capacity == s0.max_capacity,
        s1.listener == s0.listener,
{
    if s0.listener is Some {
        let keys = s0.entries.dom();
        let pairs = choose|pairs: Seq<(K, V)>| #[trigger]
            s0.lists(keys, pairs) && s1.notified == s0.notified + pairs;
        let n = s0.notified.len() as int;
        assert forall|i: int| n <= i < s1.notified.len() implies {
            &&& s0.entries.contains_key((#[trigger] s1.notified[i]).0)
            &&& s1.notified[i].1 == s0.entries[s1.notified[i].0].value
        } by {
            assert(s1.notified[i] == pairs[i - n]);
            assert(keys.contains(pairs[i - n].0));
        }
        assert forall|i: int, j: int| n <= i < j < s1.notified.len() implies (
        #[trigger] s1.notified[i]).0 != (#[trigger] s1.notified[j]).0 by {
            assert(pairs[i - n].0 != pairs[j - n].0);
        }
        assert forall|key: K| #[trigger] s0.entries.contains_key(key) implies exists|i: int|
            n <= i < s1.notified.len() && (#[trigger] s1.notified[i]).0 == key by {
            assert(keys.contains(key));
            let i = choose|i: int| 0 <= i < pairs.len() && (#[trigger] pairs[i]).0 == key;
            assert(s1.notified[n + i] == pairs[i]);
        }
    }
}

/// A state that follows another one has its settings and its callback, and goes on with its record.
pub proof fn followers_keep_the_settings<K, V>(s0: CacheState<K, V>, s1: CacheState<K, V>)
    requires
        s1.follows(s0),
    ensures
        s1.default_ttl == s0.default_ttl,
        s1.max_capacity == s0.max_capacity,
        s1.listener == s0.listener,
        s0.notified.len() <= s1.notified.len(),
        forall|i: int| 0 <= i < s0.notified.len() ==> #[trigger] s1.notified[i] == s0.notified[i],
{
}

/// A fresh entry holds its value and has expired as soon as its TTL has passed, and no earlier.
pub proof fn fresh_entry_expires_with_its_ttl<V>(value: V, ttl: nat, stored_at: nat, now: nat)
    requires
        stored_at + ttl <= u128::MAX,
    ensures
        CacheEntry::fresh(value, ttl, stored_at).value == value,
        CacheEntry::fresh(value, ttl, stored_at).expires_at == stored_at + ttl,
        CacheEntry::fresh(value, ttl, stored_at).expired(now) <==> now >= stored_at + ttl,
{
}

/// A listener that calls a closure promises what the closure ensures, and takes what the closure
/// takes.
pub proof fn listener_promises_what_its_closure_ensures<K, V, F: Fn(K, V)>(
    listener: EvictionListener<K, V>,
    f: F,
    key: K,
    value: V,
)
    requires
        listener.calls(f),
    ensures
        listener.performs(key, value) <==> call_ensures(f, (key, value), ()),
        listener.accepts(key, value) <==> call_requires(f, (key, value)),
        listener.total() ==> call_requires(f, (key, value)),
{
}

/// A stored value is found by a read at a moment before its TTL has passed on the clock of the
/// machine, and not from then on. Both moments are those that the clock of the machine showed when
/// the cache read it.
pub proof fn value_lives_for_its_ttl_on_the_clock_of_the_machine<K, V>(
    before: CacheState<K, V>,
    key: K,
    value: V,
    ttl: nat,
    stored: DashCache<K, V>,
    found: Option<V>,
    read: DashCache<K, V>,
) where
    K: Eq + Hash + Clone + Send + Sync + 'static,
    V: Clone + Send + Sync + 'static,

    requires
        insert_step(before, key, value, ttl, stored.reading(), Ok(()), stored.state()),
        get_step(stored.state(), key, read.reading(), found, read.state()),
        read.clock().started_at() == stored.clock().started_at(),
    ensures
        read.clock().moment() < stored.clock().moment() + ttl ==> found is Some && cloned(
            value,
            found->0,
        ),
        read.clock().moment() >= stored.clock().moment() + ttl ==> found is None,
{
    stored.goes_by_the_system_clock();
    read.goes_by_the_system_clock();
}

/// A key is there at a moment before the TTL of its value has passed on the clock of the machine,
/// and not from then on.
pub proof fn key_is_there_for_its_ttl_on_the_clock_of_the_machine<K, V>(
    before: CacheState<K, V>,
    key: K,
    value: V,
    ttl: nat,
    stored: DashCache<K, V>,
    present: bool,
    asked: DashCache<K, V>,
) where
    K: Eq + Hash + Clone + Send + Sync + 'static,
    V: Clone + Send + Sync + 'static,

    requires
        insert_step(before, key, value, ttl, stored.reading(), Ok(()), stored.state()),
        contains_key_step(stored.state(), key, asked.reading(), present, asked.state()),
        asked.clock().started_at() == stored.clock().started_at(),
    ensures
        present <==> asked.clock().moment() < stored.clock().moment() + ttl,
{
    stored.goes_by_the_system_clock();
    asked.goes_by_the_system_clock();
}

/// A refresh succeeds at a moment before the TTL of the value has passed on the clock of the
/// machine. The value then lives for the default TTL from that moment on.
pub proof fn refresh_counts_on_the_clock_of_the_machine<K, V>(
    before: CacheState<K, V>,
    key: K,
    value: V,
    ttl: nat,
    stored: DashCache<K, V>,
    result: bool,
    refreshed: DashCache<K, V>,
    found: Option<V>,
    read: DashCache<K, V>,
) where
    K: Eq + Hash + Clone + Send + Sync + 'static,
    V: Clone + Send + Sync + 'static,

    requires
        insert_step(before, key, value, ttl, stored.reading(), Ok(()), stored.state()),
        refresh_step(stored.state(), key, refreshed.reading(), result, refreshed.state()),
        get_step(refreshed.state(), key, read.reading(), found, read.state()),
        refreshed.clock().started_at() == stored.clock().started_at(),
        read.clock().started_at() == stored.clock().started_at(),
    ensures
        result <==> refreshed.clock().moment() < stored.clock().moment() + ttl,
        found is Some <==> result && read.clock().moment() < refreshed.clock().moment()
            + before.default_ttl,
{
    stored.goes_by_the_system_clock();
    refreshed.goes_by_the_system_clock();
    read.goes_by_the_system_clock();
}

/// A cleanup keeps a stored value at a moment before its TTL has passed on the clock of the machine,
/// and takes it out from then on.
pub proof fn cleanup_counts_on_the_clock_of_the_machine<K, V>(
    before: CacheState<K, V>,
    key: K,
    value: V,
    ttl: nat,
    stored: DashCache<K, V>,
    cleaned: DashCache<K, V>,
) where
    K: Eq + Hash + Clone + Send + Sync + 'static,
    V: Clone + Send + Sync + 'static,

    requires
        insert_step(before, key, value, ttl, stored.reading(), Ok(()), stored.state()),
        cleanup_step(stored.state(), cleaned.reading(), cleaned.state()),
        cleaned.clock().started_at() == stored.clock().started_at(),
    ensures
        cleaned.state().entries.contains_key(key) <==> cleaned.clock().moment()
            < stored.clock().moment() + ttl,
{
    stored.goes_by_the_system_clock();
    cleaned.goes_by_the_system_clock();
}

/// A timestamp counts whole milliseconds, and starts anew from zero where a `u64` ends.
pub proof fn timestamps_count_whole_milliseconds(nanos: nat)
    ensures
        nanos < 0x1_0000_0000_0000_0000 * 1_000_000 ==> timestamp(nanos) * 1_000_000 <= nanos < (
        timestamp(nanos) + 1) * 1_000_000,
        timestamp(nanos + 0x1_0000_0000_0000_0000 * 1_000_000) == timestamp(nanos),
        timestamp(nanos) < 0x1_0000_0000_0000_0000,
{
    let ms = nanos as int / 1_000_000;
    assert((nanos + 0x1_0000_0000_0000_0000 * 1_000_000) / 1_000_000 == ms
        + 0x1_0000_0000_0000_0000);
    vstd::arithmetic::div_mod::lemma_mod_add_multiples_vanish(ms, 0x1_0000_0000_0000_0000);
}

/// An expiry timestamp is the sum of the timestamps of the moment and of the TTL, and starts anew
/// from zero where a `u64` ends.
pub proof fn expiry_timestamps_add_up(stored_at: nat, ttl: nat)
    ensures
        timestamp(stored_at) + timestamp(ttl) < 0x1_0000_0000_0000_0000 ==> expiry_timestamp(
            stored_at,
            ttl,
        ) == timestamp(stored_at) + timestamp(ttl),
        timestamp(stored_at) + timestamp(ttl) >= 0x1_0000_0000_0000_0000 ==> expiry_timestamp(
            stored_at,
            ttl,
        ) == timestamp(stored_at) + timestamp(ttl) - 0x1_0000_0000_0000_0000,
{
}

/// A coarse clock that has ticked shows the whole milliseconds that have passed, on the clock of the
/// machine, between its creation and the moment that the clock of the machine showed at the tick.
/// This holds as long as the timestamps do not wrap around.
pub proof fn ticked_clock_shows_the_time_since_its_creation(clock: CoarseClock)
    requires
        clock.cached() == timestamp(clock.reading()),
        clock.clock().moment() - clock.clock().started_at() < 0x1_0000_0000_0000_0000 * 1_000_000,
    ensures
        clock.cached() * 1_000_000 <= clock.clock().moment() - clock.clock().started_at() < (
        clock.cached() + 1) * 1_000_000,
{
    clock.goes_by_the_system_clock();
}

/// What a coarse clock is asked to expire after a TTL it takes for living at a tick less than the
/// whole milliseconds of the TTL after, less one, and for expired at a tick that comes when the TTL
/// has passed, both on the clock of the machine. This holds as long as the timestamps do not wrap
/// around.
pub proof fn coarse_expiry_counts_on_the_clock_of_the_machine(
    asked: CoarseClock,
    ttl: nat,
    expires_at_ms: u64,
    ticked: CoarseClock,
)
    requires
        expires_at_ms == expiry_timestamp(asked.reading(), ttl),
        ticked.cached() == timestamp(ticked.reading()),
        ticked.clock().started_at() == asked.clock().started_at(),
        asked.reading() / 1_000_000 + ttl / 1_000_000 < 0x1_0000_0000_0000_0000,
        ticked.reading() / 1_000_000 < 0x1_0000_0000_0000_0000,
    ensures
        ticked.clock().moment() >= asked.clock().moment() + ttl ==> ticked.cached()
            >= expires_at_ms,
        ticked.clock().moment() - asked.clock().moment() <= (ttl / 1_000_000 - 1) * 1_000_000
            ==> ticked.cached() < expires_at_ms,
{
    asked.goes_by_the_system_clock();
    ticked.goes_by_the_system_clock();
    coarse_clock_is_exact_to_two_milliseconds(asked.reading(), ttl, ticked.reading());
}

/// The draws for the TTLs of a mixed load: for each of them a chance of two in five, then a number
/// from the range of the group.
proof fn lemma_draws_of_a_mixed_load(ttls: Seq<DrawnTtl>)
    ensures
        TtlPlan::Mixed.draws_of_all(ttls).len() == 2 * ttls.len(),
        forall|i: int|
            0 <= i < ttls.len() ==> {
                &&& TtlPlan::Mixed.draws_of_all(ttls)[2 * i] == (Draw::Chance {
                    numerator: 2,
                    denominator: 5,
                    yes: (#[trigger] ttls[i]).short_lived,
                })
                &&& TtlPlan::Mixed.draws_of_all(ttls)[2 * i + 1] == (Draw::Number {
                    low: if ttls[i].short_lived {
                        2_000
                    } else {
                        10_000
                    },
                    high: if ttls[i].short_lived {
                        8_000
                    } else {
                        25_000
                    },
                    number: ttls[i].ttl_ms,
                })
            },
    decreases ttls.len(),
{
    if ttls.len() > 0 {
        let rest = ttls.drop_last();
        lemma_draws_of_a_mixed_load(rest);
        assert forall|i: int| 0 <= i < ttls.len() implies {
            &&& TtlPlan::Mixed.draws_of_all(ttls)[2 * i] == (Draw::Chance {
                numerator: 2,
                denominator: 5,
                yes: (#[trigger] ttls[i]).short_lived,
            })
            &&& TtlPlan::Mixed.draws_of_all(ttls)[2 * i + 1] == (Draw::Number {
                low: if ttls[i].short_lived {
                    2_000
                } else {
                    10_000
                },
                high: if ttls[i].short_lived {
                    8_000
                } else {
                    25_000
                },
                number: ttls[i].ttl_ms,
            })
        } by {
            if i < rest.len() {
                assert(rest[i] == ttls[i]);
            }
        }
    }
}

/// The draws for the TTLs of a preload: for each of them a number from five to twenty seconds.
proof fn lemma_draws_of_a_preload(ttls: Seq<DrawnTtl>)
    ensures
        TtlPlan::Preload.draws_of_all(ttls).len() == ttls.len(),
        forall|i: int|
            0 <= i < ttls.len() ==> TtlPlan::Preload.draws_of_all(ttls)[i] == (Draw::Number {
                low: 5_000,
                high: 20_000,
                number: (#[trigger] ttls[i]).ttl_ms,
            }),
    decreases ttls.len(),
{
    if ttls.len() > 0 {
        let rest = ttls.drop_last();
        lemma_draws_of_a_preload(rest);
        assert forall|i: int| 0 <= i < ttls.len() implies TtlPlan::Preload.draws_of_all(ttls)[i]
            == (Draw::Number { low: 5_000, high: 20_000, number: (#[trigger] ttls[i]).ttl_ms }) by {
            if i < rest.len() {
                assert(rest[i] == ttls[i]);
            }
        }
    }
}

/// A preload stores the first hundred thousand keys, each as its own value. The i-th of them gets a
/// TTL in milliseconds that is the answer to the i-th question to the generator, a number from five
/// thousand up to twenty thousand, and counts from the i-th reading of the clock. All other entries
/// stay as they are.
pub proof fn preload_stores_the_first_keys(
    before: CacheState<u64, u64>,
    start: nat,
    draws_before: Seq<Draw>,
    readings: Seq<Duration>,
    after: CacheState<u64, u64>,
    end: nat,
    draws_after: Seq<Draw>,
    key: u64,
)
    requires
        preload_step(before, start, draws_before, readings, after, end, draws_after),
    ensures
        draws_after.len() == draws_before.len() + 100_000,
        draws_before.is_prefix_of(draws_after),
        readings.len() == 100_000,
        key < 100_000 ==> {
            &&& after.entries.contains_key(key)
            &&& after.entries[key].value == key
            &&& start <= duration_nanos(readings[key as int]) <= end
            &&& draws_after[draws_before.len() + key] matches Draw::Number { low, high, number }
            &&& low == 5_000
            &&& high == 20_000
            &&& low <= number < high
            &&& after.entries[key].expires_at == duration_nanos(readings[key as int]) + number
                * 1_000_000
        },
        key >= 100_000 ==> {
            &&& after.entries.contains_key(key) == before.entries.contains_key(key)
            &&& after.entries.contains_key(key) ==> after.entries[key] == before.entries[key]
        },
        after.default_ttl == before.default_ttl,
        after.max_capacity == before.max_capacity,
        after.listener == before.listener,
        after.notified == before.notified,
{
    let ttls = choose|ttls: Seq<DrawnTtl>|
        {
            &&& ttls.len() == ELEMENTS_PER_LOAD
            &&& draws_after == draws_before + TtlPlan::Preload.draws_of_all(ttls)
            &&& #[trigger] load_step(
                before,
                start,
                0,
                TtlPlan::Preload,
                ttls,
                readings,
                after,
                end,
            )
        };
    lemma_draws_of_a_preload(ttls);
    assert(after.holds(key) == after.entries.contains_key(key));
    assert(before.holds(key) == before.entries.contains_key(key));
    if key < 100_000 {
        assert(TtlPlan::Preload.allows(ttls[key as int]));
        assert(draws_after[draws_before.len() + key] == TtlPlan::Preload.draws_of_all(
            ttls,
        )[key as int]);
        assert(start <= duration_nanos(readings[key as int]) <= end);
    }
}

/// Loading the batch with the number `batch` stores the keys from `batch` times a hundred thousand
/// up to the reported ceiling, a hundred thousand further, each as its own value. For each of them
/// the generator is asked for a chance of two in five and then, by the answer, for a number from two
/// thousand up to eight thousand or from ten thousand up to twenty-five thousand: that is the TTL in
/// milliseconds, and it counts from a reading of the clock of its own. So every key of the batch
/// lives for at least two seconds from the start of the load. Before that, at the first reading of
/// the clock, the entries are evicted that have expired; they are as many as reported. All other
/// entries stay as they are. The result is the time of the eviction.
pub proof fn load_stores_the_keys_of_its_batch(
    before: CacheState<u64, u64>,
    start: nat,
    draws_before: Seq<Draw>,
    readings: Seq<Duration>,
    batch: int,
    report: LoadReport,
    after: CacheState<u64, u64>,
    end: nat,
    draws_after: Seq<Draw>,
    key: u64,
) -> (now: nat)
    requires
        0 <= batch,
        before.bounded(),
        batch_step(
            before,
            start,
            draws_before,
            readings,
            batch,
            report,
            after,
            end,
            draws_after,
        ),
    ensures
        report.key_ceiling == (batch + 1) * 100_000,
        draws_after.len() == draws_before.len() + 200_000,
        draws_before.is_prefix_of(draws_after),
        readings.len() == 100_001,
        now == duration_nanos(readings[0]),
        start <= now <= end,
        batch * 100_000 <= key < report.key_ceiling ==> {
            let i = key - batch * 100_000;
            &&& after.entries.contains_key(key)
            &&& after.entries[key].value == key
            &&& now <= duration_nanos(readings[1 + i]) <= end
            &&& draws_after[draws_before.len() + 2 * i] matches Draw::Chance {
                numerator,
                denominator,
                yes,
            }
            &&& numerator == 2
            &&& denominator == 5
            &&& draws_after[draws_before.len() + 2 * i + 1] matches Draw::Number {
                low,
                high,
                number,
            }
            &&& yes ==> low == 2_000 && high == 8_000
            &&& !yes ==> low == 10_000 && high == 25_000
            &&& low <= number < high
            &&& after.entries[key].expires_at == duration_nanos(readings[1 + i]) + number
                * 1_000_000
            &&& after.entries[key].expires_at >= start + 2_000_000_000
        },
        !(batch * 100_000 <= key < report.key_ceiling) ==> {
            &&& after.entries.contains_key(key) <==> before.entries.contains_key(key) && now
                < before.entries[key].expires_at
            &&& after.entries.contains_key(key) ==> after.entries[key] == before.entries[key]
        },
        report.evicted == before.entries.dom().filter(
            |k: u64| before.entries[k].expires_at <= now,
        ).len(),
        before.listener is Some ==> after.notified.len() == before.notified.len() + report.evicted,
        before.listener is None ==> after.notified == before.notified,
        after.default_ttl == before.default_ttl,
        after.max_capacity == before.max_capacity,
        after.listener == before.listener,
{
    let (now, cleaned, ttls) = choose|
        now: nat,
        cleaned: CacheState<u64, u64>,
        ttls: Seq<DrawnTtl>,
    |
        {
            &&& start <= now <= end
            &&& readings.len() == ELEMENTS_PER_LOAD + 1
            &&& now == duration_nanos(readings.first())
            &&& #[trigger] cleanup_step(before, now, cleaned)
            &&& report.evicted == before.entries.len() - cleaned.entries.len()
            &&& report.key_ceiling == (batch + 1) * ELEMENTS_PER_LOAD
            &&& ttls.len() == ELEMENTS_PER_LOAD
            &&& draws_after == draws_before + TtlPlan::Mixed.draws_of_all(ttls)
            &&& #[trigger] load_step(
                cleaned,
                now,
                batch * ELEMENTS_PER_LOAD,
                TtlPlan::Mixed,
                ttls,
                readings.skip(1),
                after,
                end,
            )
        };
    lemma_draws_of_a_mixed_load(ttls);
    cleanup_takes_out_what_expires_no_later(before, now, cleaned);
    assert(after.holds(key) == after.entries.contains_key(key));
    assert(cleaned.holds(key) == cleaned.entries.contains_key(key));
    let gone = before.entries.dom().filter(|k: u64| before.entries[k].expires_at <= now);
    assert(before.entries.dom() =~= cleaned.entries.dom() + gone);
    lemma_live_entries_bounded(before, now);
    vstd::set_lib::lemma_set_disjoint_lens(cleaned.entries.dom(), gone);
    if before.listener is Some {
        cleanup_notifies_once_per_removed_entry(before, now, cleaned);
    }
    if batch * 100_000 <= key < report.key_ceiling {
        let i = key - batch * 100_000;
        let all = TtlPlan::Mixed.draws_of_all(ttls);
        assert(TtlPlan::Mixed.allows(ttls[i]));
        assert(draws_after[draws_before.len() + 2 * i] == all[2 * i]);
        assert(draws_after[draws_before.len() + 2 * i + 1] == all[2 * i + 1]);
        assert(readings.skip(1)[i] == readings[1 + i]);
        assert(now <= duration_nanos(readings.skip(1)[i]) <= end);
    }
    now
}

/// A read with a positive ceiling asks the generator one question, for a number from zero up to the
/// ceiling, and reads the key that was answered. The read counts as a hit if and only if a value is
/// stored under that key that expires later than the read. Every ten thousand reads are handed
/// over, with the hits among them. The result is the key.
pub proof fn read_asks_for_a_key_below_the_ceiling(
    before: CacheState<u64, u64>,
    draws_before: Seq<Draw>,
    tally_before: ReadTally,
    key_ceiling: u64,
    now: nat,
    report: Option<ReadReport>,
    after: CacheState<u64, u64>,
    draws_after: Seq<Draw>,
    tally_after: ReadTally,
) -> (key: u64)
    requires
        read_step(
            before,
            draws_before,
            tally_before,
            key_ceiling,
            now,
            report,
            after,
            draws_after,
            tally_after,
        ),
        key_ceiling > 0,
        tally_before.pending_hits() < 10_000,
    ensures
        key < key_ceiling,
        draws_after == draws_before.push(
            Draw::Number { low: 0, high: key_ceiling, number: key },
        ),
        after.entries == if before.entries.contains_key(key) && before.entries[key].expires_at
            <= now {
            before.entries.remove(key)
        } else {
            before.entries
        },
        tally_after.total_reads() == tally_before.total_reads() + 1,
        report is Some <==> tally_after.total_reads() % 10_000 == 0,
        match report {
            Some(r) => {
                &&& r.reads == 10_000
                &&& r.hits == tally_before.pending_hits() + if before.entries.contains_key(key)
                    && now < before.entries[key].expires_at {
                    1int
                } else {
                    0int
                }
                &&& tally_after.pending_hits() == 0
            },
            None => tally_after.pending_hits() == tally_before.pending_hits()
                + if before.entries.contains_key(key) && now < before.entries[key].expires_at {
                1int
            } else {
                0int
            },
        },
{
    let key = choose|key: u64|
        {
            &&& key < key_ceiling
            &&& draws_after == draws_before.push(
                Draw::Number { low: 0, high: key_ceiling, number: key },
            )
            &&& #[trigger] key_step(
                before,
                tally_before,
                key,
                now,
                report,
                after,
                tally_after,
            )
        };
    read_of_a_key_counts_it(before, tally_before, key, now, report, after, tally_after);
    key
}

/// Without keys a read does nothing.
pub proof fn read_without_keys_does_nothing(
    before: CacheState<u64, u64>,
    draws_before: Seq<Draw>,
    tally_before: ReadTally,
    now: nat,
    report: Option<ReadReport>,
    after: CacheState<u64, u64>,
    draws_after: Seq<Draw>,
    tally_after: ReadTally,
)
    requires
        read_step(
            before,
            draws_before,
            tally_before,
            0,
            now,
            report,
            after,
            draws_after,
            tally_after,
        ),
    ensures
        after == before,
        draws_after == draws_before,
        tally_after == tally_before,
        report is None,
{
}

/// The read of a key counts as a hit if and only if a value is stored under it that expires later
/// than the read. Every ten thousand reads are handed over, with the hits among them.
pub proof fn read_of_a_key_counts_it(
    before: CacheState<u64, u64>,
    tally_before: ReadTally,
    key: u64,
    now: nat,
    report: Option<ReadReport>,
    after: CacheState<u64, u64>,
    tally_after: ReadTally,
)
    requires
        key_step(before, tally_before, key, now, report, after, tally_after),
        tally_before.pending_hits() < 10_000,
    ensures
        after.entries == if before.entries.contains_key(key) && before.entries[key].expires_at
            <= now {
            before.entries.remove(key)
        } else {
            before.entries
        },
        tally_after.total_reads() == tally_before.total_reads() + 1,
        report is Some <==> tally_after.total_reads() % 10_000 == 0,
        match report {
            Some(r) => {
                &&& r.reads == 10_000
                &&& r.hits == tally_before.pending_hits() + if before.entries.contains_key(key)
                    && now < before.entries[key].expires_at {
                    1int
                } else {
                    0int
                }
                &&& tally_after.pending_hits() == 0
            },
            None => tally_after.pending_hits() == tally_before.pending_hits()
                + if before.entries.contains_key(key) && now < before.entries[key].expires_at {
                1int
            } else {
                0int
            },
        },
{
    let value = choose|value: Option<u64>|
        {
            &&& #[trigger] get_step(before, key, now, value, after)
            &&& tally_step(tally_before, value is Some, report, tally_after)
        };
    get_finds_what_expires_later(before, key, now, value, after);
}

/// A configuration can be used if and only if the number of shards, if it is set, is a power of two
/// and greater than one, the initial capacity, if it is set, is one that a table can have, and the
/// callback, if there is one, takes every pair.
pub proof fn settings_are_valid_as_a_map_demands<K, V>(settings: Settings<K, V>)
    ensures
        settings.valid() <==> {
            &&& settings.initial_capacity is Some ==> settings.initial_capacity->0 <= isize::MAX
            &&& settings.shard_count is Some ==> settings.shard_count->0 > 1 && is_pow2(
                settings.shard_count->0 as int,
            )
            &&& settings.on_evict is Some ==> forall|key: K, value: V| #[trigger]
                settings.on_evict->0.accepts(key, value)
        },
{
}

} // verus!

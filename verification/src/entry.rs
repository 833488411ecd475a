//! A cached value and the time at which it expires.
use std::time::Duration;

use vstd::prelude::*;

use crate::time::duration_nanos;

verus! {

/// A value that tracks when it expires, in nanoseconds on the clock of its cache.
pub struct CacheEntry<V> {
    pub value: V,
    pub expires_at: u128,
}

impl<V> CacheEntry<V> {
    /// Whether the entry has expired at the time `now`: its last moment is the one before
    /// `expires_at`.
    pub open spec fn expired(self, now: nat) -> bool {
        now >= self.expires_at
    }

    /// The entry for a value that is stored at the time `now` and lives for `ttl`.
    pub open spec fn fresh(value: V, ttl: nat, now: nat) -> CacheEntry<V> {
        CacheEntry { value, expires_at: (now + ttl) as u128 }
    }

    /// Makes an entry that expires when `ttl` has passed since `now`.
    pub fn new(value: V, ttl: Duration, now: Duration) -> (entry: CacheEntry<V>)
        ensures
            entry == CacheEntry::fresh(value, duration_nanos(ttl), duration_nanos(now)),
            entry.expires_at == duration_nanos(now) + duration_nanos(ttl),
    {
        CacheEntry { value, expires_at: now.as_nanos() + ttl.as_nanos() }
    }

    /// Moves the expiry of the entry to the time `expires_at`.
    pub fn renew(&mut self, expires_at: u128)
        ensures
            *final(self) == (CacheEntry { value: old(self).value, expires_at }),
    {
        self.expires_at = expires_at;
    }

    /// Whether the entry has expired at the time `now`.
    #[must_use]
    pub fn is_expired(&self, now: Duration) -> (expired: bool)
        ensures
            expired == self.expired(duration_nanos(now)),
            expired == (duration_nanos(now) >= self.expires_at),
    {
        now.as_nanos() >= self.expires_at
    }
}

} // verus!

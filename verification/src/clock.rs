//! A coarse monotonic clock.
use std::time::Duration;

use vstd::prelude::*;

use crate::time::{duration_nanos, Stopwatch};

verus! {

/// The number of values of a `u64`, at which timestamps wrap around.
pub const TIMESTAMPS: u128 = 0x1_0000_0000_0000_0000;

/// The timestamp, in milliseconds, of the moment that is `nanos` nanoseconds past the epoch.
pub open spec fn timestamp(nanos: nat) -> nat {
    (nanos / 1_000_000) % (TIMESTAMPS as nat)
}

/// The timestamp at which something expires that lives for `ttl` nanoseconds from the moment that
/// is `nanos` nanoseconds past the epoch.
pub open spec fn expiry_timestamp(nanos: nat, ttl: nat) -> nat {
    (timestamp(nanos) + timestamp(ttl)) % (TIMESTAMPS as nat)
}

/// The whole milliseconds of a duration, modulo the range of a timestamp.
fn millis(d: Duration) -> (ms: u64)
    ensures
        ms == timestamp(duration_nanos(d)),
{
    let ms: u128 = d.as_millis();
    assert(ms as u64 == ms % 0x1_0000_0000_0000_0000u128) by (bit_vector);
    ms as u64
}

/// A coarse monotonic clock that avoids reading the system clock for every question.
///
/// Callers read a cached timestamp, which is updated by calling `tick()`, typically from a
/// background thread or periodically from the cleanup loop.
///
/// Resolution is as coarse as the `tick()` call frequency. For TTLs measured in seconds,
/// millisecond-level resolution is more than sufficient.
pub struct CoarseClock {
    /// Epoch from which all tick values are measured.
    epoch: Stopwatch,
    /// Current time as milliseconds since `epoch`.
    now_ms: u64,
}

impl CoarseClock {
    /// The latest reading of the system clock, in nanoseconds since the epoch.
    pub closed spec fn reading(&self) -> nat {
        self.epoch@
    }

    /// The system clock that this one goes by.
    pub closed spec fn clock(&self) -> Stopwatch {
        self.epoch
    }

    /// The time on the monotonic clock of the machine at which the clock was created, in
    /// nanoseconds.
    pub closed spec fn started_at(&self) -> nat {
        self.epoch.started_at()
    }

    /// The time on the monotonic clock of the machine of the latest reading, in nanoseconds.
    pub open spec fn moment(&self) -> nat {
        self.started_at() + self.reading()
    }

    /// The cached time, in milliseconds since the epoch.
    pub closed spec fn cached(&self) -> u64 {
        self.now_ms
    }

    /// The clock goes by the system clock: it was created when that was started, and its latest
    /// reading is the time that the system clock has counted from then to its own latest reading.
    pub proof fn goes_by_the_system_clock(&self)
        ensures
            self.started_at() == self.clock().started_at(),
            self.reading() == self.clock()@,
            self.clock().started_at() + self.reading() == self.clock().moment(),
            self.moment() == self.clock().moment(),
    {
    }

    /// Create a new clock anchored at the current instant.
    pub fn new() -> (clock: Self)
        ensures
            clock.reading() == 0,
            clock.cached() == 0,
            clock.clock().answers() == Seq::<Duration>::empty(),
    {
        CoarseClock { epoch: Stopwatch::start(), now_ms: 0 }
    }

    /// Update the cached timestamp. Call this periodically (e.g. every 1-5ms).
    pub fn tick(&mut self)
        ensures
            final(self).started_at() == old(self).started_at(),
            final(self).reading() >= old(self).reading(),
            final(self).clock().started_at() == old(self).clock().started_at(),
            final(self).clock().answers() == old(self).clock().answers().push(
                final(self).clock().answers().last(),
            ),
            final(self).reading() == duration_nanos(final(self).clock().answers().last()),
            final(self).cached() == timestamp(final(self).reading()),
    {
        let elapsed = self.epoch.elapsed();
        self.tick_at(elapsed);
    }

    /// Update the cached timestamp to the moment that is `elapsed` past the epoch.
    pub fn tick_at(&mut self, elapsed: Duration)
        ensures
            final(self).started_at() == old(self).started_at(),
            final(self).reading() == old(self).reading(),
            final(self).clock() == old(self).clock(),
            final(self).cached() == timestamp(duration_nanos(elapsed)),
    {
        self.now_ms = millis(elapsed);
    }

    /// Return the current cached time in milliseconds since epoch.
    pub fn now_ms(&self) -> (ms: u64)
        ensures
            ms == self.cached(),
    {
        self.now_ms
    }

    /// Convert a TTL duration into an absolute expiry timestamp (ms since epoch).
    ///
    /// This reads the system clock: inserts are infrequent and need accuracy. The cached time
    /// stays as it is.
    pub fn expire_at_ms(&mut self, ttl: Duration) -> (expires_at_ms: u64)
        ensures
            final(self).started_at() == old(self).started_at(),
            final(self).reading() >= old(self).reading(),
            final(self).clock().started_at() == old(self).clock().started_at(),
            final(self).clock().answers() == old(self).clock().answers().push(
                final(self).clock().answers().last(),
            ),
            final(self).reading() == duration_nanos(final(self).clock().answers().last()),
            final(self).cached() == old(self).cached(),
            expires_at_ms == expiry_timestamp(final(self).reading(), duration_nanos(ttl)),
    {
        let elapsed = self.epoch.elapsed();
        Self::expire_at_ms_from(elapsed, ttl)
    }

    /// The expiry timestamp of a TTL that starts at the moment that is `elapsed` past the epoch.
    pub fn expire_at_ms_from(elapsed: Duration, ttl: Duration) -> (expires_at_ms: u64)
        ensures
            expires_at_ms == expiry_timestamp(duration_nanos(elapsed), duration_nanos(ttl)),
    {
        millis(elapsed).wrapping_add(millis(ttl))
    }

    /// Check whether a given expiry timestamp has passed.
    pub fn is_expired(&self, expires_at_ms: u64) -> (expired: bool)
        ensures
            expired == (self.cached() >= expires_at_ms),
    {
        self.now_ms() >= expires_at_ms
    }
}

} // verus!

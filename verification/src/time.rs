//! Durations and the monotonic clock, as far as the library reasons about them.
use std::time::{Duration, Instant};

use vstd::prelude::*;

verus! {

/// Nanoseconds in the longest `Duration`: `u64::MAX` seconds and 999,999,999 nanoseconds.
pub const MAX_NANOS: u128 = 18_446_744_073_709_551_615_999_999_999;

/// The length of a `Duration` in nanoseconds, which is what `Duration::as_nanos` returns.
pub uninterp spec fn duration_nanos(d: Duration) -> nat;

/// `Duration::as_nanos` returns the length in nanoseconds, and no `Duration` is longer than
/// `Duration::MAX`.
pub assume_specification[ Duration::as_nanos ](d: &Duration) -> (nanos: u128)
    ensures
        nanos == duration_nanos(*d),
        nanos <= MAX_NANOS,
;

/// `Duration::as_millis` returns the number of whole milliseconds.
pub assume_specification[ Duration::as_millis ](d: &Duration) -> (millis: u128)
    ensures
        millis == duration_nanos(*d) / 1_000_000,
;

/// `Duration::from_secs` makes a duration of that many whole seconds.
pub assume_specification[ Duration::from_secs ](secs: u64) -> (d: Duration)
    ensures
        duration_nanos(d) == secs * 1_000_000_000,
;

/// `Duration::from_millis` makes a duration of that many milliseconds.
pub assume_specification[ Duration::from_millis ](millis: u64) -> (d: Duration)
    ensures
        duration_nanos(d) == millis * 1_000_000,
;

/// A point in time of the monotonic clock. Nothing is known of its value.
#[verifier::external_type_specification]
#[verifier::external_body]
pub struct ExInstant(Instant);

/// A monotonic clock that counts from the moment it was started.
///
/// Its view is the latest reading, in nanoseconds; zero if there is none.
pub struct Stopwatch {
    epoch: Instant,
    started_at: Ghost<nat>,
    answers: Ghost<Seq<Duration>>,
}

impl Stopwatch {
    pub open spec fn view(&self) -> nat {
        if self.answers().len() == 0 {
            0
        } else {
            duration_nanos(self.answers().last())
        }
    }

    /// The time on the monotonic clock of the machine at which this one was started, in
    /// nanoseconds.
    pub closed spec fn started_at(&self) -> nat {
        self.started_at@
    }

    /// What `Instant::elapsed` has answered so far, in order.
    pub closed spec fn answers(&self) -> Seq<Duration> {
        self.answers@
    }

    /// The time that the monotonic clock of the machine showed at the latest reading, in
    /// nanoseconds.
    pub open spec fn moment(&self) -> nat {
        self.started_at() + self@
    }

    /// `Instant::now` reads the monotonic clock of the machine: a clock is started at the current
    /// instant. Which instant that is is left open.
    #[verifier::external_body]
    pub(crate) fn start() -> (clock: Stopwatch)
        ensures
            clock@ == 0,
            clock.answers() == Seq::<Duration>::empty(),
    {
        Stopwatch {
            epoch: Instant::now(),
            started_at: Ghost(arbitrary()),
            answers: Ghost(Seq::empty()),
        }
    }

    /// `Instant::elapsed` returns the time that has passed on the monotonic clock of the machine
    /// since the epoch. The answer goes on record.
    ///
    /// The monotonic clock never runs backwards, so a reading is no less than the one before.
    /// How far the clock has moved is left open.
    #[verifier::external_body]
    pub(crate) fn elapsed(&mut self) -> (d: Duration)
        ensures
            duration_nanos(d) == final(self)@,
            final(self).started_at() == old(self).started_at(),
            final(self)@ >= old(self)@,
            final(self).answers() == old(self).answers().push(d),
    {
        self.epoch.elapsed()
    }
}

} // verus!

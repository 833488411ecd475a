use std::time::{Duration, Instant};

use cache_map::clock::CoarseClock;

#[test]
fn clock_starts_at_zero() {
    let clock = CoarseClock::new();
    assert_eq!(clock.now_ms(), 0);
    assert!(clock.is_expired(0));
    assert!(!clock.is_expired(1));
}

#[test]
fn time_stands_still_between_ticks() {
    let mut clock = CoarseClock::new();
    let start = Instant::now();
    while start.elapsed() < Duration::from_millis(20) {}
    assert_eq!(clock.now_ms(), 0);
    clock.tick();
    let first = clock.now_ms();
    assert!(first >= 20);
    clock.tick();
    assert!(clock.now_ms() >= first);
}

#[test]
fn tick_shows_whole_milliseconds() {
    let mut clock = CoarseClock::new();
    clock.tick_at(Duration::new(2, 345_999_999));
    assert_eq!(clock.now_ms(), 2_345);
}

#[test]
fn expiry_is_the_sum_of_whole_milliseconds() {
    let stored_at = Duration::from_micros(1_999);
    let ttl = Duration::from_micros(2_999);
    assert_eq!(CoarseClock::expire_at_ms_from(stored_at, ttl), 3);
}

#[test]
fn expiry_reads_the_system_clock() {
    let mut clock = CoarseClock::new();
    let start = Instant::now();
    while start.elapsed() < Duration::from_millis(10) {}
    let expires_at_ms = clock.expire_at_ms(Duration::from_secs(5));
    assert!(expires_at_ms >= 5_010);
    assert_eq!(clock.now_ms(), 0);
    assert!(!clock.is_expired(expires_at_ms));
}

#[test]
fn expiry_comes_when_the_ttl_has_passed() {
    let expires_at_ms =
        CoarseClock::expire_at_ms_from(Duration::from_millis(100), Duration::from_millis(50));
    let mut clock = CoarseClock::new();
    clock.tick_at(Duration::from_millis(148));
    assert!(!clock.is_expired(expires_at_ms));
    clock.tick_at(Duration::from_millis(150));
    assert!(clock.is_expired(expires_at_ms));
}

#[test]
fn timestamps_wrap_around() {
    let mut clock = CoarseClock::new();
    clock.tick_at(Duration::from_secs(u64::MAX));
    let expected = (u128::from(u64::MAX) * 1_000) % (1u128 << 64);
    assert_eq!(u128::from(clock.now_ms()), expected);
    assert_eq!(
        CoarseClock::expire_at_ms_from(Duration::from_millis(u64::MAX), Duration::from_millis(3)),
        2
    );
}

#[test]
fn older_clock_shows_more() {
    let mut older = CoarseClock::new();
    let start = Instant::now();
    while start.elapsed() < Duration::from_millis(15) {}
    let mut younger = CoarseClock::new();
    younger.tick();
    older.tick();
    assert!(older.now_ms() >= younger.now_ms() + 15);
}

#[test]
fn expired_stays_expired() {
    let mut clock = CoarseClock::new();
    clock.tick_at(Duration::from_millis(500));
    assert!(clock.is_expired(500));
    clock.tick_at(Duration::from_secs(3_600));
    assert!(clock.is_expired(500));
}

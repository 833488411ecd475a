use std::sync::atomic::{AtomicU64, Ordering};
use std::sync::Arc;
use std::time::Duration;

use cache_map::cache::CacheConfiguration;

#[test]
fn nothing_is_set_at_first() {
    let config: CacheConfiguration<u64, u64> = CacheConfiguration::new();
    assert_eq!(config.get_default_ttl(), None);
    assert_eq!(config.get_max_capacity(), None);
    assert_eq!(config.get_initial_capacity(), None);
    assert_eq!(config.get_cleanup_interval(), None);
    assert_eq!(config.get_shard_count(), None);
    assert!(config.get_on_evict().is_none());
}

#[test]
fn each_setting_is_kept_apart() {
    let config: CacheConfiguration<u64, u64> = CacheConfiguration::new()
        .set_default_ttl(Duration::from_secs(1))
        .set_max_capacity(2)
        .set_initial_capacity(3)
        .set_cleanup_interval(Duration::from_secs(4))
        .set_shard_count(8);
    assert_eq!(config.get_default_ttl(), Some(Duration::from_secs(1)));
    assert_eq!(config.get_max_capacity(), Some(2));
    assert_eq!(config.get_initial_capacity(), Some(3));
    assert_eq!(config.get_cleanup_interval(), Some(Duration::from_secs(4)));
    assert_eq!(config.get_shard_count(), Some(8));
    assert!(config.get_on_evict().is_none());
}

#[test]
fn last_setting_counts() {
    let config: CacheConfiguration<u64, u64> =
        CacheConfiguration::new().set_max_capacity(2).set_max_capacity(5);
    assert_eq!(config.get_max_capacity(), Some(5));
}

#[test]
fn last_callback_counts() {
    let first = Arc::new(AtomicU64::new(0));
    let second = Arc::new(AtomicU64::new(0));
    let (f, s) = (first.clone(), second.clone());
    let config = CacheConfiguration::new()
        .set_on_evict(move |key: u64, value: u64| {
            f.fetch_add(key + value, Ordering::Relaxed);
        })
        .set_on_evict(move |key: u64, value: u64| {
            s.fetch_add(key + value, Ordering::Relaxed);
        });
    let listener = config.get_on_evict().unwrap();
    listener.call(3, 4);
    let copy = listener.clone();
    copy.call(10, 20);
    assert_eq!(first.load(Ordering::Relaxed), 0);
    assert_eq!(second.load(Ordering::Relaxed), 37);
}

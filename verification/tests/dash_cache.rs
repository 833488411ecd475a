use std::sync::atomic::{AtomicUsize, Ordering};
use std::sync::{Arc, Mutex};
use std::time::{Duration, Instant};

use cache_map::cache::{CacheConfiguration, CacheError, CacheMap};
use cache_map::dash_cache::DashCache;

const PARALLELISM: Option<usize> = Some(4);

fn wait(duration: Duration) {
    let start = Instant::now();
    while start.elapsed() < duration {
        std::hint::spin_loop();
    }
}

fn ms(millis: u64) -> Duration {
    Duration::from_millis(millis)
}

fn numbers(config: CacheConfiguration<u64, u64>) -> DashCache<u64, u64> {
    DashCache::from_config(config, PARALLELISM)
}

type Log = Arc<Mutex<Vec<(u64, u64)>>>;

fn logged(config: CacheConfiguration<u64, u64>) -> (DashCache<u64, u64>, Log) {
    let log: Log = Arc::new(Mutex::new(Vec::new()));
    let writer = log.clone();
    let cache = numbers(config.set_on_evict(move |key: u64, value: u64| {
        writer.lock().unwrap().push((key, value));
    }));
    (cache, log)
}

fn entries(log: &Log) -> Vec<(u64, u64)> {
    log.lock().unwrap().clone()
}

#[test]
fn insert_and_get() {
    let config = CacheConfiguration::new().set_default_ttl(Duration::from_secs(60));
    let mut map: DashCache<String, i32> = DashCache::from_config(config, PARALLELISM);

    map.insert("a".to_string(), 1).unwrap();
    assert_eq!(map.get(&"a".to_string()), Some(1));
}

#[test]
fn expired_entry_returns_none() {
    let config = CacheConfiguration::new().set_default_ttl(Duration::from_millis(50));
    let mut map: DashCache<String, i32> = DashCache::from_config(config, PARALLELISM);
    map.insert("a".to_string(), 1).unwrap();
    wait(Duration::from_millis(100));
    assert_eq!(map.get(&"a".to_string()), None);
}

#[test]
fn insert_with_custom_ttl() {
    let config = CacheConfiguration::new().set_default_ttl(Duration::from_secs(60));
    let mut map: DashCache<String, i32> = DashCache::from_config(config, PARALLELISM);
    map.insert_with_ttl("a".to_string(), 1, Duration::from_millis(50)).unwrap();
    assert_eq!(map.get(&"a".to_string()), Some(1));
    wait(Duration::from_millis(100));
    assert_eq!(map.get(&"a".to_string()), None);
}

#[test]
fn evict_returns_value() {
    let config = CacheConfiguration::new().set_default_ttl(Duration::from_secs(60));
    let mut map: DashCache<String, i32> = DashCache::from_config(config, PARALLELISM);
    map.insert("a".to_string(), 42).unwrap();
    assert_eq!(map.evict(&"a".to_string()), Some(42));
    assert_eq!(map.get(&"a".to_string()), None);
}

#[test]
fn refresh_extends_ttl() {
    let config = CacheConfiguration::new().set_default_ttl(Duration::from_millis(150));
    let mut map: DashCache<String, i32> = DashCache::from_config(config, PARALLELISM);
    map.insert("a".to_string(), 1).unwrap();
    wait(Duration::from_millis(100));
    assert!(map.refresh(&"a".to_string()));
    wait(Duration::from_millis(100));
    // Should still be alive because we refreshed
    assert_eq!(map.get(&"a".to_string()), Some(1));
}

#[test]
fn contains_key_respects_expiry() {
    let config = CacheConfiguration::new().set_default_ttl(Duration::from_millis(50));
    let mut map: DashCache<String, i32> = DashCache::from_config(config, PARALLELISM);
    map.insert("a".to_string(), 1).unwrap();
    assert!(map.contains_key(&"a".to_string()));
    wait(Duration::from_millis(100));
    assert!(!map.contains_key(&"a".to_string()));
}

#[test]
fn cleanup_removes_expired() {
    let config = CacheConfiguration::new().set_default_ttl(Duration::from_millis(50));
    let mut map: DashCache<String, i32> = DashCache::from_config(config, PARALLELISM);
    map.insert("a".to_string(), 1).unwrap();
    map.insert("b".to_string(), 2).unwrap();
    assert_eq!(map.len(), 2);
    wait(Duration::from_millis(100));
    map.cleanup();
    assert_eq!(map.len(), 0);
}

#[test]
fn clear_removes_all() {
    let config = CacheConfiguration::new().set_default_ttl(Duration::from_secs(60));
    let mut map: DashCache<String, i32> = DashCache::from_config(config, PARALLELISM);
    map.insert("a".to_string(), 1).unwrap();
    map.insert("b".to_string(), 2).unwrap();
    map.clear();
    assert!(map.is_empty());
}

#[test]
fn on_evict_fires_on_expiry() {
    let evict_count = Arc::new(AtomicUsize::new(0));
    let counter = evict_count.clone();

    let config = CacheConfiguration::new()
        .set_default_ttl(Duration::from_millis(50))
        .set_on_evict(move |_k: String, _v: i32| {
            counter.fetch_add(1, Ordering::Relaxed);
        });
    let mut map: DashCache<String, i32> = DashCache::from_config(config, PARALLELISM);
    map.insert("a".to_string(), 1).unwrap();
    map.insert("b".to_string(), 2).unwrap();
    wait(Duration::from_millis(100));
    map.cleanup();
    assert_eq!(evict_count.load(Ordering::Relaxed), 2);
}

#[test]
fn entry_expires_when_its_ttl_has_passed() {
    let mut cache = numbers(CacheConfiguration::new());
    cache.insert_with_ttl_at(1, 10, ms(500), ms(1_000)).unwrap();
    assert_eq!(cache.get_at(&1, ms(1_000)), Some(10));
    assert_eq!(cache.get_at(&1, ms(1_499)), Some(10));
    assert_eq!(cache.len(), 1);
    assert_eq!(cache.get_at(&1, ms(1_500)), None);
    assert_eq!(cache.len(), 0);
}

#[test]
fn entry_without_a_lifetime_is_never_found() {
    let mut cache = numbers(CacheConfiguration::new());
    cache.insert_with_ttl_at(1, 10, ms(0), ms(7)).unwrap();
    assert_eq!(cache.len(), 1);
    assert_eq!(cache.get_at(&1, ms(7)), None);
}

#[test]
fn longest_ttl_is_taken() {
    let mut cache = numbers(CacheConfiguration::new());
    cache.insert_with_ttl_at(1, 10, Duration::MAX, Duration::MAX).unwrap();
    assert_eq!(cache.get_at(&1, Duration::MAX), Some(10));
}

#[test]
fn default_ttl_is_five_minutes() {
    let mut cache = numbers(CacheConfiguration::new());
    cache.insert_with_ttl_at(1, 10, ms(1_000), ms(0)).unwrap();
    assert!(cache.refresh_at(&1, ms(0)));
    assert_eq!(cache.get_at(&1, ms(299_999)), Some(10));
    assert_eq!(cache.get_at(&1, ms(300_000)), None);
}

#[test]
fn second_insert_replaces_the_first() {
    let (mut cache, log) = logged(CacheConfiguration::new());
    cache.insert_with_ttl_at(1, 10, ms(50), ms(0)).unwrap();
    cache.insert_with_ttl_at(1, 11, ms(500), ms(10)).unwrap();
    assert_eq!(cache.len(), 1);
    assert_eq!(cache.get_at(&1, ms(100)), Some(11));
    assert_eq!(entries(&log), vec![]);
}

#[test]
fn full_cache_refuses_inserts() {
    let mut cache = numbers(CacheConfiguration::new().set_max_capacity(2));
    assert_eq!(cache.insert(1, 10), Ok(()));
    assert_eq!(cache.insert(2, 20), Ok(()));
    assert_eq!(cache.insert(3, 30), Err(CacheError::MaxCapacityReached));
    // A key that is already stored is refused as well.
    assert_eq!(cache.insert(1, 11), Err(CacheError::MaxCapacityReached));
    assert_eq!(cache.len(), 2);
    assert_eq!(cache.get(&1), Some(10));
    assert_eq!(cache.get(&3), None);
    assert_eq!(cache.evict(&1), Some(10));
    assert_eq!(cache.insert(3, 30), Ok(()));
    assert_eq!(cache.get(&3), Some(30));
}

#[test]
fn expired_entries_count_towards_the_capacity() {
    let mut cache = numbers(CacheConfiguration::new().set_max_capacity(1));
    cache.insert_with_ttl_at(1, 10, ms(5), ms(0)).unwrap();
    assert_eq!(
        cache.insert_with_ttl_at(2, 20, ms(5), ms(100)),
        Err(CacheError::MaxCapacityReached)
    );
    cache.cleanup_at(ms(100));
    assert_eq!(cache.insert_with_ttl_at(2, 20, ms(5), ms(100)), Ok(()));
}

#[test]
fn capacity_zero_takes_nothing() {
    let mut cache = numbers(CacheConfiguration::new().set_max_capacity(0));
    assert_eq!(cache.insert(1, 10), Err(CacheError::MaxCapacityReached));
    assert!(cache.is_empty());
}

#[test]
fn cache_without_a_capacity_grows() {
    let mut cache = numbers(CacheConfiguration::new());
    for key in 0..2_000u64 {
        assert_eq!(cache.insert(key, key + 1), Ok(()));
    }
    assert_eq!(cache.len(), 2_000);
    assert_eq!(cache.get(&1_999), Some(2_000));
}

#[test]
fn operations_leave_other_keys_alone() {
    let mut cache = numbers(CacheConfiguration::new().set_default_ttl(ms(700)));
    for key in 0..5u64 {
        cache.insert_with_ttl_at(key, 100 + key, ms(100 * (key + 1)), ms(0)).unwrap();
    }
    assert_eq!(cache.evict(&0), Some(100));
    assert!(!cache.contains_key_at(&1, ms(250)));
    assert!(cache.refresh_at(&2, ms(250)));
    assert_eq!(cache.get_at(&3, ms(399)), Some(103));
    assert_eq!(cache.get_at(&4, ms(499)), Some(104));
    assert_eq!(cache.get_at(&2, ms(949)), Some(102));
    assert_eq!(cache.len(), 3);
}

#[test]
fn refresh_renews_for_the_default_ttl() {
    let mut cache = numbers(CacheConfiguration::new().set_default_ttl(ms(100)));
    cache.insert_with_ttl_at(1, 10, ms(1_000), ms(0)).unwrap();
    // The default TTL counts from the refresh, also where that is shorter.
    assert!(cache.refresh_at(&1, ms(20)));
    assert_eq!(cache.get_at(&1, ms(119)), Some(10));
    assert_eq!(cache.get_at(&1, ms(120)), None);
    assert!(!cache.refresh_at(&1, ms(121)));
}

#[test]
fn refresh_of_an_expired_entry_evicts_it() {
    let (mut cache, log) = logged(CacheConfiguration::new().set_default_ttl(ms(100)));
    cache.insert_with_ttl_at(1, 10, ms(50), ms(0)).unwrap();
    assert!(!cache.refresh_at(&1, ms(50)));
    assert!(!cache.refresh_at(&2, ms(50)));
    assert_eq!(cache.len(), 0);
    assert_eq!(entries(&log), vec![(1, 10)]);
}

#[test]
fn contains_key_and_get_agree() {
    let (mut asked, asked_log) = logged(CacheConfiguration::new());
    let (mut read, read_log) = logged(CacheConfiguration::new());
    for cache in [&mut asked, &mut read] {
        cache.insert_with_ttl_at(1, 10, ms(50), ms(0)).unwrap();
        cache.insert_with_ttl_at(2, 20, ms(90), ms(0)).unwrap();
    }
    for (key, now) in [(1u64, 49u64), (1, 50), (1, 51), (2, 89), (2, 90), (3, 0)] {
        let present = asked.contains_key_at(&key, ms(now));
        assert_eq!(present, read.get_at(&key, ms(now)).is_some());
        assert_eq!(asked.len(), read.len());
    }
    assert_eq!(entries(&asked_log), vec![(1, 10), (2, 20)]);
    assert_eq!(entries(&read_log), vec![(1, 10), (2, 20)]);
}

#[test]
fn every_eviction_fires_the_callback_once() {
    let (mut cache, log) = logged(CacheConfiguration::new());
    for key in 1..=4u64 {
        cache.insert_with_ttl_at(key, key * 10, ms(50), ms(0)).unwrap();
    }
    cache.insert_with_ttl_at(5, 50, ms(500), ms(0)).unwrap();
    assert_eq!(cache.get_at(&1, ms(60)), None);
    assert_eq!(cache.get_at(&1, ms(61)), None);
    assert!(!cache.contains_key_at(&2, ms(60)));
    assert_eq!(cache.evict(&3), Some(30));
    assert_eq!(cache.evict(&3), None);
    cache.cleanup_at(ms(60));
    cache.cleanup_at(ms(60));
    assert_eq!(entries(&log), vec![(1, 10), (2, 20), (3, 30), (4, 40)]);
    assert_eq!(cache.get_at(&5, ms(60)), Some(50));
}

#[test]
fn evict_returns_an_expired_value_too() {
    let (mut cache, log) = logged(CacheConfiguration::new());
    cache.insert_with_ttl_at(1, 10, ms(0), ms(0)).unwrap();
    assert_eq!(cache.evict(&1), Some(10));
    assert_eq!(entries(&log), vec![(1, 10)]);
}

#[test]
fn clear_fires_the_callback_for_each_entry() {
    let (mut cache, log) = logged(CacheConfiguration::new());
    for key in 0..100u64 {
        cache.insert_with_ttl_at(key, key + 1, ms(key), ms(0)).unwrap();
    }
    assert!(!cache.is_empty());
    cache.clear();
    assert!(cache.is_empty());
    assert_eq!(cache.get(&99), None);
    let mut told = entries(&log);
    told.sort();
    let expected: Vec<(u64, u64)> = (0..100u64).map(|key| (key, key + 1)).collect();
    assert_eq!(told, expected);
    cache.clear();
    assert_eq!(entries(&log).len(), 100);
}

#[test]
fn cleared_cache_keeps_its_settings() {
    let (mut cache, log) =
        logged(CacheConfiguration::new().set_max_capacity(2).set_default_ttl(ms(100)));
    cache.insert(1, 10).unwrap();
    cache.insert(2, 20).unwrap();
    assert_eq!(cache.insert(3, 30), Err(CacheError::MaxCapacityReached));
    cache.clear();
    assert_eq!(entries(&log).len(), 2);
    cache.insert_with_ttl_at(4, 40, ms(10), ms(0)).unwrap();
    cache.insert_with_ttl_at(5, 50, ms(10), ms(0)).unwrap();
    assert_eq!(cache.insert(6, 60), Err(CacheError::MaxCapacityReached));
    assert!(cache.refresh_at(&4, ms(5)));
    assert_eq!(cache.get_at(&4, ms(104)), Some(40));
    assert_eq!(cache.get_at(&4, ms(105)), None);
    assert_eq!(entries(&log).last(), Some(&(4, 40)));
}

#[test]
fn both_cleanups_keep_the_same_entries() {
    // One thread at a time: expired entries are dropped in place. Many threads: they are looked
    // for in parallel.
    for parallelism in [None, Some(8), Some(9), Some(64)] {
        let mut cache: DashCache<u64, u64> =
            DashCache::from_config(CacheConfiguration::new(), parallelism);
        for key in 0..100u64 {
            cache.insert_with_ttl_at(key, key + 1, ms(key), ms(0)).unwrap();
        }
        cache.cleanup_at(ms(60));
        assert_eq!(cache.len(), 39);
        for key in 0..100u64 {
            let expected = if key > 60 { Some(key + 1) } else { None };
            assert_eq!(cache.get_at(&key, ms(60)), expected);
        }
        cache.cleanup_at(ms(60));
        assert_eq!(cache.len(), 39);
    }
}

#[test]
fn cleanup_fires_the_callback_for_each_expired_entry() {
    let (mut cache, log) = logged(CacheConfiguration::new());
    for key in 0..100u64 {
        cache.insert_with_ttl_at(key, key + 1, ms(key), ms(0)).unwrap();
    }
    cache.cleanup_at(ms(60));
    let mut told = entries(&log);
    told.sort();
    let expected: Vec<(u64, u64)> = (0..=60u64).map(|key| (key, key + 1)).collect();
    assert_eq!(told, expected);
    assert_eq!(cache.len(), 39);
}

#[test]
fn cleanup_is_invisible_to_later_reads() {
    let mut cleaned = numbers(CacheConfiguration::new());
    let mut untouched = numbers(CacheConfiguration::new());
    for cache in [&mut cleaned, &mut untouched] {
        for key in 0..50u64 {
            cache.insert_with_ttl_at(key, key, ms(10 * key), ms(0)).unwrap();
        }
    }
    cleaned.cleanup_at(ms(200));
    for key in 0..50u64 {
        assert_eq!(cleaned.get_at(&key, ms(300)), untouched.get_at(&key, ms(300)));
    }
}

#[test]
fn stored_value_survives_other_operations() {
    let mut cache = numbers(CacheConfiguration::new().set_max_capacity(3));
    cache.insert_with_ttl_at(1, 10, ms(100), ms(0)).unwrap();
    cache.insert_with_ttl_at(2, 20, ms(10), ms(1)).unwrap();
    cache.insert_with_ttl_at(3, 30, ms(10), ms(2)).unwrap();
    assert!(cache.insert_with_ttl_at(1, 99, ms(10), ms(3)).is_err());
    assert!(cache.contains_key_at(&1, ms(4)));
    cache.cleanup_at(ms(50));
    assert_eq!(cache.evict(&2), None);
    assert_eq!(cache.get_at(&1, ms(99)), Some(10));
}

#[test]
fn expired_value_is_never_found_again() {
    let mut cache = numbers(CacheConfiguration::new().set_default_ttl(ms(1_000)));
    cache.insert_with_ttl_at(1, 10, ms(100), ms(0)).unwrap();
    cache.insert_with_ttl_at(2, 20, ms(500), ms(1)).unwrap();
    assert_eq!(cache.get_at(&2, ms(90)), Some(20));
    assert!(!cache.refresh_at(&1, ms(100)));
    cache.cleanup_at(ms(120));
    assert_eq!(cache.get_at(&1, ms(130)), None);
    assert_eq!(cache.len(), 1);
}

#[test]
fn shard_count_and_initial_capacity_are_taken() {
    let config = CacheConfiguration::new().set_shard_count(16).set_initial_capacity(10);
    let mut cache = numbers(config);
    assert!(cache.is_empty());
    for key in 0..500u64 {
        cache.insert(key, 2 * key).unwrap();
    }
    assert_eq!(cache.len(), 500);
    assert_eq!(cache.get(&250), Some(500));
    assert_eq!(cache.get(&500), None);
}

#[test]
fn callback_can_feed_another_cache() {
    let children = Arc::new(Mutex::new(numbers(CacheConfiguration::new())));
    children.lock().unwrap().insert(1, 100).unwrap();
    children.lock().unwrap().insert(2, 200).unwrap();
    let tier = children.clone();
    let mut parents = numbers(CacheConfiguration::new().set_on_evict(move |key: u64, _: u64| {
        tier.lock().unwrap().evict(&key);
    }));
    parents.insert(1, 10).unwrap();
    parents.insert(2, 20).unwrap();
    assert_eq!(parents.evict(&1), Some(10));
    assert_eq!(children.lock().unwrap().get(&1), None);
    assert_eq!(children.lock().unwrap().get(&2), Some(200));
}

#[test]
fn cleanup_is_due_when_the_interval_has_passed() {
    let cache = numbers(CacheConfiguration::new().set_cleanup_interval(ms(250)));
    assert!(!cache.is_cleanup_due(ms(249)));
    assert!(cache.is_cleanup_due(ms(250)));
    assert!(cache.is_cleanup_due(ms(1_000)));
    assert!(!numbers(CacheConfiguration::new()).is_cleanup_due(Duration::MAX));
}

#[test]
fn error_in_words() {
    assert_eq!(
        CacheError::MaxCapacityReached.to_string(),
        "cache has reached its maximum capacity"
    );
}

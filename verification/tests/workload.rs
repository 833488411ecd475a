use std::time::Duration;

use cache_map::cache::{CacheConfiguration, CacheMap};
use cache_map::dash_cache::DashCache;
use cache_map::workload::{
    next_loader_action, scenario_continues, Loader, LoaderAction, Preloader, ReadReport, ReadTally,
    Reader, TtlPlan, ELEMENTS_PER_LOAD, READS_PER_REPORT,
};

fn cache() -> DashCache<u64, u64> {
    DashCache::from_config(CacheConfiguration::new(), Some(4))
}

#[test]
fn ttl_ranges() {
    assert_eq!(TtlPlan::Preload.range(false), (5_000, 20_000));
    assert_eq!(TtlPlan::Preload.range(true), (5_000, 20_000));
    assert_eq!(TtlPlan::Mixed.range(true), (2_000, 8_000));
    assert_eq!(TtlPlan::Mixed.range(false), (10_000, 25_000));
}

#[test]
fn short_lived_odds() {
    assert_eq!(TtlPlan::Preload.odds(), None);
    assert_eq!(TtlPlan::Mixed.odds(), Some((2, 5)));
}

#[test]
fn preload_stores_every_key() {
    let mut cache = cache();
    let key_ceiling = Preloader::new().load(&mut cache);
    assert_eq!(key_ceiling, 100_000);
    assert_eq!(cache.len(), 100_000);
    for key in [0, 1, 4_711, 99_999] {
        assert_eq!(cache.get_at(&key, Duration::from_millis(4_999)), Some(key));
    }
    assert_eq!(cache.get(&100_000), None);
    // TTLs are spread over fifteen seconds, so about half of them are over in the middle.
    cache.cleanup_at(Duration::from_millis(12_500));
    assert!(cache.len() > 40_000 && cache.len() < 60_000);
    cache.cleanup_at(Duration::from_secs(1_000));
    assert!(cache.is_empty());
}

#[test]
fn loader_loads_batch_after_batch() {
    let mut cache = cache();
    Preloader::new().load(&mut cache);
    let mut loader = Loader::new();
    assert_eq!(loader.batch(), 1);
    let report = loader.load(&mut cache);
    assert_eq!(report.evicted, 0);
    assert_eq!(report.key_ceiling, 200_000);
    assert_eq!(loader.batch(), 2);
    let report = loader.load(&mut cache);
    assert_eq!(report.key_ceiling, 300_000);
    assert_eq!(cache.len(), 300_000);
    assert_eq!(cache.get(&199_999), Some(199_999));
    assert_eq!(cache.get(&299_999), Some(299_999));
    assert_eq!(cache.get(&300_000), None);
}

#[test]
fn loader_cleans_up_first() {
    let mut cache = cache();
    for key in 0..7 {
        cache.insert_with_ttl(key, key, Duration::from_millis(0)).unwrap();
    }
    cache.insert_with_ttl(7, 7, Duration::from_secs(60)).unwrap();
    let report = Loader::new().load(&mut cache);
    assert_eq!(report.evicted, 7);
    assert_eq!(cache.len() as u64, ELEMENTS_PER_LOAD + 1);
}

#[test]
fn two_in_five_of_a_batch_are_short_lived() {
    let mut cache = cache();
    Loader::new().load(&mut cache);
    cache.cleanup_at(Duration::from_millis(9_999));
    assert!(cache.len() > 58_000 && cache.len() < 62_000);
}

#[test]
fn reader_without_keys_does_nothing() {
    let mut cache = cache();
    let mut reader = Reader::new(0);
    assert_eq!(reader.read(&mut cache, 0), None);
    assert_eq!(reader.reads(), 0);
    assert_eq!(reader.finish(), ReadReport { reads: 0, hits: 0 });
}

#[test]
fn reader_counts_hits() {
    let mut cache = cache();
    for key in 0..50 {
        cache.insert(key, key).unwrap();
    }
    let mut reader = Reader::new(1);
    let mut handed_over = ReadReport { reads: 0, hits: 0 };
    for _ in 0..12_345 {
        if let Some(report) = reader.read(&mut cache, 100) {
            handed_over.reads += report.reads;
            handed_over.hits += report.hits;
        }
    }
    assert_eq!(reader.reads(), 12_345);
    assert_eq!(handed_over.reads, READS_PER_REPORT);
    let rest = reader.finish();
    assert_eq!(rest.reads, 2_345);
    // Half of the keys are stored.
    let hits = handed_over.hits + rest.hits;
    assert!(hits > 5_500 && hits < 6_800);
}

#[test]
fn reader_finds_every_stored_key_and_no_other() {
    let mut cache = cache();
    let mut reader = Reader::new(2);
    reader.read(&mut cache, 10);
    assert_eq!(reader.finish(), ReadReport { reads: 1, hits: 0 });
    for key in 0..10 {
        cache.insert(key, key).unwrap();
    }
    let mut reader = Reader::new(3);
    for _ in 0..100 {
        reader.read(&mut cache, 10);
    }
    assert_eq!(reader.finish(), ReadReport { reads: 100, hits: 100 });
}

#[test]
fn reports_add_up() {
    let mut tally = ReadTally::new();
    let mut reads = 0;
    let mut hits = 0;
    for i in 0..25_000u64 {
        let report = tally.record(i % 3 == 0);
        assert_eq!(report.is_some(), i == 9_999 || i == 19_999);
        if let Some(report) = report {
            assert_eq!(report.reads, 10_000);
            reads += report.reads;
            hits += report.hits;
        }
    }
    let rest = tally.finish();
    assert_eq!(rest.reads, 5_000);
    assert_eq!(reads + rest.reads, 25_000);
    assert_eq!(hits + rest.hits, 8_334);
}

#[test]
fn seed_decides_which_keys_are_read() {
    let mut cache = cache();
    for key in 0..5_000 {
        cache.insert(key, key).unwrap();
    }
    let mut hits_with = |seed: u64| {
        let mut reader = Reader::new(seed);
        for _ in 0..1_000 {
            reader.read(&mut cache, 10_000);
        }
        reader.finish().hits
    };
    let hits: Vec<u64> = (0..20).map(|seed| hits_with(seed)).collect();
    assert_eq!((0..20).map(|seed| hits_with(seed)).collect::<Vec<u64>>(), hits);
    assert!(hits.iter().any(|&count| count != hits[0]));
}

#[test]
fn given_key_is_read_and_counted() {
    let mut cache = cache();
    cache.insert(7, 70).unwrap();
    let mut reader = Reader::new(0);
    assert_eq!(reader.read_key(&mut cache, 7), None);
    assert_eq!(reader.read_key(&mut cache, 8), None);
    assert_eq!(reader.reads(), 2);
    assert_eq!(reader.finish(), ReadReport { reads: 2, hits: 1 });
}

#[test]
fn reads_reach_the_whole_range() {
    let mut cache = cache();
    cache.insert(0, 0).unwrap();
    cache.insert(9, 9).unwrap();
    let mut reader = Reader::new(4);
    for _ in 0..1_000 {
        reader.read(&mut cache, 10);
    }
    // One key in five is stored, at both ends of the range.
    let hits = reader.finish().hits;
    assert!(hits > 130 && hits < 270);
}

#[test]
fn scenario_runs_for_a_minute() {
    assert!(scenario_continues(Duration::from_secs(0)));
    assert!(scenario_continues(Duration::new(59, 999_999_999)));
    assert!(!scenario_continues(Duration::from_secs(60)));
}

#[test]
fn loader_sleeps_and_loads_in_turn() {
    assert_eq!(next_loader_action(true, false), LoaderAction::Sleep);
    assert_eq!(next_loader_action(true, true), LoaderAction::Load);
    assert_eq!(next_loader_action(false, false), LoaderAction::Stop);
    assert_eq!(next_loader_action(false, true), LoaderAction::Stop);
}

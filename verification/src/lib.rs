//! A key-value cache whose entries expire.
//!
//! `CacheMap` is what a cache can do, `DashCache` the cache, `CacheConfiguration` its settings and
//! `CoarseClock` a clock for callers that ask for the time often. What a cache holds and what each
//! operation does to it is written down in `model`; the contracts of the operations are stated in
//! these terms, and `laws` states what follows for all of them together.
pub mod cache;
pub mod clock;
pub mod dash_cache;
pub mod entry;
pub mod eviction;
pub mod laws;
pub mod model;
pub mod random;
mod store;
pub mod time;
pub mod workload;

pub use cache::{CacheConfiguration, CacheError, CacheMap};
pub use clock::CoarseClock;
pub use dash_cache::DashCache;
pub use eviction::EvictionListener;

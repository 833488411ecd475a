# cache_map

A key-value cache with per-entry TTLs, written and proved in Verus.

- `src/cache.rs`: the configuration, the error and the `CacheMap` trait.
- `src/dash_cache.rs`: `DashCache`, a cache on top of `DashMap`. Expired entries go when they are
  looked at, and in bulk on `cleanup()`. An eviction callback, if one is set, is told of every entry
  that expires or is removed.
- `src/clock.rs`: `CoarseClock`, a clock that shows the time of its last tick.
- `src/workload.rs`: the loader and the readers of the stress test.
- `src/model.rs`: the state of a cache, and what each operation does to it.
- `src/laws.rs`: what holds of the operations together.
- `src/entry.rs`, `src/eviction.rs`, `src/store.rs`, `src/time.rs`, `src/random.rs`: entries and
  callbacks, and the parts of `dashmap`, `rayon`, `rand` and the standard library that the cache
  rests on, with what is trusted of them.
- `app/`: a demonstration and the stress test (`stress` as the first argument).

Operations that read the clock say what they do in terms of the reading that they took. For each of
them there is one that takes the time as an argument (`get_at`, `cleanup_at` and so on). Likewise
the workload says what it asks of its random number generator and what it does with the answers.

The operations that change a cache take it by `&mut`, so that what a caller knows of its contents
stays true from one call to the next. To share a cache between threads, put it behind a lock.

What is proved of the entries holds for keys whose `Eq`, `Hash` and `Clone` behave, such as the
integers.

//! The stress workload: a loader that keeps feeding a cache, and readers that keep asking it.
use std::time::Duration;

use vstd::prelude::*;

use crate::cache::CacheMap;
use crate::dash_cache::DashCache;
use crate::model::{cleanup_step, get_step, lemma_live_entries_bounded, CacheState};
use crate::random::{Draw, Generator};
use crate::time::duration_nanos;

verus! {

/// The number of entries in one load.
pub const ELEMENTS_PER_LOAD: u64 = 100_000;

/// The number of reads after which a reader reports.
pub const READS_PER_REPORT: u64 = 10_000;

/// Seed of the generator that picks the TTLs of the first load.
pub const PRELOAD_SEED: u64 = 0xBEEF;

/// Seed of the generator that picks the TTLs of the later loads.
pub const LOADER_SEED: u64 = 0xCAFE;

/// How the TTLs of a load are chosen.
#[derive(Debug, Clone, Copy, PartialEq, Eq, Structural)]
pub enum TtlPlan {
    /// For the first load: all of medium length.
    Preload,
    /// For the later loads: about two in five expire before the next load, the others survive
    /// into the next interval.
    Mixed,
}

/// A TTL that was drawn for an entry.
#[derive(Debug, Clone, Copy, PartialEq, Eq, Structural)]
pub struct DrawnTtl {
    /// Whether the entry belongs to the short-lived group of its load.
    pub short_lived: bool,
    /// The TTL in milliseconds.
    pub ttl_ms: u64,
}

impl TtlPlan {
    /// The odds that an entry is short-lived, as a numerator and a denominator, if the load has two
    /// groups.
    pub open spec fn short_lived_odds(self) -> Option<(u32, u32)> {
        match self {
            TtlPlan::Preload => None,
            TtlPlan::Mixed => Some((2u32, 5u32)),
        }
    }

    /// The range of TTLs of a group, in milliseconds, without its upper end.
    pub open spec fn ttl_range(self, short_lived: bool) -> (u64, u64) {
        match (self, short_lived) {
            (TtlPlan::Preload, _) => (5_000u64, 20_000u64),
            (TtlPlan::Mixed, true) => (2_000u64, 8_000u64),
            (TtlPlan::Mixed, false) => (10_000u64, 25_000u64),
        }
    }

    /// Whether an entry may get this TTL.
    pub open spec fn allows(self, ttl: DrawnTtl) -> bool {
        let (low, high) = self.ttl_range(ttl.short_lived);
        &&& low <= ttl.ttl_ms < high
        &&& ttl.short_lived ==> self.short_lived_odds() is Some
    }

    /// What is asked of a generator, and answered, to draw this TTL: first, if there are two
    /// groups, whether the entry is short-lived, then a number from the range of its group.
    pub open spec fn draws_of(self, ttl: DrawnTtl) -> Seq<Draw> {
        let (low, high) = self.ttl_range(ttl.short_lived);
        let number = Draw::Number { low, high, number: ttl.ttl_ms };
        match self.short_lived_odds() {
            None => seq![number],
            Some((numerator, denominator)) => seq![
                Draw::Chance { numerator, denominator, yes: ttl.short_lived },
                number,
            ],
        }
    }

    /// What is asked of a generator, and answered, to draw these TTLs one after the other.
    pub open spec fn draws_of_all(self, ttls: Seq<DrawnTtl>) -> Seq<Draw>
        decreases ttls.len(),
    {
        if ttls.len() == 0 {
            Seq::empty()
        } else {
            self.draws_of_all(ttls.drop_last()) + self.draws_of(ttls.last())
        }
    }

    /// The odds that an entry is short-lived, as a numerator and a denominator, if the load has two
    /// groups.
    pub fn odds(self) -> (odds: Option<(u32, u32)>)
        ensures
            odds == self.short_lived_odds(),
    {
        match self {
            TtlPlan::Preload => None,
            TtlPlan::Mixed => Some((2, 5)),
        }
    }

    /// The range of TTLs, in milliseconds, without its upper end. `short_lived` tells the two
    /// groups of a mixed load apart.
    pub fn range(self, short_lived: bool) -> (bounds: (u64, u64))
        ensures
            bounds == self.ttl_range(short_lived),
    {
        match self {
            TtlPlan::Preload => (5_000, 20_000),
            TtlPlan::Mixed => if short_lived {
                (2_000, 8_000)
            } else {
                (10_000, 25_000)
            },
        }
    }

    /// Draws a TTL.
    fn draw(self, rng: &mut Generator) -> (ttl: DrawnTtl)
        ensures
            self.allows(ttl),
            final(rng).seed() == old(rng).seed(),
            final(rng).draws() == old(rng).draws() + self.draws_of(ttl),
    {
        let short_lived = match self.odds() {
            None => false,
            Some((numerator, denominator)) => rng.chance(numerator, denominator),
        };
        let (low, high) = self.range(short_lived);
        let ttl_ms = rng.between(low, high);
        DrawnTtl { short_lived, ttl_ms }
    }
}

/// Storing one key for each of `ttls`, from `first` on, each as its own value and for its TTL, at
/// the times of `readings`, all of them between `start` and `end`. All other entries stay as they
/// are.
pub open spec fn load_step(
    before: CacheState<u64, u64>,
    start: nat,
    first: int,
    plan: TtlPlan,
    ttls: Seq<DrawnTtl>,
    readings: Seq<Duration>,
    after: CacheState<u64, u64>,
    end: nat,
) -> bool {
    &&& after == before.with_entries(after.entries)
    &&& forall|i: int| 0 <= i < ttls.len() ==> plan.allows(#[trigger] ttls[i])
    &&& readings.len() == ttls.len()
    &&& forall|i: int|
        0 <= i < readings.len() ==> start <= duration_nanos(#[trigger] readings[i]) <= end
    &&& forall|key: u64|
        !(first <= key < first + ttls.len()) ==> (#[trigger] after.holds(key) <==> before.holds(
            key,
        ))
    &&& forall|key: u64|
        !(first <= key < first + ttls.len()) && #[trigger] after.holds(key) ==> after.entries[key]
            == before.entries[key]
    &&& forall|key: u64|
        first <= key < first + ttls.len() ==> #[trigger] after.holds(key) && loaded_entry(
            after,
            key,
            ttls[key - first],
            readings[key - first],
        )
}

/// The entry under `key` holds the key itself and was stored at the time `reading` for this TTL.
pub open spec fn loaded_entry(
    state: CacheState<u64, u64>,
    key: u64,
    ttl: DrawnTtl,
    reading: Duration,
) -> bool {
    &&& state.entries[key].value == key
    &&& state.entries[key].expires_at == duration_nanos(reading) + ttl.ttl_ms * 1_000_000
}

/// Loads the keys from `first` on, `count` of them, into a cache without a capacity limit, with
/// TTLs that are drawn one after the other.
fn load_range(
    cache: &mut DashCache<u64, u64>,
    rng: &mut Generator,
    first: u64,
    count: u64,
    plan: TtlPlan,
) -> (ttls: Ghost<Seq<DrawnTtl>>)
    requires
        old(cache).wf(),
        old(cache).state().max_capacity is None,
        first + count <= u64::MAX,
    ensures
        final(rng).seed() == old(rng).seed(),
        final(rng).draws() == old(rng).draws() + plan.draws_of_all(ttls@),
        ttls@.len() == count,
        final(cache).clock().started_at() == old(cache).clock().started_at(),
        final(cache).clock().answers().len() == old(cache).clock().answers().len() + count,
        old(cache).clock().answers().is_prefix_of(final(cache).clock().answers()),
        final(cache).wf(),
        final(cache).reading() >= old(cache).reading(),
        load_step(
            old(cache).state(),
            old(cache).reading(),
            first as int,
            plan,
            ttls@,
            final(cache).clock().answers().skip(old(cache).clock().answers().len() as int),
            final(cache).state(),
            final(cache).reading(),
        ),
{
    let ghost before = cache.state();
    let ghost start = cache.reading();
    let ghost mut ttls: Seq<DrawnTtl> = Seq::empty();
    let ghost mut readings: Seq<Duration> = Seq::empty();
    let mut i: u64 = 0;
    while i < count
        invariant
            i <= count,
            ttls.len() == i,
            first + count <= u64::MAX,
            before.max_capacity is None,
            before == old(cache).state(),
            start == old(cache).reading(),
            rng.seed() == old(rng).seed(),
            rng.draws() == old(rng).draws() + plan.draws_of_all(ttls),
            cache.wf(),
            cache.reading() >= start,
            cache.clock().started_at() == old(cache).clock().started_at(),
            cache.clock().answers() == old(cache).clock().answers() + readings,
            load_step(
                before,
                start,
                first as int,
                plan,
                ttls,
                readings,
                cache.state(),
                cache.reading(),
            ),
        decreases count - i,
    {
        let ghost middle = cache.state();
        let ghost drawn = ttls;
        let ghost read = readings;
        let key = first + i;
        let ttl = plan.draw(rng);
        let _ = cache.insert_with_ttl(key, key, Duration::from_millis(ttl.ttl_ms));
        proof {
            ttls = drawn.push(ttl);
            let reading = cache.clock().answers().last();
            readings = read.push(reading);
            assert(ttls.drop_last() =~= drawn);
            let after = cache.state();
            let end = cache.reading();
            assert(after == before.with_entries(after.entries));
            assert(loaded_entry(after, key, ttl, reading));
            assert forall|k: u64| first <= k < first + i implies #[trigger] after.holds(k)
                && loaded_entry(after, k, ttls[k - first], readings[k - first]) by {
                assert(middle.holds(k));
                assert(loaded_entry(middle, k, drawn[k - first], read[k - first]));
            }
            assert forall|k: u64| !(first <= k < first + i + 1) implies (#[trigger] after.holds(k)
                <==> before.holds(k)) by {
                assert(middle.holds(k) <==> before.holds(k));
            }
            assert forall|k: u64|
                !(first <= k < first + i + 1) && #[trigger] after.holds(k) implies after.entries[k]
                == before.entries[k] by {
                assert(middle.holds(k));
            }
        }
        i += 1;
    }
    assert(cache.clock().answers().skip(old(cache).clock().answers().len() as int) =~= readings);
    Ghost(ttls)
}

/// Fills a cache so that readers have something from the start.
pub struct Preloader {
    rng: Generator,
}

impl Preloader {
    /// The seed of the generator that picks the TTLs.
    pub closed spec fn seed(&self) -> u64 {
        self.rng.seed()
    }

    /// What that generator was asked and what it answered.
    pub closed spec fn draws(&self) -> Seq<Draw> {
        self.rng.draws()
    }

    /// The generator that picks the TTLs.
    pub closed spec fn generator(&self) -> Generator {
        self.rng
    }

    /// The record is that of the generator that picks the TTLs.
    pub proof fn draws_are_those_of_the_generator(&self)
        ensures
            self.seed() == self.generator().seed(),
            self.draws() == self.generator().draws(),
    {
    }

    /// A preloader that has loaded nothing.
    pub fn new() -> (preloader: Self)
        ensures
            preloader.seed() == 0xBEEF,
            preloader.draws() == Seq::<Draw>::empty(),
    {
        Preloader { rng: Generator::seeded(PRELOAD_SEED) }
    }

    /// Loads the first keys into a cache without a capacity limit. The result is their number: all
    /// keys below it have been loaded.
    pub fn load(&mut self, cache: &mut DashCache<u64, u64>) -> (key_ceiling: u64)
        requires
            old(cache).wf(),
            old(cache).state().max_capacity is None,
        ensures
            final(cache).wf(),
            final(cache).reading() >= old(cache).reading(),
            final(self).seed() == old(self).seed(),
            key_ceiling == 100_000,
            final(cache).clock().started_at() == old(cache).clock().started_at(),
            final(cache).clock().answers().len() == old(cache).clock().answers().len() + 100_000,
            old(cache).clock().answers().is_prefix_of(final(cache).clock().answers()),
            preload_step(
                old(cache).state(),
                old(cache).reading(),
                old(self).draws(),
                final(cache).clock().answers().skip(old(cache).clock().answers().len() as int),
                final(cache).state(),
                final(cache).reading(),
                final(self).draws(),
            ),
    {
        let ghost before = cache.state();
        let ghost start = cache.reading();
        let ghost asked = cache.clock().answers().len() as int;
        let ttls = load_range(cache, &mut self.rng, 0, ELEMENTS_PER_LOAD, TtlPlan::Preload);
        assert(load_step(
            before,
            start,
            0,
            TtlPlan::Preload,
            ttls@,
            cache.clock().answers().skip(asked),
            cache.state(),
            cache.reading(),
        ));
        ELEMENTS_PER_LOAD
    }
}

/// Loading the first keys, between the times `start` and `end`, with TTLs drawn from a generator.
/// `readings` are the readings of the clock, one for each key.
pub open spec fn preload_step(
    before: CacheState<u64, u64>,
    start: nat,
    draws_before: Seq<Draw>,
    readings: Seq<Duration>,
    after: CacheState<u64, u64>,
    end: nat,
    draws_after: Seq<Draw>,
) -> bool {
    exists|ttls: Seq<DrawnTtl>|
        {
            &&& ttls.len() == ELEMENTS_PER_LOAD
            &&& draws_after == draws_before + TtlPlan::Preload.draws_of_all(ttls)
            &&& #[trigger] load_step(
                before,
                start,
                0,
                TtlPlan::Preload,
                ttls,
                readings,
                after,
                end,
            )
        }
}

/// What a load has done.
#[derive(Debug, Clone, Copy, PartialEq, Eq, Structural)]
pub struct LoadReport {
    /// The number of expired entries that were cleaned up.
    pub evicted: usize,
    /// The number of keys that have been loaded so far: all keys below it.
    pub key_ceiling: u64,
}

/// Loading the batch with the number `batch`, between the times `start` and `end`: the expired
/// entries go, then the keys of the batch are stored, with TTLs drawn from a generator. `readings`
/// are the readings of the clock: one for the cleanup, then one for each key.
pub open spec fn batch_step(
    before: CacheState<u64, u64>,
    start: nat,
    draws_before: Seq<Draw>,
    readings: Seq<Duration>,
    batch: int,
    report: LoadReport,
    after: CacheState<u64, u64>,
    end: nat,
    draws_after: Seq<Draw>,
) -> bool {
    exists|now: nat, cleaned: CacheState<u64, u64>, ttls: Seq<DrawnTtl>|
        {
            &&& start <= now <= end
            &&& readings.len() == ELEMENTS_PER_LOAD + 1
            &&& now == duration_nanos(readings.first())
            &&& #[trigger] cleanup_step(before, now, cleaned)
            &&& report.evicted == before.entries.len() - cleaned.entries.len()
            &&& report.key_ceiling == (batch + 1) * ELEMENTS_PER_LOAD
            &&& ttls.len() == ELEMENTS_PER_LOAD
            &&& draws_after == draws_before + TtlPlan::Mixed.draws_of_all(ttls)
            &&& #[trigger] load_step(
                cleaned,
                now,
                batch * ELEMENTS_PER_LOAD,
                TtlPlan::Mixed,
                ttls,
                readings.skip(1),
                after,
                end,
            )
        }
}

/// Feeds a cache with one batch of keys after the other. Batch zero is the preload.
pub struct Loader {
    rng: Generator,
    batch: u64,
}

impl Loader {
    /// The number of the next batch.
    pub closed spec fn next_batch(&self) -> u64 {
        self.batch
    }

    /// The seed of the generator that picks the TTLs.
    pub closed spec fn seed(&self) -> u64 {
        self.rng.seed()
    }

    /// What that generator was asked and what it answered.
    pub closed spec fn draws(&self) -> Seq<Draw> {
        self.rng.draws()
    }

    /// The generator that picks the TTLs.
    pub closed spec fn generator(&self) -> Generator {
        self.rng
    }

    /// The record is that of the generator that picks the TTLs.
    pub proof fn draws_are_those_of_the_generator(&self)
        ensures
            self.seed() == self.generator().seed(),
            self.draws() == self.generator().draws(),
    {
    }

    /// A loader for the batches after the preload.
    pub fn new() -> (loader: Self)
        ensures
            loader.seed() == 0xCAFE,
            loader.draws() == Seq::<Draw>::empty(),
            loader.next_batch() == 1,
    {
        Loader { rng: Generator::seeded(LOADER_SEED), batch: 1 }
    }

    /// The number of the next batch.
    pub fn batch(&self) -> (batch: u64)
        ensures
            batch == self.next_batch(),
    {
        self.batch
    }

    /// Cleans up a cache without a capacity limit and loads the next batch into it.
    pub fn load(&mut self, cache: &mut DashCache<u64, u64>) -> (report: LoadReport)
        requires
            old(cache).wf(),
            old(cache).state().max_capacity is None,
            (old(self).next_batch() + 1) * ELEMENTS_PER_LOAD <= u64::MAX,
        ensures
            final(cache).wf(),
            final(cache).reading() >= old(cache).reading(),
            final(self).seed() == old(self).seed(),
            final(self).next_batch() == old(self).next_batch() + 1,
            final(cache).clock().started_at() == old(cache).clock().started_at(),
            final(cache).clock().answers().len() == old(cache).clock().answers().len() + 100_001,
            old(cache).clock().answers().is_prefix_of(final(cache).clock().answers()),
            batch_step(
                old(cache).state(),
                old(cache).reading(),
                old(self).draws(),
                final(cache).clock().answers().skip(old(cache).clock().answers().len() as int),
                old(self).next_batch() as int,
                report,
                final(cache).state(),
                final(cache).reading(),
                final(self).draws(),
            ),
    {
        let ghost initial = cache.state();
        let ghost asked = cache.clock().answers().len() as int;
        proof {
            cache.stays_within_capacity();
        }
        let before = cache.len();
        cache.cleanup();
        let ghost now = cache.reading();
        let ghost cleaned = cache.state();
        let after = cache.len();
        let evicted = before.saturating_sub(after);

        let base_key = self.batch * ELEMENTS_PER_LOAD;
        let ttls = load_range(
            cache,
            &mut self.rng,
            base_key,
            ELEMENTS_PER_LOAD,
            TtlPlan::Mixed,
        );
        self.batch += 1;
        proof {
            assert(cleanup_step(initial, now, cleaned));
            let answers = cache.clock().answers();
            assert(answers.skip(asked).skip(1) =~= answers.skip(asked + 1));
            assert(load_step(
                cleaned,
                now,
                base_key as int,
                TtlPlan::Mixed,
                ttls@,
                answers.skip(asked + 1),
                cache.state(),
                cache.reading(),
            ));
            lemma_live_entries_bounded(initial, now);
        }
        LoadReport { evicted, key_ceiling: base_key + ELEMENTS_PER_LOAD }
    }
}

/// Reads, and how many of them found a value, that a reader hands over to be added up.
#[derive(Debug, Clone, Copy, PartialEq, Eq, Structural)]
pub struct ReadReport {
    pub reads: u64,
    pub hits: u64,
}

/// The counts of one reader. They are handed over in bulk, so that readers seldom contend for the
/// shared totals.
pub struct ReadTally {
    reads: u64,
    hits: u64,
}

impl ReadTally {
    /// The number of reads so far.
    pub closed spec fn total_reads(&self) -> u64 {
        self.reads
    }

    /// The number of reads that have not been handed over.
    pub open spec fn pending_reads(&self) -> u64 {
        self.total_reads() % READS_PER_REPORT
    }

    /// The number of hits that have not been handed over.
    pub closed spec fn pending_hits(&self) -> u64 {
        self.hits
    }

    /// There are no more hits than reads.
    pub open spec fn wf(&self) -> bool {
        self.pending_hits() <= self.pending_reads()
    }

    /// A tally of nothing.
    pub fn new() -> (tally: Self)
        ensures
            tally.wf(),
            tally.total_reads() == 0,
            tally.pending_hits() == 0,
    {
        ReadTally { reads: 0, hits: 0 }
    }

    /// Counts one read. When enough of them have come together, they are handed over.
    pub fn record(&mut self, hit: bool) -> (report: Option<ReadReport>)
        requires
            old(self).wf(),
            old(self).total_reads() < u64::MAX,
        ensures
            final(self).wf(),
            tally_step(*old(self), hit, report, *final(self)),
    {
        if hit {
            self.hits += 1;
        }
        self.reads += 1;
        if self.reads % READS_PER_REPORT == 0 {
            let report = ReadReport { reads: READS_PER_REPORT, hits: self.hits };
            self.hits = 0;
            Some(report)
        } else {
            None
        }
    }

    /// What is left to hand over at the end.
    pub fn finish(self) -> (report: ReadReport)
        ensures
            report.reads == self.pending_reads(),
            report.hits == self.pending_hits(),
    {
        ReadReport { reads: self.reads % READS_PER_REPORT, hits: self.hits }
    }
}

/// Counting one read: with it, a full report is handed over and the hits start anew.
pub open spec fn tally_step(
    before: ReadTally,
    hit: bool,
    report: Option<ReadReport>,
    after: ReadTally,
) -> bool {
    let hits = before.pending_hits() + if hit {
        1int
    } else {
        0int
    };
    &&& after.total_reads() == before.total_reads() + 1
    &&& if before.pending_reads() + 1 == READS_PER_REPORT {
        &&& report == Some(ReadReport { reads: READS_PER_REPORT, hits: hits as u64 })
        &&& after.pending_hits() == 0
    } else {
        &&& report is None
        &&& after.pending_hits() == hits
    }
}

/// Asks a cache for random keys and counts the hits.
pub struct Reader {
    rng: Generator,
    tally: ReadTally,
}

/// One read of a reader at the time `now`: of a key that is drawn from all keys below
/// `key_ceiling`, if there are any.
pub open spec fn read_step(
    before: CacheState<u64, u64>,
    draws_before: Seq<Draw>,
    tally_before: ReadTally,
    key_ceiling: u64,
    now: nat,
    report: Option<ReadReport>,
    after: CacheState<u64, u64>,
    draws_after: Seq<Draw>,
    tally_after: ReadTally,
) -> bool {
    if key_ceiling == 0 {
        &&& after == before
        &&& draws_after == draws_before
        &&& tally_after == tally_before
        &&& report is None
    } else {
        exists|key: u64|
            {
                &&& key < key_ceiling
                &&& draws_after == draws_before.push(
                    Draw::Number { low: 0, high: key_ceiling, number: key },
                )
                &&& #[trigger] key_step(before, tally_before, key, now, report, after, tally_after)
            }
    }
}

/// Reading the key `key` at the time `now` and counting the read.
pub open spec fn key_step(
    before: CacheState<u64, u64>,
    tally_before: ReadTally,
    key: u64,
    now: nat,
    report: Option<ReadReport>,
    after: CacheState<u64, u64>,
    tally_after: ReadTally,
) -> bool {
    exists|value: Option<u64>|
        {
            &&& #[trigger] get_step(before, key, now, value, after)
            &&& tally_step(tally_before, value is Some, report, tally_after)
        }
}

impl Reader {
    /// The counts of the reader.
    pub closed spec fn tally(&self) -> ReadTally {
        self.tally
    }

    /// The seed of the generator that picks the keys.
    pub closed spec fn seed(&self) -> u64 {
        self.rng.seed()
    }

    /// What that generator was asked and what it answered.
    pub closed spec fn draws(&self) -> Seq<Draw> {
        self.rng.draws()
    }

    /// The generator that picks the keys.
    pub closed spec fn generator(&self) -> Generator {
        self.rng
    }

    /// The record is that of the generator that picks the keys.
    pub proof fn draws_are_those_of_the_generator(&self)
        ensures
            self.seed() == self.generator().seed(),
            self.draws() == self.generator().draws(),
    {
    }

    /// The invariant of the reader.
    pub open spec fn wf(&self) -> bool {
        self.tally().wf()
    }

    /// A reader that picks its keys with a generator made from `seed`. Which keys these are depends
    /// on the platform.
    pub fn new(seed: u64) -> (reader: Self)
        ensures
            reader.wf(),
            reader.seed() == seed,
            reader.draws() == Seq::<Draw>::empty(),
            reader.tally().total_reads() == 0,
            reader.tally().pending_hits() == 0,
    {
        Reader { rng: Generator::seeded(seed), tally: ReadTally::new() }
    }

    /// The number of reads so far.
    pub fn reads(&self) -> (reads: u64)
        ensures
            reads == self.tally().total_reads(),
    {
        self.tally.reads
    }

    /// Reads a random key below `key_ceiling`. Many reads miss, because the entry has expired.
    pub fn read(&mut self, cache: &mut DashCache<u64, u64>, key_ceiling: u64) -> (report: Option<
        ReadReport,
    >)
        requires
            old(self).wf(),
            old(self).tally().total_reads() < u64::MAX,
            old(cache).wf(),
        ensures
            final(self).wf(),
            final(self).seed() == old(self).seed(),
            final(cache).wf(),
            final(cache).reading() >= old(cache).reading(),
            key_ceiling == 0 ==> *final(cache) == *old(cache),
            key_ceiling > 0 ==> {
                &&& final(cache).clock().started_at() == old(cache).clock().started_at()
                &&& final(cache).clock().answers() == old(cache).clock().answers().push(
                    final(cache).clock().answers().last(),
                )
                &&& final(cache).reading() == duration_nanos(final(cache).clock().answers().last())
                &&& final(self).draws() == old(self).draws().push(final(self).draws().last())
                &&& final(self).draws().last() matches Draw::Number { low, high, number }
                &&& low == 0
                &&& high == key_ceiling
                &&& number < key_ceiling
            },
            read_step(
                old(cache).state(),
                old(self).draws(),
                old(self).tally(),
                key_ceiling,
                final(cache).reading(),
                report,
                final(cache).state(),
                final(self).draws(),
                final(self).tally(),
            ),
    {
        if key_ceiling == 0 {
            return None;
        }
        let key = self.rng.between(0, key_ceiling);
        self.read_key(cache, key)
    }

    /// Reads a key and counts the read.
    pub fn read_key(&mut self, cache: &mut DashCache<u64, u64>, key: u64) -> (report: Option<
        ReadReport,
    >)
        requires
            old(self).wf(),
            old(self).tally().total_reads() < u64::MAX,
            old(cache).wf(),
        ensures
            final(self).wf(),
            final(self).seed() == old(self).seed(),
            final(self).draws() == old(self).draws(),
            final(cache).wf(),
            final(cache).reading() >= old(cache).reading(),
            final(cache).clock().started_at() == old(cache).clock().started_at(),
            final(cache).clock().answers() == old(cache).clock().answers().push(
                final(cache).clock().answers().last(),
            ),
            final(cache).reading() == duration_nanos(final(cache).clock().answers().last()),
            key_step(
                old(cache).state(),
                old(self).tally(),
                key,
                final(cache).reading(),
                report,
                final(cache).state(),
                final(self).tally(),
            ),
    {
        let value = cache.get(&key);
        self.tally.record(value.is_some())
    }

    /// What is left to hand over at the end.
    pub fn finish(self) -> (report: ReadReport)
        ensures
            report.reads == self.tally().pending_reads(),
            report.hits == self.tally().pending_hits(),
    {
        self.tally.finish()
    }
}

/// How long a scenario runs, in seconds.
pub const SCENARIO_SECS: u64 = 60;

/// Whether a scenario that has been running for `elapsed` goes on.
pub fn scenario_continues(elapsed: Duration) -> (go: bool)
    ensures
        go == (duration_nanos(elapsed) < 60_000_000_000),
{
    elapsed.as_nanos() < Duration::from_secs(SCENARIO_SECS).as_nanos()
}

/// What the loader does next.
#[derive(Debug, Clone, Copy, PartialEq, Eq, Structural)]
pub enum LoaderAction {
    /// Wait for the next load.
    Sleep,
    /// Load the next batch.
    Load,
    /// Stop for good.
    Stop,
}

/// What the loader does next: as long as the scenario is running, it sleeps and loads in turn.
pub fn next_loader_action(running: bool, slept: bool) -> (action: LoaderAction)
    ensures
        action == (match (running, slept) {
            (false, _) => LoaderAction::Stop,
            (true, false) => LoaderAction::Sleep,
            (true, true) => LoaderAction::Load,
        }),
{
    if !running {
        LoaderAction::Stop
    } else if slept {
        LoaderAction::Load
    } else {
        LoaderAction::Sleep
    }
}

} // verus!

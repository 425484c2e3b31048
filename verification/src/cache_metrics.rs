//! Cache hit, miss, eviction and latency figures.

use crate::clock::{Clock, Duration, Instant};
use crate::metrics;
use crate::metrics::{push_block, push_counter, push_gauge};
use crate::ratio;
use crate::ratio::{fixed3, fixed6, Ratio};
use crate::ring;
use crate::text;
use vstd::prelude::*;
use vstd::string::*;

verus! {

/// A bounded rolling window with the times of recent evictions.
pub struct EvictionWindow {
    pub timestamps: Vec<Instant>,
    pub capacity: usize,
}

/// How many readings of `times` lie within `window` before `now`. Readings
/// never lie before the clock's origin.
pub open spec fn count_recent(times: Seq<Instant>, window: Duration, now: Instant) -> nat
    decreases times.len(),
{
    if times.len() == 0 {
        0
    } else {
        count_recent(times.drop_last(), window, now) + if times.last().nanos + window.nanos
            >= now.nanos {
            1nat
        } else {
            0nat
        }
    }
}

impl EvictionWindow {
    /// An empty window for at most `capacity` times.
    pub fn new(capacity: usize) -> (r: Self)
        ensures
            r.timestamps@ == Seq::<Instant>::empty(),
            r.capacity == capacity,
    {
        EvictionWindow { timestamps: Vec::new(), capacity }
    }

    /// Records an eviction at `now`; once full, the oldest time is dropped.
    pub fn record_at(&mut self, now: Instant)
        ensures
            final(self).capacity == old(self).capacity,
            final(self).timestamps@ == ring::keep_last(
                old(self).timestamps@.push(now),
                old(self).capacity as nat,
            ),
    {
        let cap: usize = self.capacity;
        ring::push_bounded(&mut self.timestamps, now, cap);
    }

    /// How many evictions lie within `window` before `now`.
    pub fn count_within_at(&self, window: Duration, now: Instant) -> (r: usize)
        ensures
            r == count_recent(self.timestamps@, window, now),
    {
        let cutoff: u128 = if now.nanos >= window.nanos {
            now.nanos - window.nanos
        } else {
            0
        };
        let mut n: usize = 0;
        let mut i: usize = 0;
        while i < self.timestamps.len()
            invariant
                i <= self.timestamps.len(),
                n <= i,
                cutoff == if now.nanos >= window.nanos {
                    now.nanos - window.nanos
                } else {
                    0
                },
                n == count_recent(self.timestamps@.take(i as int), window, now),
            decreases self.timestamps.len() - i,
        {
            assert(self.timestamps@.take(i + 1).drop_last() =~= self.timestamps@.take(i as int));
            if self.timestamps[i].nanos >= cutoff {
                n += 1;
            }
            i += 1;
        }
        assert(self.timestamps@.take(i as int) =~= self.timestamps@);
        n
    }

    /// How many times the window holds.
    pub fn total(&self) -> (r: usize)
        ensures
            r == self.timestamps@.len(),
    {
        self.timestamps.len()
    }
}

/// Total latency in microseconds and the number of samples.
#[derive(Debug, Clone, Copy, PartialEq, Eq, Structural)]
pub struct LatencyAccumulator {
    pub total_us: u64,
    pub count: u64,
}

/// The whole microseconds of a span, at most what 64 bits hold.
pub open spec fn sample_us(elapsed: Duration) -> u64 {
    if elapsed.nanos / 1_000 <= u64::MAX {
        (elapsed.nanos / 1_000) as u64
    } else {
        u64::MAX
    }
}

impl LatencyAccumulator {
    /// The accumulator with one more sample. Both figures wrap around.
    pub open spec fn sampled(self, elapsed: Duration) -> LatencyAccumulator {
        LatencyAccumulator {
            total_us: wrapping_sum(self.total_us, sample_us(elapsed)),
            count: wrapping_sum(self.count, 1),
        }
    }

    /// The mean as a fraction of total over count.
    pub open spec fn mean(self) -> Option<Ratio> {
        if self.count == 0 {
            None
        } else {
            Some(Ratio { num: self.total_us, den: self.count })
        }
    }

    /// An accumulator without samples.
    pub fn new() -> (r: Self)
        ensures
            r == (LatencyAccumulator { total_us: 0, count: 0 }),
    {
        LatencyAccumulator { total_us: 0, count: 0 }
    }

    /// Adds a sample.
    pub fn record(&mut self, elapsed: Duration)
        ensures
            *final(self) == old(self).sampled(elapsed),
    {
        let micros: u128 = elapsed.as_micros();
        let us: u64 = if micros <= u64::MAX as u128 {
            micros as u64
        } else {
            u64::MAX
        };
        self.total_us = self.total_us.wrapping_add(us);
        self.count = self.count.wrapping_add(1);
    }

    /// Mean latency in microseconds, or `None` if no samples.
    pub fn mean_us(&self) -> (r: Option<Ratio>)
        ensures
            r == self.mean(),
    {
        if self.count == 0 {
            None
        } else {
            Some(Ratio { num: self.total_us, den: self.count })
        }
    }
}

/// The sum of two counters, wrapping around at 64 bits.
pub open spec fn wrapping_sum(a: u64, b: u64) -> u64 {
    if a + b > u64::MAX {
        (a + b - 0x1_0000_0000_0000_0000) as u64
    } else {
        (a + b) as u64
    }
}

/// One less, but never below zero.
pub open spec fn less_one(n: u64) -> u64 {
    if n == 0 {
        0
    } else {
        (n - 1) as u64
    }
}

/// Cache metrics collector.
pub struct CacheMetrics {
    pub hits: u64,
    pub misses: u64,
    pub sets: u64,
    pub deletes: u64,
    pub total_entries: u64,
    pub eviction_window: EvictionWindow,
    pub read_latency: LatencyAccumulator,
    pub write_latency: LatencyAccumulator,
    pub clock: Clock,
}

/// A point-in-time snapshot of cache metrics.
#[derive(Debug, Clone, Copy)]
pub struct CacheMetricsSnapshot {
    /// Total cache hits since creation.
    pub hits: u64,
    /// Total cache misses since creation.
    pub misses: u64,
    /// Total set operations since creation.
    pub sets: u64,
    /// Total delete operations since creation.
    pub deletes: u64,
    /// Current number of tracked cache entries.
    pub total_entries: u64,
    /// Hit ratio; `None` if no accesses recorded.
    pub hit_ratio: Option<Ratio>,
    /// Number of evictions currently in the rolling window.
    pub evictions_tracked: u64,
    /// Mean read latency in microseconds; `None` if no reads recorded.
    pub mean_read_latency_us: Option<Ratio>,
    /// Mean write latency in microseconds; `None` if no writes recorded.
    pub mean_write_latency_us: Option<Ratio>,
}

/// The block that shows a fraction, or nothing where there is none.
pub open spec fn ratio_block(
    name: Seq<char>,
    help: Seq<char>,
    value: Option<Ratio>,
    places: nat,
) -> Seq<char> {
    match value {
        Some(v) => metrics::block(
            name,
            help,
            "gauge"@,
            ratio::fixed(v.num as nat, v.den as nat, places),
        ),
        None => Seq::empty(),
    }
}

impl CacheMetricsSnapshot {
    /// The snapshot in Prometheus text exposition format.
    pub open spec fn exposition(self) -> Seq<char> {
        metrics::block(
            "cache_hits_total"@,
            "Total cache hits"@,
            "counter"@,
            text::decimal(self.hits as nat),
        ) + metrics::block(
            "cache_misses_total"@,
            "Total cache misses"@,
            "counter"@,
            text::decimal(self.misses as nat),
        ) + metrics::block(
            "cache_sets_total"@,
            "Total cache set operations"@,
            "counter"@,
            text::decimal(self.sets as nat),
        ) + metrics::block(
            "cache_deletes_total"@,
            "Total cache delete operations"@,
            "counter"@,
            text::decimal(self.deletes as nat),
        ) + metrics::block(
            "cache_entries"@,
            "Current number of cache entries"@,
            "gauge"@,
            text::decimal(self.total_entries as nat),
        ) + metrics::block(
            "cache_evictions_tracked"@,
            "Evictions recorded in rolling window"@,
            "gauge"@,
            text::decimal(self.evictions_tracked as nat),
        ) + ratio_block("cache_hit_ratio"@, "Cache hit ratio"@, self.hit_ratio, 6) + ratio_block(
            "cache_mean_read_latency_us"@,
            "Mean read latency in microseconds"@,
            self.mean_read_latency_us,
            3,
        ) + ratio_block(
            "cache_mean_write_latency_us"@,
            "Mean write latency in microseconds"@,
            self.mean_write_latency_us,
            3,
        )
    }
}

impl CacheMetrics {
    /// Create a new metrics collector. `eviction_window_capacity` bounds the
    /// number of eviction times kept; once full, the oldest are dropped.
    pub fn new(eviction_window_capacity: usize) -> (r: Self)
        ensures
            r.hits == 0,
            r.misses == 0,
            r.sets == 0,
            r.deletes == 0,
            r.total_entries == 0,
            r.eviction_window.timestamps@.len() == 0,
            r.eviction_window.capacity == eviction_window_capacity,
            r.read_latency == (LatencyAccumulator { total_us: 0, count: 0 }),
            r.write_latency == (LatencyAccumulator { total_us: 0, count: 0 }),
    {
        CacheMetrics {
            hits: 0,
            misses: 0,
            sets: 0,
            deletes: 0,
            total_entries: 0,
            eviction_window: EvictionWindow::new(eviction_window_capacity),
            read_latency: LatencyAccumulator::new(),
            write_latency: LatencyAccumulator::new(),
            clock: Clock::new(),
        }
    }

    /// Record a cache hit.
    pub fn record_hit(&mut self)
        ensures
            *final(self) == (CacheMetrics { hits: wrapping_sum(old(self).hits, 1), ..*old(self) }),
    {
        self.hits = self.hits.wrapping_add(1);
    }

    /// Record the observed read latency of a cache hit. The hit itself is
    /// counted by [`CacheMetrics::record_hit`].
    pub fn record_hit_with_latency(&mut self, elapsed: Duration)
        ensures
            *final(self) == (CacheMetrics {
                read_latency: old(self).read_latency.sampled(elapsed),
                ..*old(self)
            }),
    {
        self.read_latency.record(elapsed);
    }

    /// Record a cache miss.
    pub fn record_miss(&mut self)
        ensures
            *final(self) == (CacheMetrics {
                misses: wrapping_sum(old(self).misses, 1),
                ..*old(self)
            }),
    {
        self.misses = self.misses.wrapping_add(1);
    }

    /// Record a cache miss with the observed read latency.
    pub fn record_miss_with_latency(&mut self, elapsed: Duration)
        ensures
            *final(self) == (CacheMetrics {
                misses: wrapping_sum(old(self).misses, 1),
                read_latency: old(self).read_latency.sampled(elapsed),
                ..*old(self)
            }),
    {
        self.misses = self.misses.wrapping_add(1);
        self.read_latency.record(elapsed);
    }

    /// Record a cache set (write) operation. `is_new_entry` is `true` for a
    /// new key and `false` for an update of an existing one.
    pub fn record_set(&mut self, is_new_entry: bool)
        ensures
            *final(self) == (CacheMetrics {
                sets: wrapping_sum(old(self).sets, 1),
                total_entries: if is_new_entry {
                    wrapping_sum(old(self).total_entries, 1)
                } else {
                    old(self).total_entries
                },
                ..*old(self)
            }),
    {
        self.sets = self.sets.wrapping_add(1);
        if is_new_entry {
            self.total_entries = self.total_entries.wrapping_add(1);
        }
    }

    /// Record a cache set with write latency.
    pub fn record_set_with_latency(&mut self, is_new_entry: bool, elapsed: Duration)
        ensures
            *final(self) == (CacheMetrics {
                sets: wrapping_sum(old(self).sets, 1),
                total_entries: if is_new_entry {
                    wrapping_sum(old(self).total_entries, 1)
                } else {
                    old(self).total_entries
                },
                write_latency: old(self).write_latency.sampled(elapsed),
                ..*old(self)
            }),
    {
        self.record_set(is_new_entry);
        self.write_latency.record(elapsed);
    }

    /// Record a deletion from the cache.
    pub fn record_delete(&mut self)
        ensures
            *final(self) == (CacheMetrics {
                deletes: wrapping_sum(old(self).deletes, 1),
                total_entries: less_one(old(self).total_entries),
                ..*old(self)
            }),
    {
        self.deletes = self.deletes.wrapping_add(1);
        self.total_entries = self.total_entries.saturating_sub(1);
    }

    /// Whether `after` is `before` with one eviction recorded at `now`.
    pub open spec fn evicted(before: CacheMetrics, after: CacheMetrics, now: Instant) -> bool {
        &&& after == (CacheMetrics {
            total_entries: less_one(before.total_entries),
            eviction_window: after.eviction_window,
            ..before
        })
        &&& after.eviction_window.capacity == before.eviction_window.capacity
        &&& after.eviction_window.timestamps@ == ring::keep_last(
            before.eviction_window.timestamps@.push(now),
            before.eviction_window.capacity as nat,
        )
    }

    /// Record that a cache entry was evicted (e.g. due to TTL expiry). One
    /// entry less is live, and the moment goes into the eviction window.
    pub fn record_eviction(&mut self)
        ensures
            exists|now: Instant| #[trigger] Self::evicted(*old(self), *final(self), now),
    {
        let now = self.clock.now();
        self.record_eviction_at(now);
        assert(Self::evicted(*old(self), *self, now));
    }

    /// Record that a cache entry was evicted at `now`.
    pub fn record_eviction_at(&mut self, now: Instant)
        ensures
            Self::evicted(*old(self), *final(self), now),
    {
        self.total_entries = self.total_entries.saturating_sub(1);
        self.eviction_window.record_at(now);
    }

    /// Hits as a fraction of all accesses; `None` when there were none.
    pub open spec fn spec_hit_ratio(self) -> Option<Ratio> {
        let total = wrapping_sum(self.hits, self.misses);
        if total == 0 {
            None
        } else {
            Some(Ratio { num: self.hits, den: total })
        }
    }

    /// Hits as a fraction of all accesses. Returns `None` when no accesses
    /// have been recorded.
    pub fn hit_ratio(&self) -> (r: Option<Ratio>)
        ensures
            r == self.spec_hit_ratio(),
    {
        let total: u64 = self.hits.wrapping_add(self.misses);
        if total == 0 {
            None
        } else {
            Some(Ratio { num: self.hits, den: total })
        }
    }

    /// Number of evictions recorded in the rolling window: those of the last
    /// `lookback`, or all of them for `None`.
    pub fn evictions_in_window(&self, lookback: Option<Duration>) -> (r: usize)
        ensures
            match lookback {
                Some(d) => exists|now: Instant|
                    r == #[trigger] count_recent(self.eviction_window.timestamps@, d, now),
                None => r == self.eviction_window.timestamps@.len(),
            },
    {
        self.evictions_in_window_at(lookback, self.clock.now())
    }

    /// Number of evictions recorded in the rolling window, seen from `now`.
    pub fn evictions_in_window_at(&self, lookback: Option<Duration>, now: Instant) -> (r: usize)
        ensures
            match lookback {
                Some(d) => r == count_recent(self.eviction_window.timestamps@, d, now),
                None => r == self.eviction_window.timestamps@.len(),
            },
    {
        match lookback {
            Some(d) => self.eviction_window.count_within_at(d, now),
            None => self.eviction_window.total(),
        }
    }

    /// Evictions in the rolling window (bounded by its capacity).
    pub fn total_evictions_tracked(&self) -> (r: usize)
        ensures
            r == self.eviction_window.timestamps@.len(),
    {
        self.eviction_window.total()
    }

    /// Mean read latency in microseconds, or `None` if no reads recorded.
    pub fn mean_read_latency_us(&self) -> (r: Option<Ratio>)
        ensures
            r == self.read_latency.mean(),
    {
        self.read_latency.mean_us()
    }

    /// Mean write latency in microseconds, or `None` if no writes recorded.
    pub fn mean_write_latency_us(&self) -> (r: Option<Ratio>)
        ensures
            r == self.write_latency.mean(),
    {
        self.write_latency.mean_us()
    }

    /// What a snapshot shows.
    pub open spec fn spec_snapshot(self) -> CacheMetricsSnapshot {
        CacheMetricsSnapshot {
            hits: self.hits,
            misses: self.misses,
            sets: self.sets,
            deletes: self.deletes,
            total_entries: self.total_entries,
            hit_ratio: self.spec_hit_ratio(),
            evictions_tracked: self.eviction_window.timestamps@.len() as u64,
            mean_read_latency_us: self.read_latency.mean(),
            mean_write_latency_us: self.write_latency.mean(),
        }
    }

    /// Return a point-in-time snapshot of all metrics.
    pub fn snapshot(&self) -> (r: CacheMetricsSnapshot)
        ensures
            r == self.spec_snapshot(),
    {
        CacheMetricsSnapshot {
            hits: self.hits,
            misses: self.misses,
            sets: self.sets,
            deletes: self.deletes,
            total_entries: self.total_entries,
            hit_ratio: self.hit_ratio(),
            evictions_tracked: self.eviction_window.total() as u64,
            mean_read_latency_us: self.read_latency.mean_us(),
            mean_write_latency_us: self.write_latency.mean_us(),
        }
    }

    /// Render all cache metrics in Prometheus text exposition format.
    pub fn render_prometheus(&self) -> (r: String)
        ensures
            r@ == self.spec_snapshot().exposition(),
    {
        let snap = self.snapshot();
        let mut out = String::new();
        push_counter(&mut out, "cache_hits_total", "Total cache hits", snap.hits);
        push_counter(&mut out, "cache_misses_total", "Total cache misses", snap.misses);
        push_counter(&mut out, "cache_sets_total", "Total cache set operations", snap.sets);
        push_counter(
            &mut out,
            "cache_deletes_total",
            "Total cache delete operations",
            snap.deletes,
        );
        push_gauge(
            &mut out,
            "cache_entries",
            "Current number of cache entries",
            snap.total_entries,
        );
        push_gauge(
            &mut out,
            "cache_evictions_tracked",
            "Evictions recorded in rolling window",
            snap.evictions_tracked,
        );
        let ghost counters = out@;
        match snap.hit_ratio {
            Some(v) => {
                let value = fixed6(v.num, v.den);
                push_block(&mut out, "cache_hit_ratio", "Cache hit ratio", "gauge", value.as_str());
            },
            None => {},
        }
        push_mean(
            &mut out,
            "cache_mean_read_latency_us",
            "Mean read latency in microseconds",
            snap.mean_read_latency_us,
        );
        push_mean(
            &mut out,
            "cache_mean_write_latency_us",
            "Mean write latency in microseconds",
            snap.mean_write_latency_us,
        );
        assert(out@ =~= snap.exposition());
        out
    }
}

/// Appends a mean with three decimal places, where there is one.
fn push_mean(out: &mut String, name: &str, help: &str, value: Option<Ratio>)
    requires
        value is Some ==> value->0.den > 0,
    ensures
        final(out)@ == old(out)@ + ratio_block(name@, help@, value, 3),
{
    match value {
        Some(v) => {
            let shown = fixed3(v.num, v.den);
            push_block(out, name, help, "gauge", shown.as_str());
        },
        None => {
            assert(out@ =~= old(out)@ + Seq::<char>::empty());
        },
    }
}

/// A hit ratio is never above one, as long as the counters have not wrapped.
pub proof fn law_hit_ratio_is_at_most_one(m: CacheMetrics)
    requires
        m.hits + m.misses <= u64::MAX,
    ensures
        match m.spec_hit_ratio() {
            Some(r) => r.num <= r.den && 0 < r.den,
            None => m.hits == 0 && m.misses == 0,
        },
{
}

/// However many evictions are recorded, the window holds no more than its
/// capacity, and the count of recent ones no more than the window.
pub proof fn law_eviction_window_is_bounded(
    before: CacheMetrics,
    after: CacheMetrics,
    now: Instant,
    window: Duration,
    seen: Instant,
)
    requires
        CacheMetrics::evicted(before, after, now),
    ensures
        after.eviction_window.timestamps@.len() <= after.eviction_window.capacity,
        count_recent(after.eviction_window.timestamps@, window, seen)
            <= after.eviction_window.timestamps@.len(),
{
    lemma_count_bounded(after.eviction_window.timestamps@, window, seen);
}

proof fn lemma_count_bounded(times: Seq<Instant>, window: Duration, now: Instant)
    ensures
        count_recent(times, window, now) <= times.len(),
    decreases times.len(),
{
    if times.len() > 0 {
        lemma_count_bounded(times.drop_last(), window, now);
    }
}

/// Counting goes up by what is added, and past the largest number starts again
/// at zero.
pub proof fn law_counters_count(a: u64, b: u64)
    ensures
        a + b <= u64::MAX ==> wrapping_sum(a, b) == a + b,
        a + b > u64::MAX ==> wrapping_sum(a, b) == a + b - u64::MAX - 1,
        wrapping_sum(a, 0) == a,
        a > 0 ==> less_one(a) == a - 1,
        less_one(0) == 0,
{
}

/// An eviction counts as recent exactly if it happened no longer ago than the
/// window is long.
pub proof fn law_recent_evictions_are_counted(
    times: Seq<Instant>,
    at: Instant,
    window: Duration,
    now: Instant,
)
    requires
        at.nanos <= now.nanos,
    ensures
        count_recent(Seq::<Instant>::empty(), window, now) == 0,
        count_recent(times.push(at), window, now) == count_recent(times, window, now) + if now.nanos
            - at.nanos <= window.nanos {
            1nat
        } else {
            0nat
        },
{
    assert(times.push(at).drop_last() =~= times);
}

/// An eviction leaves one entry fewer, and its moment is the latest of those that
/// are remembered.
pub proof fn law_eviction_is_recorded(before: CacheMetrics, after: CacheMetrics, now: Instant)
    requires
        CacheMetrics::evicted(before, after, now),
        before.eviction_window.capacity > 0,
    ensures
        before.total_entries > 0 ==> after.total_entries == before.total_entries - 1,
        before.total_entries == 0 ==> after.total_entries == 0,
        after.eviction_window.timestamps@.len() > 0,
        after.eviction_window.timestamps@.last() == now,
        before.eviction_window.timestamps@.len() < before.eviction_window.capacity
            ==> after.eviction_window.timestamps@ == before.eviction_window.timestamps@.push(now),
        after.hits == before.hits,
        after.misses == before.misses,
        after.sets == before.sets,
        after.deletes == before.deletes,
{
}

/// The mean of the samples is their sum over their number: a sample adds its
/// whole microseconds and one to the count.
pub proof fn law_mean_is_sum_over_count(a: LatencyAccumulator, elapsed: Duration)
    requires
        a.count < u64::MAX,
        elapsed.nanos / 1_000 <= u64::MAX,
        a.total_us + elapsed.nanos / 1_000 <= u64::MAX,
    ensures
        a.sampled(elapsed).total_us == a.total_us + elapsed.nanos / 1_000,
        a.sampled(elapsed).count == a.count + 1,
        a.sampled(elapsed).mean() == Some(
            Ratio { num: (a.total_us + elapsed.nanos / 1_000) as u64, den: (a.count + 1) as u64 },
        ),
        a.count == 0 ==> a.mean() is None,
{
}

/// The hit ratio is the hits over all requests, and there is none before the
/// first request.
pub proof fn law_hit_ratio_is_hits_over_requests(m: CacheMetrics)
    requires
        m.hits + m.misses <= u64::MAX,
    ensures
        m.hits + m.misses == 0 ==> m.spec_hit_ratio() is None,
        m.hits + m.misses > 0 ==> m.spec_hit_ratio() is Some && m.spec_hit_ratio()->0.num == m.hits
            && m.spec_hit_ratio()->0.den == m.hits + m.misses,
        m.spec_snapshot().hits == m.hits,
        m.spec_snapshot().misses == m.misses,
        m.spec_snapshot().sets == m.sets,
        m.spec_snapshot().deletes == m.deletes,
        m.spec_snapshot().total_entries == m.total_entries,
{
}

/// Every figure is exposed under its own name.
pub proof fn law_figures_are_exposed_by_name(m: CacheMetricsSnapshot)
    ensures
        text::occurs(
            m.exposition(),
            metrics::sample("cache_hits_total"@, text::decimal(m.hits as nat)),
        ),
        text::occurs(
            m.exposition(),
            metrics::sample("cache_misses_total"@, text::decimal(m.misses as nat)),
        ),
        text::occurs(
            m.exposition(),
            metrics::sample("cache_sets_total"@, text::decimal(m.sets as nat)),
        ),
        text::occurs(
            m.exposition(),
            metrics::sample("cache_deletes_total"@, text::decimal(m.deletes as nat)),
        ),
        text::occurs(
            m.exposition(),
            metrics::sample("cache_entries"@, text::decimal(m.total_entries as nat)),
        ),
        text::occurs(
            m.exposition(),
            metrics::sample("cache_evictions_tracked"@, text::decimal(m.evictions_tracked as nat)),
        ),
{
    let g = "gauge"@;
    let c = "counter"@;
    let r7 = ratio_block("cache_hit_ratio"@, "Cache hit ratio"@, m.hit_ratio, 6);
    let r8 = ratio_block(
        "cache_mean_read_latency_us"@,
        "Mean read latency in microseconds"@,
        m.mean_read_latency_us,
        3,
    );
    let r9 = ratio_block(
        "cache_mean_write_latency_us"@,
        "Mean write latency in microseconds"@,
        m.mean_write_latency_us,
        3,
    );
    let h = seq![
        metrics::header("cache_hits_total"@, "Total cache hits"@, c),
        metrics::header("cache_misses_total"@, "Total cache misses"@, c),
        metrics::header("cache_sets_total"@, "Total cache set operations"@, c),
        metrics::header("cache_deletes_total"@, "Total cache delete operations"@, c),
        metrics::header("cache_entries"@, "Current number of cache entries"@, g),
        metrics::header("cache_evictions_tracked"@, "Evictions recorded in rolling window"@, g),
    ];
    let s = seq![
        metrics::sample("cache_hits_total"@, text::decimal(m.hits as nat)),
        metrics::sample("cache_misses_total"@, text::decimal(m.misses as nat)),
        metrics::sample("cache_sets_total"@, text::decimal(m.sets as nat)),
        metrics::sample("cache_deletes_total"@, text::decimal(m.deletes as nat)),
        metrics::sample("cache_entries"@, text::decimal(m.total_entries as nat)),
        metrics::sample("cache_evictions_tracked"@, text::decimal(m.evictions_tracked as nat)),
    ];
    assert(m.exposition() == h[0] + s[0] + (h[1] + s[1]) + (h[2] + s[2]) + (h[3] + s[3]) + (h[4]
        + s[4]) + (h[5] + s[5]) + r7 + r8 + r9);
    let six = h[0] + s[0] + (h[1] + s[1]) + (h[2] + s[2]) + (h[3] + s[3]) + (h[4] + s[4]) + (h[5]
        + s[5]);
    assert forall|i: int| 0 <= i < 6 implies text::occurs(m.exposition(), #[trigger] s[i]) by {
        lemma_sum_holds_its_samples(h, s, i);
        text::law_occurs_in_either(six, r7, s[i]);
        text::law_occurs_in_either(six + r7, r8, s[i]);
        text::law_occurs_in_either(six + r7 + r8, r9, s[i]);
    }
    assert(text::occurs(m.exposition(), s[0]) && text::occurs(m.exposition(), s[1])
        && text::occurs(m.exposition(), s[2]) && text::occurs(m.exposition(), s[3])
        && text::occurs(m.exposition(), s[4]) && text::occurs(m.exposition(), s[5]));
}

/// Six headers, each with its sample behind it, hold every sample.
proof fn lemma_sum_holds_its_samples(h: Seq<Seq<char>>, s: Seq<Seq<char>>, i: int)
    requires
        h.len() == 6,
        s.len() == 6,
        0 <= i < 6,
    ensures
        text::occurs(
            h[0] + s[0] + (h[1] + s[1]) + (h[2] + s[2]) + (h[3] + s[3]) + (h[4] + s[4]) + (h[5]
                + s[5]),
            s[i],
        ),
{
    let x = s[i];
    let b0 = h[0] + s[0];
    let b1 = h[1] + s[1];
    let b2 = h[2] + s[2];
    let b3 = h[3] + s[3];
    let b4 = h[4] + s[4];
    let b5 = h[5] + s[5];
    text::law_occurs_in_either(h[i], x, x);
    text::law_occurs_in_either(b0, b1, x);
    text::law_occurs_in_either(b0 + b1, b2, x);
    text::law_occurs_in_either(b0 + b1 + b2, b3, x);
    text::law_occurs_in_either(b0 + b1 + b2 + b3, b4, x);
    text::law_occurs_in_either(b0 + b1 + b2 + b3 + b4, b5, x);
}

/// A ratio is exposed with its places where there is one, and left out where there
/// is none.
pub proof fn law_ratio_is_exposed_if_any(
    name: Seq<char>,
    help: Seq<char>,
    r: Ratio,
    places: nat,
)
    ensures
        ratio_block(name, help, None, places).len() == 0,
        ratio_block(name, help, Some(r), places) == metrics::header(name, help, "gauge"@)
            + metrics::sample(name, ratio::fixed(r.num as nat, r.den as nat, places)),
{
}

/// A sample counts in whole microseconds; one that is longer than can be counted
/// counts as the longest.
pub proof fn law_sample_is_in_microseconds(elapsed: Duration)
    ensures
        elapsed.nanos / 1_000 <= u64::MAX ==> sample_us(elapsed) == elapsed.nanos / 1_000,
        elapsed.nanos / 1_000 > u64::MAX ==> sample_us(elapsed) == u64::MAX,
{
}

} // verus!

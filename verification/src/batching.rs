//! Batch sizes that follow a target latency.
//!
//! Too small a batch and the overhead dominates, too large and the latency
//! blows up. The next size is computed from the mean latency of recent batches,
//! within bounds.

use crate::cache_metrics;
use crate::clock::Duration;
use crate::cost_estimation;
use crate::cost_estimation::env_u64;
use crate::metrics;
use crate::metrics::{push_counter, push_gauge};
use crate::ring;
use crate::strmap::StrMap;
use crate::text;
use crate::text::parse_unsigned;
use vstd::prelude::*;
use vstd::string::*;

verus! {

/// Tunable limits and target latency for adaptive batch sizing.
#[derive(Debug, Clone, Copy, PartialEq, Eq, Structural)]
pub struct BatchConfig {
    pub min_batch_size: usize,
    pub max_batch_size: usize,
    pub initial_batch_size: usize,
    /// Desired time to process one batch. The batcher grows batch size while
    /// observed latency stays comfortably under this and shrinks once it's
    /// exceeded.
    pub target_latency: Duration,
    /// How many recent batch latencies to average over.
    pub window: usize,
}

impl Default for BatchConfig {
    fn default() -> (r: Self)
        ensures
            r.min_batch_size == 1,
            r.max_batch_size == 500,
            r.initial_batch_size == 25,
            r.target_latency.nanos == 200_000_000,
            r.window == 20,
    {
        BatchConfig {
            min_batch_size: 1,
            max_batch_size: 500,
            initial_batch_size: 25,
            target_latency: Duration::from_millis(200),
            window: 20,
        }
    }
}

/// The machine-sized number that the variable `key` sets, or `default`.
pub open spec fn setting_usize(
    vars: Map<Seq<char>, String>,
    key: Seq<char>,
    default: usize,
) -> usize {
    if vars.contains_key(key) {
        match text::unsigned_value(vars[key]@) {
            Some(v) => if v <= usize::MAX {
                v as usize
            } else {
                default
            },
            None => default,
        }
    } else {
        default
    }
}

/// The machine-sized number that the variable `key` sets, or `default`.
pub fn env_usize(vars: &StrMap<String>, key: &str, default: usize) -> (r: usize)
    ensures
        r == setting_usize(vars@, key@, default),
{
    match vars.get(key) {
        Some(v) => match parse_unsigned(v.as_str(), usize::MAX as u64) {
            Some(n) => n as usize,
            None => default,
        },
        None => default,
    }
}

impl BatchConfig {
    /// Build from `BATCH_MIN_SIZE`, `BATCH_MAX_SIZE`, `BATCH_INITIAL_SIZE`,
    /// `BATCH_TARGET_LATENCY_MS` and `BATCH_LATENCY_WINDOW` environment
    /// variables, falling back to defaults when unset or unparsable.
    pub fn from_env(vars: &StrMap<String>) -> (r: Self)
        ensures
            r.min_batch_size == setting_usize(vars@, "BATCH_MIN_SIZE"@, 1),
            r.max_batch_size == setting_usize(vars@, "BATCH_MAX_SIZE"@, 500),
            r.initial_batch_size == setting_usize(vars@, "BATCH_INITIAL_SIZE"@, 25),
            r.target_latency.nanos == cost_estimation::setting(
                vars@,
                "BATCH_TARGET_LATENCY_MS"@,
                200,
            ) * 1_000_000,
            r.window == setting_usize(vars@, "BATCH_LATENCY_WINDOW"@, 20),
    {
        let defaults = BatchConfig::default();
        BatchConfig {
            min_batch_size: env_usize(vars, "BATCH_MIN_SIZE", defaults.min_batch_size),
            max_batch_size: env_usize(vars, "BATCH_MAX_SIZE", defaults.max_batch_size),
            initial_batch_size: env_usize(vars, "BATCH_INITIAL_SIZE", defaults.initial_batch_size),
            target_latency: Duration::from_millis(
                env_u64(
                    vars,
                    "BATCH_TARGET_LATENCY_MS",
                    defaults.target_latency.as_millis() as u64,
                ),
            ),
            window: env_usize(vars, "BATCH_LATENCY_WINDOW", defaults.window),
        }
    }
}

/// The latencies of recent batches.
pub struct LatencyWindow {
    pub samples: Vec<Duration>,
    pub capacity: usize,
}

/// Latencies added up, in nanoseconds.
pub open spec fn total_nanos(samples: Seq<Duration>) -> nat
    decreases samples.len(),
{
    if samples.len() == 0 {
        0
    } else {
        total_nanos(samples.drop_last()) + samples.last().nanos as nat
    }
}

/// The mean of latencies, in whole nanoseconds.
pub open spec fn mean_nanos(samples: Seq<Duration>) -> Option<nat> {
    if samples.len() == 0 {
        None
    } else {
        Some(total_nanos(samples) / samples.len())
    }
}

/// Adding up fewer latencies gives no more.
proof fn lemma_total_grows(samples: Seq<Duration>, n: int)
    requires
        0 <= n <= samples.len(),
    ensures
        total_nanos(samples.take(n)) <= total_nanos(samples),
    decreases samples.len(),
{
    if n == samples.len() {
        assert(samples.take(n) =~= samples);
    } else {
        lemma_total_grows(samples.drop_last(), n);
        assert(samples.drop_last().take(n) =~= samples.take(n));
    }
}

impl LatencyWindow {
    /// An empty window for at least one latency.
    pub fn new(capacity: usize) -> (r: Self)
        ensures
            r.samples@ == Seq::<Duration>::empty(),
            r.capacity == if capacity == 0 {
                1
            } else {
                capacity
            },
    {
        LatencyWindow {
            samples: Vec::new(),
            capacity: if capacity == 0 {
                1
            } else {
                capacity
            },
        }
    }

    /// Records a latency; once full, the oldest is dropped.
    pub fn push(&mut self, sample: Duration)
        ensures
            final(self).capacity == old(self).capacity,
            final(self).samples@ == ring::keep_last(
                old(self).samples@.push(sample),
                old(self).capacity as nat,
            ),
    {
        let cap: usize = self.capacity;
        ring::push_bounded(&mut self.samples, sample, cap);
    }

    /// The mean latency; `None` where there is none.
    pub fn average(&self) -> (r: Option<Duration>)
        requires
            total_nanos(self.samples@) <= u128::MAX,
        ensures
            match r {
                Some(d) => mean_nanos(self.samples@) == Some(d.nanos as nat),
                None => mean_nanos(self.samples@) is None,
            },
    {
        if self.samples.len() == 0 {
            return None;
        }
        let mut total: u128 = 0;
        let mut i: usize = 0;
        while i < self.samples.len()
            invariant
                i <= self.samples.len(),
                total_nanos(self.samples@) <= u128::MAX,
                total == total_nanos(self.samples@.take(i as int)),
            decreases self.samples.len() - i,
        {
            proof {
                assert(self.samples@.take(i + 1).drop_last() =~= self.samples@.take(i as int));
                lemma_total_grows(self.samples@, i + 1);
            }
            total += self.samples[i].nanos;
            i += 1;
        }
        assert(self.samples@.take(i as int) =~= self.samples@);
        Some(Duration { nanos: total / self.samples.len() as u128 })
    }
}

/// The quotient and the remainder of `c * t` by `a`, without intermediate
/// results beyond the size of the operands.
fn scaled(c: usize, t: u128, a: u128) -> (r: (usize, u128))
    requires
        t < a,
    ensures
        c * t == r.0 * a + r.1,
        r.1 < a,
        r.0 <= c,
    decreases c,
{
    if c == 0 {
        assert(0 * t == 0 && 0 * a == 0) by (nonlinear_arith);
        return (0, 0);
    }
    let half: usize = c / 2;
    let odd: bool = c % 2 == 1;
    let (q, m) = scaled(half, t, a);
    // Twice the half.
    let mut quotient: usize = q + q;
    let mut rest: u128 = if m >= a - m {
        quotient += 1;
        m - (a - m)
    } else {
        m + m
    };
    proof {
        assert((half + half) * t == 2 * (half * t)) by (nonlinear_arith);
        assert(2 * (q * a + m) == (q + q) * a + 2 * m) by (nonlinear_arith);
        assert((q + q + 1) * a == (q + q) * a + a) by (nonlinear_arith);
        assert((half + half) * t == quotient * a + rest);
        lemma_quotient_bound(half + half, t as int, a as int, quotient as int, rest as int);
    }
    if odd {
        let ghost before = quotient;
        let ghost left = rest;
        if rest >= a - t {
            quotient += 1;
            rest = rest - (a - t);
        } else {
            rest = rest + t;
        }
        proof {
            assert((half + half + 1) * t == (half + half) * t + t) by (nonlinear_arith);
            assert((before + 1) * a == before * a + a) by (nonlinear_arith);
            assert(c == half + half + 1);
            assert(c * t == quotient * a + rest);
        }
    } else {
        assert(c == half + half);
    }
    (quotient, rest)
}

/// Scaling by less than one does not enlarge.
proof fn lemma_quotient_bound(c: int, t: int, a: int, q: int, m: int)
    requires
        0 <= c,
        0 <= t < a,
        c * t == q * a + m,
        0 <= m,
    ensures
        q <= c,
{
    assert(c * t <= c * a) by (nonlinear_arith)
        requires
            0 <= c,
            0 <= t < a,
    ;
    if q > c {
        assert(q * a >= (c + 1) * a) by (nonlinear_arith)
            requires
                q >= c + 1,
                a > 0,
        ;
        assert((c + 1) * a == c * a + a) by (nonlinear_arith);
    }
}

/// A quotient with its remainder is the quotient of division.
proof fn lemma_is_quotient(x: int, a: int, q: int, m: int)
    requires
        a > 0,
        x == q * a + m,
        0 <= m < a,
    ensures
        x / a == q,
{
    vstd::arithmetic::div_mod::lemma_fundamental_div_mod_converse(x, a, q, m);
}

/// Point-in-time adaptive batching metrics.
#[derive(Debug, Clone, Copy)]
pub struct BatchingMetrics {
    pub current_batch_size: usize,
    pub average_latency_ms: Option<u128>,
    pub batches_processed_total: u64,
    pub items_processed_total: u64,
    pub resizes_total: u64,
}

/// Dynamically sizes batches to track `BatchConfig::target_latency`,
/// bounded by `min_batch_size`/`max_batch_size`.
pub struct AdaptiveBatcher {
    config: BatchConfig,
    current_size: usize,
    latencies: LatencyWindow,
    batches_processed_total: u64,
    items_processed_total: u64,
    resizes_total: u64,
}

/// What there is to know of a batcher.
pub struct BatcherModel {
    pub config: BatchConfig,
    pub current_size: usize,
    pub latencies: Seq<Duration>,
    pub capacity: usize,
    pub batches_processed_total: u64,
    pub items_processed_total: u64,
    pub resizes_total: u64,
}

impl View for AdaptiveBatcher {
    type V = BatcherModel;

    closed spec fn view(&self) -> BatcherModel {
        BatcherModel {
            config: self.config,
            current_size: self.current_size,
            latencies: self.latencies.samples@,
            capacity: self.latencies.capacity,
            batches_processed_total: self.batches_processed_total,
            items_processed_total: self.items_processed_total,
            resizes_total: self.resizes_total,
        }
    }
}

/// `n`, but not below `low` and not above `high`.
pub open spec fn clamped(n: int, low: int, high: int) -> int {
    if n < low {
        low
    } else if n > high {
        high
    } else {
        n
    }
}

/// The size that a mean latency calls for, before it is brought within bounds:
/// above the target the size shrinks in proportion, below four fifths of it
/// the size grows by a quarter, and in between it stays.
pub open spec fn called_for(current: usize, target: Duration, mean: nat) -> int {
    if mean > target.nanos {
        (current * target.nanos) / (if mean < 1_000 {
            1_000
        } else {
            mean as int
        })
    } else if mean < (8 * target.nanos + 5) / 10 {
        current + if current < 8 {
            1
        } else {
            current as int / 4
        }
    } else {
        current as int
    }
}

/// The batch size after a mean latency.
pub open spec fn next_size(b: BatcherModel, mean: nat) -> int {
    clamped(
        called_for(b.current_size, b.config.target_latency, mean),
        b.config.min_batch_size as int,
        b.config.max_batch_size as int,
    )
}

/// The batcher after a mean latency.
pub open spec fn resized(b: BatcherModel, mean: nat) -> BatcherModel {
    if next_size(b, mean) == b.current_size {
        b
    } else {
        BatcherModel {
            current_size: next_size(b, mean) as usize,
            resizes_total: cache_metrics::wrapping_sum(b.resizes_total, 1),
            ..b
        }
    }
}

/// The recent latencies with one more.
pub open spec fn window_after(b: BatcherModel, elapsed: Duration) -> Seq<Duration> {
    ring::keep_last(b.latencies.push(elapsed), b.capacity as nat)
}

/// The batcher after a batch of `items` that took `elapsed`.
pub open spec fn after_batch(b: BatcherModel, items: usize, elapsed: Duration) -> BatcherModel {
    let window = window_after(b, elapsed);
    resized(
        BatcherModel {
            batches_processed_total: cache_metrics::wrapping_sum(b.batches_processed_total, 1),
            items_processed_total: cache_metrics::wrapping_sum(
                b.items_processed_total,
                items as u64,
            ),
            latencies: window,
            ..b
        },
        match mean_nanos(window) {
            Some(m) => m,
            None => elapsed.nanos as nat,
        },
    )
}

impl AdaptiveBatcher {
    /// A batcher that starts with the configured size, within bounds.
    pub fn new(config: BatchConfig) -> (r: Self)
        ensures
            r@.config == config,
            r@.current_size == clamped(
                config.initial_batch_size as int,
                config.min_batch_size as int,
                if config.max_batch_size < config.min_batch_size {
                    config.min_batch_size as int
                } else {
                    config.max_batch_size as int
                },
            ),
            r@.latencies.len() == 0,
            r@.capacity == if config.window == 0 {
                1
            } else {
                config.window
            },
            r@.batches_processed_total == 0,
            r@.items_processed_total == 0,
            r@.resizes_total == 0,
    {
        let high: usize = if config.max_batch_size < config.min_batch_size {
            config.min_batch_size
        } else {
            config.max_batch_size
        };
        let size: usize = if config.initial_batch_size < config.min_batch_size {
            config.min_batch_size
        } else if config.initial_batch_size > high {
            high
        } else {
            config.initial_batch_size
        };
        AdaptiveBatcher {
            config,
            current_size: size,
            latencies: LatencyWindow::new(config.window),
            batches_processed_total: 0,
            items_processed_total: 0,
            resizes_total: 0,
        }
    }

    /// The batch size callers should use for the next batch.
    pub fn current_batch_size(&self) -> (r: usize)
        ensures
            r == self@.current_size,
    {
        self.current_size
    }

    /// Record that a batch of `items` took `elapsed` to process, and recompute
    /// the next batch size from the rolling average latency.
    pub fn record_batch(&mut self, items: usize, elapsed: Duration)
        requires
            old(self)@.config.min_batch_size <= old(self)@.config.max_batch_size,
            total_nanos(window_after(old(self)@, elapsed)) <= u128::MAX,
        ensures
            final(self)@ == after_batch(old(self)@, items, elapsed),
    {
        self.batches_processed_total = self.batches_processed_total.wrapping_add(1);
        self.items_processed_total = self.items_processed_total.wrapping_add(items as u64);
        self.latencies.push(elapsed);
        let average = match self.latencies.average() {
            Some(d) => d,
            None => elapsed,
        };
        self.resize(average);
    }

    /// Sets the size that a mean latency calls for.
    pub fn resize(&mut self, average_latency: Duration)
        requires
            old(self)@.config.min_batch_size <= old(self)@.config.max_batch_size,
        ensures
            final(self)@ == resized(old(self)@, average_latency.nanos as nat),
    {
        let target: u128 = self.config.target_latency.nanos;
        let mean: u128 = average_latency.nanos;
        let current: usize = self.current_size;
        // A slack band below the target avoids changing the size by one on
        // every single batch. The bound is four fifths of the target, rounded
        // to the nearest nanosecond.
        let low_water: u128 = (target / 5) * 4 + ((target % 5) * 8 + 5) / 10;
        proof {
            let k = target / 5;
            let m = target % 5;
            assert(8 * target + 5 == 10 * (4 * k) + (8 * m + 5));
            assert((8 * target + 5) / 10 == 4 * k + (8 * m + 5) / 10);
        }
        let next: usize = if mean > target {
            let divisor: u128 = if mean < 1_000 {
                1_000
            } else {
                mean
            };
            let (q, rest) = scaled(current, target, divisor);
            proof {
                lemma_is_quotient(current * target, divisor as int, q as int, rest as int);
            }
            q
        } else if mean < low_water {
            let step: usize = if current < 8 {
                1
            } else {
                current / 4
            };
            current.saturating_add(step)
        } else {
            current
        };
        let size: usize = if next < self.config.min_batch_size {
            self.config.min_batch_size
        } else if next > self.config.max_batch_size {
            self.config.max_batch_size
        } else {
            next
        };
        assert(size == next_size(old(self)@, mean as nat));
        if size != current {
            self.current_size = size;
            self.resizes_total = self.resizes_total.wrapping_add(1);
        }
    }

    /// The batcher's figures. Latencies that together overflow cannot have
    /// been recorded.
    pub fn metrics(&self) -> (r: BatchingMetrics)
        requires
            total_nanos(self@.latencies) <= u128::MAX,
        ensures
            r == figures(self@),
    {
        let average_latency_ms = match self.latencies.average() {
            Some(d) => Some(d.as_millis()),
            None => None,
        };
        BatchingMetrics {
            current_batch_size: self.current_size,
            average_latency_ms,
            batches_processed_total: self.batches_processed_total,
            items_processed_total: self.items_processed_total,
            resizes_total: self.resizes_total,
        }
    }

    /// Render the figures in Prometheus text exposition format.
    pub fn render_prometheus(&self) -> (r: String)
        requires
            total_nanos(self@.latencies) <= u128::MAX,
        ensures
            r@ == exposition(figures(self@)),
    {
        let m = self.metrics();
        let mut out = String::new();
        push_gauge(
            &mut out,
            "heirloom_protocol_batch_current_size",
            "Current adaptive batch size",
            m.current_batch_size as u64,
        );
        push_counter(
            &mut out,
            "heirloom_protocol_batches_processed_total",
            "Total batches processed",
            m.batches_processed_total,
        );
        push_counter(
            &mut out,
            "heirloom_protocol_batch_items_processed_total",
            "Total items processed across all batches",
            m.items_processed_total,
        );
        push_counter(
            &mut out,
            "heirloom_protocol_batch_resizes_total",
            "Total adaptive batch size adjustments",
            m.resizes_total,
        );
        match m.average_latency_ms {
            Some(avg) => {
                push_gauge(
                    &mut out,
                    "heirloom_protocol_batch_average_latency_ms",
                    "Rolling average batch processing latency in milliseconds",
                    avg as u64,
                );
            },
            None => {},
        }
        assert(out@ =~= exposition(m));
        out
    }
}

/// The figures of a batcher.
pub open spec fn figures(b: BatcherModel) -> BatchingMetrics {
    BatchingMetrics {
        current_batch_size: b.current_size,
        average_latency_ms: match mean_nanos(b.latencies) {
            Some(m) => Some((m / 1_000_000) as u128),
            None => None,
        },
        batches_processed_total: b.batches_processed_total,
        items_processed_total: b.items_processed_total,
        resizes_total: b.resizes_total,
    }
}

/// The figures in Prometheus text exposition format.
pub open spec fn exposition(m: BatchingMetrics) -> Seq<char> {
    metrics::block(
        "heirloom_protocol_batch_current_size"@,
        "Current adaptive batch size"@,
        "gauge"@,
        text::decimal(m.current_batch_size as nat),
    ) + metrics::block(
        "heirloom_protocol_batches_processed_total"@,
        "Total batches processed"@,
        "counter"@,
        text::decimal(m.batches_processed_total as nat),
    ) + metrics::block(
        "heirloom_protocol_batch_items_processed_total"@,
        "Total items processed across all batches"@,
        "counter"@,
        text::decimal(m.items_processed_total as nat),
    ) + metrics::block(
        "heirloom_protocol_batch_resizes_total"@,
        "Total adaptive batch size adjustments"@,
        "counter"@,
        text::decimal(m.resizes_total as nat),
    ) + match m.average_latency_ms {
        Some(avg) => metrics::block(
            "heirloom_protocol_batch_average_latency_ms"@,
            "Rolling average batch processing latency in milliseconds"@,
            "gauge"@,
            text::decimal((avg as u64) as nat),
        ),
        None => Seq::empty(),
    }
}

/// However batches go, the size stays within the configured bounds.
pub proof fn law_size_stays_within_bounds(b: BatcherModel, items: usize, elapsed: Duration)
    requires
        b.config.min_batch_size <= b.config.max_batch_size,
        b.config.min_batch_size <= b.current_size <= b.config.max_batch_size,
    ensures
        b.config.min_batch_size <= after_batch(b, items, elapsed).current_size
            <= b.config.max_batch_size,
        after_batch(b, items, elapsed).config == b.config,
{
}

/// Over the target the size does not grow, under four fifths of it the size
/// does not shrink, and in between it stays.
pub proof fn law_size_follows_latency(b: BatcherModel, mean: nat)
    requires
        b.config.min_batch_size <= b.current_size <= b.config.max_batch_size,
    ensures
        mean > b.config.target_latency.nanos ==> resized(b, mean).current_size <= b.current_size,
        mean < (8 * b.config.target_latency.nanos + 5) / 10 ==> resized(b, mean).current_size
            >= b.current_size,
        (8 * b.config.target_latency.nanos + 5) / 10 <= mean <= b.config.target_latency.nanos
            ==> resized(b, mean) == b,
{
    let t = b.config.target_latency.nanos as int;
    if mean > t {
        let d = if mean < 1_000 {
            1_000
        } else {
            mean as int
        };
        let c = b.current_size as int;
        let x = c * t;
        let q = x / d;
        let m = x % d;
        vstd::arithmetic::div_mod::lemma_fundamental_div_mod(x, d);
        assert(d * q == q * d) by (nonlinear_arith);
        lemma_quotient_bound(c, t, d, q, m);
    }
}

/// How the batch size moves, within its bounds: a mean latency above the target
/// shrinks it in proportion, one below four fifths of the target grows it by a
/// quarter, or by one item while it is below eight, and one in between leaves it.
pub proof fn law_size_moves_by_these_steps(current: usize, target: Duration, mean: nat)
    requires
        mean >= 1_000,
    ensures
        mean > target.nanos ==> called_for(current, target, mean) * mean <= current * target.nanos
            && current * target.nanos < (called_for(current, target, mean) + 1) * mean,
        mean <= target.nanos && 10 * mean >= 8 * target.nanos + 5 ==> called_for(
            current,
            target,
            mean,
        ) == current,
        10 * mean + 10 <= 8 * target.nanos && current < 8 ==> called_for(current, target, mean)
            == current + 1,
        10 * mean + 10 <= 8 * target.nanos && current >= 8 ==> called_for(current, target, mean)
            == current + current / 4,
{
    if mean > target.nanos {
        let x = current * target.nanos;
        let q = x / (mean as int);
        assert(q * mean <= x && x < (q + 1) * mean) by (nonlinear_arith)
            requires
                mean > 0,
                q == x / (mean as int),
        ;
    }
}

/// A size that is called for is taken as it is within the bounds, and the nearer
/// bound is taken outside of them; a change of size is counted.
pub proof fn law_resize_is_counted(b: BatcherModel, mean: nat, wanted: int)
    requires
        wanted == called_for(b.current_size, b.config.target_latency, mean),
        b.config.min_batch_size <= b.config.max_batch_size,
        b.resizes_total < u64::MAX,
    ensures
        wanted < b.config.min_batch_size ==> resized(b, mean).current_size
            == b.config.min_batch_size,
        wanted > b.config.max_batch_size ==> resized(b, mean).current_size
            == b.config.max_batch_size,
        b.config.min_batch_size <= wanted <= b.config.max_batch_size ==> resized(
            b,
            mean,
        ).current_size == wanted,
        resized(b, mean).resizes_total == b.resizes_total + if resized(b, mean).current_size
            != b.current_size {
            1int
        } else {
            0int
        },
{
}

/// A batch is counted with its items, and its latency joins the window, which
/// keeps the latest ones.
pub proof fn law_batches_are_counted(b: BatcherModel, items: usize, elapsed: Duration)
    requires
        b.batches_processed_total < u64::MAX,
        b.items_processed_total + items <= u64::MAX,
        b.latencies.len() < b.capacity,
    ensures
        after_batch(b, items, elapsed).batches_processed_total == b.batches_processed_total + 1,
        after_batch(b, items, elapsed).items_processed_total == b.items_processed_total + items,
        after_batch(b, items, elapsed).latencies == b.latencies.push(elapsed),
        figures(b).current_batch_size == b.current_size,
        mean_nanos(b.latencies) is None ==> figures(b).average_latency_ms is None,
        mean_nanos(b.latencies) is Some && mean_nanos(b.latencies)->0 <= u128::MAX ==> figures(
            b,
        ).average_latency_ms is Some && figures(b).average_latency_ms->0 == mean_nanos(
            b.latencies,
        )->0 / 1_000_000,
        figures(b).batches_processed_total == b.batches_processed_total,
        figures(b).items_processed_total == b.items_processed_total,
        figures(b).resizes_total == b.resizes_total,
{
}

/// The mean of a window is the sum of its samples over their number, rounded
/// down; of equal samples it is that sample.
pub proof fn law_mean_of_a_window(samples: Seq<Duration>, sample: Duration)
    ensures
        total_nanos(Seq::<Duration>::empty()) == 0,
        total_nanos(samples.push(sample)) == total_nanos(samples) + sample.nanos,
        mean_nanos(Seq::<Duration>::empty()) is None,
        mean_nanos(seq![sample]) == Some(sample.nanos as nat),
        mean_nanos(seq![sample, sample]) == Some(sample.nanos as nat),
{
    assert(samples.push(sample).drop_last() =~= samples);
    let one = seq![sample];
    let two = seq![sample, sample];
    reveal_with_fuel(total_nanos, 3);
    assert(one.drop_last() =~= Seq::<Duration>::empty());
    assert(two.drop_last() =~= one);
}

/// A variable that holds a number sets a size, and nothing else does.
pub proof fn law_size_setting(vars: Map<Seq<char>, String>, key: Seq<char>, default: usize, n: nat)
    ensures
        !vars.contains_key(key) ==> setting_usize(vars, key, default) == default,
        vars.contains_key(key) && text::unsigned_value(vars[key]@) == Some(n) && n <= usize::MAX
            ==> setting_usize(vars, key, default) == n,
        vars.contains_key(key) && text::unsigned_value(vars[key]@) == Some(n) && n > usize::MAX
            ==> setting_usize(vars, key, default) == default,
        vars.contains_key(key) && text::unsigned_value(vars[key]@) is None ==> setting_usize(
            vars,
            key,
            default,
        ) == default,
{
}

/// Every figure is exposed under its own name.
pub proof fn law_figures_are_exposed_by_name(m: BatchingMetrics)
    ensures
        text::occurs(
            exposition(m),
            metrics::sample(
                "heirloom_protocol_batch_current_size"@,
                text::decimal(m.current_batch_size as nat),
            ),
        ),
        text::occurs(
            exposition(m),
            metrics::sample(
                "heirloom_protocol_batches_processed_total"@,
                text::decimal(m.batches_processed_total as nat),
            ),
        ),
        text::occurs(
            exposition(m),
            metrics::sample(
                "heirloom_protocol_batch_items_processed_total"@,
                text::decimal(m.items_processed_total as nat),
            ),
        ),
        text::occurs(
            exposition(m),
            metrics::sample(
                "heirloom_protocol_batch_resizes_total"@,
                text::decimal(m.resizes_total as nat),
            ),
        ),
{
    let h1 = metrics::header(
        "heirloom_protocol_batch_current_size"@,
        "Current adaptive batch size"@,
        "gauge"@,
    );
    let s1 = metrics::sample(
        "heirloom_protocol_batch_current_size"@,
        text::decimal(m.current_batch_size as nat),
    );
    let h2 = metrics::header(
        "heirloom_protocol_batches_processed_total"@,
        "Total batches processed"@,
        "counter"@,
    );
    let s2 = metrics::sample(
        "heirloom_protocol_batches_processed_total"@,
        text::decimal(m.batches_processed_total as nat),
    );
    let h3 = metrics::header(
        "heirloom_protocol_batch_items_processed_total"@,
        "Total items processed across all batches"@,
        "counter"@,
    );
    let s3 = metrics::sample(
        "heirloom_protocol_batch_items_processed_total"@,
        text::decimal(m.items_processed_total as nat),
    );
    let h4 = metrics::header(
        "heirloom_protocol_batch_resizes_total"@,
        "Total adaptive batch size adjustments"@,
        "counter"@,
    );
    let s4 = metrics::sample(
        "heirloom_protocol_batch_resizes_total"@,
        text::decimal(m.resizes_total as nat),
    );
    let rest = exposition(m).skip(
        (h1 + s1 + (h2 + s2) + (h3 + s3) + (h4 + s4)).len() as int,
    );
    let all = exposition(m);
    assert(all =~= h1 + s1 + (h2 + s2 + (h3 + s3) + (h4 + s4) + rest));
    text::law_part_occurs(h1, s1, h2 + s2 + (h3 + s3) + (h4 + s4) + rest);
    assert(all =~= (h1 + s1 + h2) + s2 + (h3 + s3 + (h4 + s4) + rest));
    text::law_part_occurs(h1 + s1 + h2, s2, h3 + s3 + (h4 + s4) + rest);
    assert(all =~= (h1 + s1 + (h2 + s2) + h3) + s3 + (h4 + s4 + rest));
    text::law_part_occurs(h1 + s1 + (h2 + s2) + h3, s3, h4 + s4 + rest);
    assert(all =~= (h1 + s1 + (h2 + s2) + (h3 + s3) + h4) + s4 + rest);
    text::law_part_occurs(h1 + s1 + (h2 + s2) + (h3 + s3) + h4, s4, rest);
}

} // verus!

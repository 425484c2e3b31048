//! Predictive cache warming based on access pattern analysis.
//!
//! Analyses past vault accesses, predicts which vaults are likely to be
//! accessed soon, and loads them into the cache ahead of time.

use crate::cache;
use crate::cache::{Slot, VaultCache};
use crate::cache_metrics;
use crate::clock;
use crate::clock::{Clock, Instant};
use crate::db::VaultStore;
use crate::models::Vault;
use crate::order;
use crate::order::{ranked, widen};
use crate::ratio::Ratio;
use crate::ring;
use crate::ring::push_bounded;
use crate::strmap::StrMap;
use crate::text;
use vstd::prelude::*;

verus! {

/// Maximum number of access records to keep per vault for pattern analysis.
pub const MAX_ACCESS_HISTORY: usize = 100;

/// Minimum confidence score to trigger a prefetch: 0.565, which is what five
/// accesses at even intervals score before any prediction was put to the test.
/// Steadier patterns with a longer history score more.
///
/// Scores are not negative and are given by the bit pattern of the floating
/// point number, which orders them as the numbers themselves.
pub const MIN_PREFETCH_CONFIDENCE: u64 = 0x3FE2_147A_E147_AE14;

/// Maximum number of vaults to prefetch in a single warming operation.
pub const MAX_PREFETCH_BATCH: usize = 50;

/// How far ahead a predicted access may lie to count as imminent, in seconds.
pub const PREFETCH_HORIZON_SECS: u128 = 300;

/// The average of `count` intervals that add up to `total_nanos`.
#[derive(Debug, Clone, Copy, PartialEq, Eq, Structural)]
pub struct Interval {
    /// The sum of the intervals in nanoseconds.
    pub total_nanos: u128,
    /// How many there are.
    pub count: u64,
}

/// The sum, or the largest number there is.
pub open spec fn capped_sum(a: nat, b: nat) -> nat {
    if a + b > u128::MAX {
        u128::MAX as nat
    } else {
        a + b
    }
}

/// The time from each access to the next, added up.
pub open spec fn total_interval(history: Seq<Instant>) -> nat
    decreases history.len(),
{
    if history.len() < 2 {
        0
    } else {
        capped_sum(
            total_interval(history.drop_last()),
            clock::elapsed_nanos(history[history.len() - 2], history.last()),
        )
    }
}

/// The average time between accesses; there is none before the second.
pub open spec fn average_interval(history: Seq<Instant>) -> Option<Interval> {
    if history.len() < 2 {
        None
    } else {
        Some(
            Interval {
                total_nanos: total_interval(history) as u128,
                count: (history.len() - 1) as u64,
            },
        )
    }
}

/// The average in whole nanoseconds, rounded to the nearest.
pub open spec fn mean_nanos(i: Interval) -> nat {
    ((2 * i.total_nanos + i.count) / (2 * i.count as int)) as nat
}

/// What is known of the accesses to one vault.
#[verifier::ext_equal]
pub struct PatternModel {
    /// The latest accesses, oldest first.
    pub history: Seq<Instant>,
    /// The last predicted access time.
    pub last_prediction: Option<Instant>,
    /// Number of successful predictions.
    pub successful_predictions: u64,
    /// Total predictions made.
    pub total_predictions: u64,
}

impl PatternModel {
    /// A vault that was never accessed.
    pub open spec fn empty() -> PatternModel {
        PatternModel {
            history: Seq::empty(),
            last_prediction: None,
            successful_predictions: 0,
            total_predictions: 0,
        }
    }

    /// Whether an access at `timestamp` was predicted: it comes less than a
    /// fifth of the average interval after the prediction.
    pub open spec fn predicted(self, timestamp: Instant) -> bool {
        match self.last_prediction {
            Some(at) => match average_interval(self.history) {
                Some(i) => 5 * i.count * clock::elapsed_nanos(at, timestamp) < i.total_nanos,
                None => true,
            },
            None => false,
        }
    }

    /// The pattern after an access.
    pub open spec fn accessed(self, timestamp: Instant) -> PatternModel {
        PatternModel {
            history: ring::keep_last(self.history.push(timestamp), MAX_ACCESS_HISTORY as nat),
            successful_predictions: if self.predicted(timestamp) {
                cache_metrics::wrapping_sum(self.successful_predictions, 1)
            } else {
                self.successful_predictions
            },
            ..self
        }
    }

    /// When the next access is expected; nothing is predicted before the third.
    pub open spec fn next_access(self) -> Option<Instant> {
        if self.history.len() >= 3 {
            Some(
                Instant {
                    nanos: capped_sum(
                        self.history.last().nanos as nat,
                        mean_nanos(average_interval(self.history)->0),
                    ) as u128,
                },
            )
        } else {
            None
        }
    }

    /// Whether the next access is expected within five minutes from `now`, in
    /// whole seconds.
    pub open spec fn imminent(self, now: Instant) -> bool {
        match self.next_access() {
            Some(at) => clock::elapsed_nanos(now, at) / 1_000_000_000 <= 300,
            None => false,
        }
    }
}

/// The access pattern of one vault.
#[derive(Debug)]
pub struct VaultAccessPattern {
    access_history: Vec<Instant>,
    last_prediction: Option<Instant>,
    successful_predictions: u64,
    total_predictions: u64,
}

impl View for VaultAccessPattern {
    type V = PatternModel;

    closed spec fn view(&self) -> PatternModel {
        PatternModel {
            history: self.access_history@,
            last_prediction: self.last_prediction,
            successful_predictions: self.successful_predictions,
            total_predictions: self.total_predictions,
        }
    }
}

impl VaultAccessPattern {
    /// A pattern without accesses.
    pub fn new() -> (r: Self)
        ensures
            r@ == PatternModel::empty(),
    {
        VaultAccessPattern {
            access_history: Vec::new(),
            last_prediction: None,
            successful_predictions: 0,
            total_predictions: 0,
        }
    }

    /// The recorded accesses, oldest first.
    pub fn access_history(&self) -> (r: &Vec<Instant>)
        ensures
            r@ == self@.history,
    {
        &self.access_history
    }

    /// Record a new access and update statistics.
    pub fn record_access(&mut self, timestamp: Instant)
        ensures
            final(self)@ == old(self)@.accessed(timestamp),
    {
        let hit: bool = match self.last_prediction {
            Some(at) => match self.avg_interval() {
                Some(i) => Self::close_to_prediction(i, timestamp.duration_since(at).nanos),
                None => true,
            },
            None => false,
        };
        if hit {
            self.successful_predictions = self.successful_predictions.wrapping_add(1);
        }
        push_bounded(&mut self.access_history, timestamp, MAX_ACCESS_HISTORY);
    }

    /// Whether a difference is less than a fifth of an average.
    fn close_to_prediction(i: Interval, diff: u128) -> (r: bool)
        requires
            i.count > 0,
        ensures
            r == (5 * i.count * diff < i.total_nanos),
    {
        if i.total_nanos == 0 {
            assert(5 * i.count * diff >= 0) by (nonlinear_arith);
            return false;
        }
        let m: u128 = 5 * (i.count as u128);
        let last: u128 = i.total_nanos - 1;
        let q: u128 = last / m;
        proof {
            let rest = last % m;
            assert(last == q * m + rest) by {
                vstd::arithmetic::div_mod::lemma_fundamental_div_mod(last as int, m as int);
                assert(m * q == q * m) by (nonlinear_arith);
            }
            assert(0 <= rest < m);
            assert((diff <= q) == (m * diff <= last)) by (nonlinear_arith)
                requires
                    last == q * m + rest,
                    0 <= rest < m,
            ;
        }
        diff <= q
    }

    /// Average time between accesses.
    pub fn avg_interval(&self) -> (r: Option<Interval>)
        ensures
            r == average_interval(self@.history),
            r is Some ==> r->0.count == self@.history.len() - 1,
            r is Some ==> r->0.total_nanos == total_interval(self@.history),
    {
        let n: usize = self.access_history.len();
        if n < 2 {
            return None;
        }
        let mut total: u128 = 0;
        let mut i: usize = 1;
        assert(total_interval(self.access_history@.take(1)) == 0);
        while i < n
            invariant
                1 <= i <= n,
                n == self.access_history@.len(),
                total == total_interval(self.access_history@.take(i as int)),
            decreases n - i,
        {
            let step: u128 = self.access_history[i].duration_since(self.access_history[i - 1]).nanos;
            proof {
                let longer = self.access_history@.take(i + 1);
                assert(longer.drop_last() =~= self.access_history@.take(i as int));
                assert(longer[longer.len() - 2] == self.access_history@[i - 1]);
            }
            total = if step > u128::MAX - total {
                u128::MAX
            } else {
                total + step
            };
            i += 1;
        }
        assert(self.access_history@.take(n as int) =~= self.access_history@);
        Some(Interval { total_nanos: total, count: (n - 1) as u64 })
    }

    /// Predict the next access time based on the recorded accesses.
    pub fn predict_next_access(&self) -> (r: Option<Instant>)
        ensures
            r == self@.next_access(),
    {
        let n: usize = self.access_history.len();
        if n < 3 {
            return None;
        }
        match self.avg_interval() {
            Some(i) => {
                let count: u128 = i.count as u128;
                let q: u128 = i.total_nanos / count;
                let rest: u128 = i.total_nanos % count;
                proof {
                    lemma_rounding(i.total_nanos as int, count as int);
                    assert(q <= u128::MAX / 2) by (nonlinear_arith)
                        requires
                            q == i.total_nanos / count,
                            count >= 2,
                    ;
                }
                let mean: u128 = if 2 * rest >= count {
                    q + 1
                } else {
                    q
                };
                let last: u128 = self.access_history[n - 1].nanos;
                let at: u128 = if mean > u128::MAX - last {
                    u128::MAX
                } else {
                    last + mean
                };
                Some(Instant { nanos: at })
            },
            None => None,
        }
    }

    /// Whether the next access is expected within five minutes from `now`.
    pub fn is_imminent_at(&self, now: Instant) -> (r: bool)
        ensures
            r == self@.imminent(now),
    {
        match self.predict_next_access() {
            Some(at) => at.duration_since(now).as_secs() <= PREFETCH_HORIZON_SECS,
            None => false,
        }
    }

    /// The parts of the confidence score that are ratios: how full the history
    /// is, and how many predictions came true, one half while there are none.
    /// Before the third access there is no confidence at all.
    pub fn confidence_factors(&self) -> (r: Option<(Ratio, Ratio)>)
        ensures
            r == if self@.history.len() < 3 {
                None
            } else {
                Some(
                    (
                        if self@.history.len() >= 100 {
                            Ratio { num: 1, den: 1 }
                        } else {
                            Ratio { num: self@.history.len() as u64, den: 100 }
                        },
                        if self@.total_predictions > 0 {
                            Ratio {
                                num: self@.successful_predictions,
                                den: self@.total_predictions,
                            }
                        } else {
                            Ratio { num: 1, den: 2 }
                        },
                    ),
                )
            },
    {
        let n: usize = self.access_history.len();
        if n < 3 {
            return None;
        }
        let history = if n >= MAX_ACCESS_HISTORY {
            Ratio { num: 1, den: 1 }
        } else {
            Ratio { num: n as u64, den: 100 }
        };
        let accuracy = if self.total_predictions > 0 {
            Ratio { num: self.successful_predictions, den: self.total_predictions }
        } else {
            Ratio { num: 1, den: 2 }
        };
        Some((history, accuracy))
    }
}

/// Rounding a quotient to the nearest by its remainder.
proof fn lemma_rounding(total: int, count: int)
    requires
        total >= 0,
        count > 0,
    ensures
        (2 * total + count) / (2 * count) == if 2 * (total % count) >= count {
            total / count + 1
        } else {
            total / count
        },
{
    let q = total / count;
    let r = total % count;
    vstd::arithmetic::div_mod::lemma_fundamental_div_mod(total, count);
    if 2 * r >= count {
        let rest = 2 * r - count;
        assert(2 * total + count == (q + 1) * (2 * count) + rest) by (nonlinear_arith)
            requires
                total == count * q + r,
                rest == 2 * r - count,
        ;
        vstd::arithmetic::div_mod::lemma_fundamental_div_mod_converse(
            2 * total + count,
            2 * count,
            q + 1,
            rest,
        );
    } else {
        let rest = 2 * r + count;
        assert(2 * total + count == q * (2 * count) + rest) by (nonlinear_arith)
            requires
                total == count * q + r,
                rest == 2 * r + count,
        ;
        vstd::arithmetic::div_mod::lemma_fundamental_div_mod_converse(
            2 * total + count,
            2 * count,
            q,
            rest,
        );
    }
}

/// Counters of the warmer.
#[derive(Debug, Clone, Copy, PartialEq, Eq, Structural)]
pub struct WarmerStats {
    pub total_accesses: u64,
    pub total_prefetches: u64,
    pub successful_prefetches: u64,
    pub failed_prefetches: u64,
}

impl WarmerStats {
    /// Counters at zero.
    pub open spec fn zero() -> WarmerStats {
        WarmerStats {
            total_accesses: 0,
            total_prefetches: 0,
            successful_prefetches: 0,
            failed_prefetches: 0,
        }
    }

    /// The counters after a target was handled.
    pub open spec fn after(self, outcome: Outcome) -> WarmerStats {
        match outcome {
            Outcome::Skipped => self,
            Outcome::Warmed => WarmerStats {
                total_prefetches: cache_metrics::wrapping_sum(self.total_prefetches, 1),
                successful_prefetches: cache_metrics::wrapping_sum(self.successful_prefetches, 1),
                ..self
            },
            Outcome::Failed => WarmerStats {
                failed_prefetches: cache_metrics::wrapping_sum(self.failed_prefetches, 1),
                ..self
            },
        }
    }

    /// The counters after several targets were handled in turn.
    pub open spec fn after_all(self, outcomes: Seq<Outcome>) -> WarmerStats
        decreases outcomes.len(),
    {
        if outcomes.len() == 0 {
            self
        } else {
            self.after_all(outcomes.drop_last()).after(outcomes.last())
        }
    }
}

impl Default for WarmerStats {
    fn default() -> (r: Self)
        ensures
            r == WarmerStats::zero(),
    {
        WarmerStats {
            total_accesses: 0,
            total_prefetches: 0,
            successful_prefetches: 0,
            failed_prefetches: 0,
        }
    }
}

/// What became of a prefetch target.
pub enum Outcome {
    /// It was already cached.
    Skipped,
    /// It was loaded into the cache.
    Warmed,
    /// The store does not have it.
    Failed,
}

/// How many outcomes equal the given one.
pub open spec fn tally(outcomes: Seq<Outcome>, which: Outcome) -> nat
    decreases outcomes.len(),
{
    if outcomes.len() == 0 {
        0
    } else {
        tally(outcomes.drop_last(), which) + if outcomes.last() == which {
            1nat
        } else {
            0nat
        }
    }
}

/// The targets that were loaded.
pub open spec fn loaded(targets: Seq<Seq<char>>, outcomes: Seq<Outcome>) -> Seq<Seq<char>>
    decreases outcomes.len(),
{
    if outcomes.len() == 0 {
        Seq::empty()
    } else {
        let before = loaded(targets, outcomes.drop_last());
        if outcomes.last() == Outcome::Warmed {
            before.push(targets[outcomes.len() - 1])
        } else {
            before
        }
    }
}

/// The result of a warming run.
#[derive(Debug)]
pub struct WarmingResult {
    pub warmed_count: usize,
    pub failed_count: usize,
    pub skipped_count: usize,
    pub vault_ids: Vec<String>,
}

impl WarmingResult {
    /// Whether the result sums up the outcomes for `targets`.
    pub open spec fn sums_up(self, targets: Seq<Seq<char>>, outcomes: Seq<Outcome>) -> bool {
        &&& self.warmed_count == tally(outcomes, Outcome::Warmed)
        &&& self.failed_count == tally(outcomes, Outcome::Failed)
        &&& self.skipped_count == tally(outcomes, Outcome::Skipped)
        &&& text::texts(self.vault_ids@) == loaded(targets, outcomes)
    }
}

/// Whether a vault, serialised in some way that `encode` and `encode_ttl` allow,
/// was written to both of its slots.
pub open spec fn prefetched<E: Fn(&Vault) -> Vec<u8>, T: Fn(&Option<u64>) -> Vec<u8>>(
    before: cache::CacheModel,
    after: cache::CacheModel,
    id: Seq<char>,
    vault: Vault,
    encode: E,
    encode_ttl: T,
    now: Instant,
) -> bool {
    exists|a: Vec<u8>, b: Vec<u8>, mid: cache::CacheModel|
        {
            &&& encode.ensures((&vault,), a)
            &&& encode_ttl.ensures((&vault.ttl_remaining,), b)
            &&& #[trigger] before.after_write(mid, Slot::Vault, id, a@, now)
            &&& #[trigger] mid.after_write(after, Slot::TtlRemaining, id, b@, now)
        }
}

/// Whether handling target `id` at `now` has this outcome and leaves `after`.
pub open spec fn handled<E: Fn(&Vault) -> Vec<u8>, T: Fn(&Option<u64>) -> Vec<u8>>(
    before: cache::CacheModel,
    after: cache::CacheModel,
    id: Seq<char>,
    store: Map<Seq<char>, Vault>,
    encode: E,
    encode_ttl: T,
    now: Instant,
    outcome: Outcome,
) -> bool {
    let probed = before.after_read(Slot::Vault, id, now);
    if before.read(Slot::Vault, id, now) is Some {
        outcome == Outcome::Skipped && after == probed
    } else if !store.contains_key(id) {
        outcome == Outcome::Failed && after == probed
    } else {
        outcome == Outcome::Warmed && prefetched(
            probed,
            after,
            id,
            store[id],
            encode,
            encode_ttl,
            now,
        )
    }
}

/// Whether handling `targets` in turn at `now` may go through `caches` with
/// these outcomes.
pub open spec fn run<E: Fn(&Vault) -> Vec<u8>, T: Fn(&Option<u64>) -> Vec<u8>>(
    caches: Seq<cache::CacheModel>,
    targets: Seq<Seq<char>>,
    store: Map<Seq<char>, Vault>,
    encode: E,
    encode_ttl: T,
    now: Instant,
    outcomes: Seq<Outcome>,
) -> bool {
    &&& caches.len() == outcomes.len() + 1
    &&& forall|i: int|
        0 <= i < outcomes.len() ==> handled(
            #[trigger] caches[i],
            caches[i + 1],
            targets[i],
            store,
            encode,
            encode_ttl,
            now,
            #[trigger] outcomes[i],
        )
}

/// Whether `s` is a score that may be given to a pattern.
pub open spec fn scored<F: Fn(&VaultAccessPattern) -> u64>(
    confidence: F,
    p: PatternModel,
    s: u64,
) -> bool {
    exists|x: VaultAccessPattern| x@ == p && #[trigger] confidence.ensures((&x,), s)
}

/// Whether `ids` are the vaults whose next access is imminent and whose score,
/// in `scores`, is high enough.
pub open spec fn candidates<F: Fn(&VaultAccessPattern) -> u64>(
    patterns: Map<Seq<char>, PatternModel>,
    confidence: F,
    now: Instant,
    ids: Seq<Seq<char>>,
    scores: Seq<u64>,
) -> bool {
    &&& ids.len() == scores.len()
    &&& ids.no_duplicates()
    &&& forall|i: int|
        0 <= i < ids.len() ==> {
            &&& patterns.contains_key(#[trigger] ids[i])
            &&& patterns[ids[i]].imminent(now)
            &&& scores[i] >= MIN_PREFETCH_CONFIDENCE
            &&& scored(confidence, patterns[ids[i]], scores[i])
        }
    &&& forall|id: Seq<char>| #[trigger]
        patterns.contains_key(id) && patterns[id].imminent(now) && !ids.contains(id)
            ==> too_low(confidence, patterns[id])
}

/// Whether a pattern may get a score that is too low.
pub open spec fn too_low<F: Fn(&VaultAccessPattern) -> u64>(confidence: F, p: PatternModel) -> bool {
    exists|s: u64| s < MIN_PREFETCH_CONFIDENCE && #[trigger] scored(confidence, p, s)
}

/// Whether `r` are the highest scored of `ids`, at most a batch, highest first;
/// of equal ones the earlier comes first.
pub open spec fn top_targets(ids: Seq<Seq<char>>, scores: Seq<u64>, r: Seq<Seq<char>>) -> bool {
    exists|perm: Seq<usize>|
        {
            &&& #[trigger] order::stable_order(order::widened(scores), true, perm)
            &&& r.len() == if perm.len() > MAX_PREFETCH_BATCH {
                MAX_PREFETCH_BATCH as int
            } else {
                perm.len() as int
            }
            &&& forall|i: int| 0 <= i < r.len() ==> #[trigger] r[i] == ids[perm[i] as int]
        }
}

/// The highest scored of `ids`, at most a batch, highest first.
pub fn select_targets(ids: &Vec<String>, scores: &Vec<u64>) -> (r: Vec<String>)
    requires
        ids@.len() == scores@.len(),
    ensures
        top_targets(text::texts(ids@), scores@, text::texts(r@)),
{
    let keys = widen(scores);
    let perm = ranked(&keys, true);
    let n: usize = if perm.len() > MAX_PREFETCH_BATCH {
        MAX_PREFETCH_BATCH
    } else {
        perm.len()
    };
    let mut r: Vec<String> = Vec::new();
    let mut i: usize = 0;
    while i < n
        invariant
            i <= n <= perm@.len(),
            r@.len() == i,
            ids@.len() == scores@.len(),
            order::stable_order(order::widened(scores@), true, perm@),
            forall|j: int| 0 <= j < i ==> (#[trigger] r@[j])@ == ids@[perm@[j] as int]@,
        decreases n - i,
    {
        let at: usize = perm[i];
        r.push(ids[at].clone());
        i += 1;
    }
    proof {
        let t = text::texts(r@);
        assert forall|j: int| 0 <= j < t.len() implies #[trigger] t[j] == text::texts(
            ids@,
        )[perm@[j] as int] by {
            assert(r@[j]@ == ids@[perm@[j] as int]@);
        }
    }
    r
}

/// Tracks accesses and loads vaults into the cache ahead of time.
pub struct CacheWarmer {
    patterns: StrMap<VaultAccessPattern>,
    stats: WarmerStats,
    clock: Clock,
}

/// The patterns of every vault of a map.
pub open spec fn models(map: Map<Seq<char>, VaultAccessPattern>) -> Map<Seq<char>, PatternModel> {
    Map::new(|k: Seq<char>| map.contains_key(k), |k: Seq<char>| map[k]@)
}

/// What a warmer knows.
#[verifier::ext_equal]
pub struct WarmerModel {
    /// The access patterns by vault.
    pub patterns: Map<Seq<char>, PatternModel>,
    /// The counters.
    pub stats: WarmerStats,
}

impl WarmerModel {
    /// A warmer that has seen nothing.
    pub open spec fn empty() -> WarmerModel {
        WarmerModel { patterns: Map::empty(), stats: WarmerStats::zero() }
    }

    /// The pattern of a vault.
    pub open spec fn of(self, id: Seq<char>) -> PatternModel {
        if self.patterns.contains_key(id) {
            self.patterns[id]
        } else {
            PatternModel::empty()
        }
    }

    /// The warmer after an access to a vault.
    pub open spec fn accessed(self, id: Seq<char>, now: Instant) -> WarmerModel {
        WarmerModel {
            patterns: self.patterns.insert(id, self.of(id).accessed(now)),
            stats: WarmerStats {
                total_accesses: cache_metrics::wrapping_sum(self.stats.total_accesses, 1),
                ..self.stats
            },
        }
    }
}

impl View for CacheWarmer {
    type V = WarmerModel;

    closed spec fn view(&self) -> WarmerModel {
        WarmerModel { patterns: models(self.patterns@), stats: self.stats }
    }
}

impl Default for CacheWarmer {
    fn default() -> (r: Self)
        ensures
            r@ == WarmerModel::empty(),
    {
        Self::new()
    }
}

impl CacheWarmer {
    /// A warmer that has seen nothing.
    pub fn new() -> (r: Self)
        ensures
            r@ == WarmerModel::empty(),
    {
        let r = CacheWarmer {
            patterns: StrMap::new(),
            stats: WarmerStats::default(),
            clock: Clock::new(),
        };
        assert(r@ =~= WarmerModel::empty());
        r
    }

    /// A reading of the warmer's clock. Nothing is known of it.
    pub fn now(&self) -> Instant {
        self.clock.now()
    }

    /// Record an access to a vault for pattern analysis.
    pub fn record_access(&mut self, vault_id: &str)
        ensures
            exists|now: Instant| final(self)@ == #[trigger] old(self)@.accessed(vault_id@, now),
    {
        let now = self.clock.now();
        self.record_access_at(vault_id, now);
    }

    /// Record an access to a vault at `now`.
    pub fn record_access_at(&mut self, vault_id: &str, now: Instant)
        ensures
            final(self)@ == old(self)@.accessed(vault_id@, now),
    {
        if !self.patterns.contains_key(vault_id) {
            let _old = self.patterns.insert(vault_id.to_owned(), VaultAccessPattern::new());
        }
        assert(self.patterns@[vault_id@]@ == old(self)@.of(vault_id@)) by {
            assert(models(old(self).patterns@).contains_key(vault_id@) ==> models(
                old(self).patterns@,
            )[vault_id@] == old(self).patterns@[vault_id@]@);
        }
        match self.patterns.get_mut(vault_id) {
            Some(p) => p.record_access(now),
            None => {},
        }
        self.stats.total_accesses = self.stats.total_accesses.wrapping_add(1);
        assert(self@ =~= old(self)@.accessed(vault_id@, now));
    }

    /// The access pattern of a vault.
    pub fn pattern(&self, vault_id: &str) -> (r: Option<&VaultAccessPattern>)
        ensures
            match r {
                Some(p) => self@.patterns.contains_key(vault_id@) && p@
                    == self@.patterns[vault_id@],
                None => !self@.patterns.contains_key(vault_id@),
            },
    {
        self.patterns.get(vault_id)
    }

    /// The access patterns by vault.
    pub fn patterns(&self) -> (r: &StrMap<VaultAccessPattern>)
        ensures
            models(r@) == self@.patterns,
    {
        &self.patterns
    }

    /// Analyse patterns and return the vault IDs that should be prefetched.
    /// The caller brings the scoring.
    pub fn predict_prefetch_targets<F: Fn(&VaultAccessPattern) -> u64>(&self, confidence: F) -> (r:
        Vec<String>)
        requires
            forall|p: VaultAccessPattern| #[trigger] confidence.requires((&p,)),
        ensures
            exists|now: Instant, ids: Seq<Seq<char>>, scores: Seq<u64>|
                {
                    &&& #[trigger] candidates(self@.patterns, confidence, now, ids, scores)
                    &&& top_targets(ids, scores, text::texts(r@))
                },
    {
        self.predict_prefetch_targets_at(confidence, self.clock.now())
    }

    /// Analyse patterns at `now` and return the vault IDs that should be
    /// prefetched.
    pub fn predict_prefetch_targets_at<F: Fn(&VaultAccessPattern) -> u64>(
        &self,
        confidence: F,
        now: Instant,
    ) -> (r: Vec<String>)
        requires
            forall|p: VaultAccessPattern| #[trigger] confidence.requires((&p,)),
        ensures
            exists|ids: Seq<Seq<char>>, scores: Seq<u64>|
                {
                    &&& #[trigger] candidates(self@.patterns, confidence, now, ids, scores)
                    &&& top_targets(ids, scores, text::texts(r@))
                },
    {
        let n: usize = self.patterns.len();
        let ghost order = self.patterns.order();
        let mut ids: Vec<String> = Vec::new();
        let mut scores: Vec<u64> = Vec::new();
        let ghost mut from: Seq<int> = Seq::empty();
        let mut i: usize = 0;
        while i < n
            invariant
                i <= n,
                n == order.len(),
                order == self.patterns.order(),
                order.no_duplicates(),
                forall|p: VaultAccessPattern| #[trigger] confidence.requires((&p,)),
                forall|k: Seq<char>| #[trigger]
                    order.contains(k) <==> self.patterns@.contains_key(k),
                ids@.len() == scores@.len(),
                ids@.len() == from.len(),
                forall|j: int|
                    0 <= j < from.len() ==> 0 <= #[trigger] from[j] < i && ids@[j]@
                        == order[from[j]],
                forall|a: int, b: int|
                    0 <= a < b < from.len() ==> #[trigger] from[a] < #[trigger] from[b],
                forall|j: int|
                    0 <= j < ids@.len() ==> {
                        let p = self.patterns@[(#[trigger] ids@[j])@]@;
                        &&& p.imminent(now)
                        &&& scores@[j] >= MIN_PREFETCH_CONFIDENCE
                        &&& scored(confidence, p, scores@[j])
                    },
                forall|k: int|
                    0 <= k < i && self.patterns@[#[trigger] order[k]]@.imminent(now)
                        && !from.contains(k) ==> too_low(confidence, self.patterns@[order[k]]@),
            decreases n - i,
        {
            let p = self.patterns.value_at(i);
            let ghost old_from = from;
            let ghost old_ids = ids@;
            if p.is_imminent_at(now) {
                let s: u64 = confidence(p);
                assert(scored(confidence, p@, s));
                if s >= MIN_PREFETCH_CONFIDENCE {
                    ids.push(self.patterns.key_at(i).clone());
                    scores.push(s);
                    proof {
                        from = from.push(i as int);
                        assert(from[from.len() - 1] == i);
                        assert forall|j: int| 0 <= j < ids@.len() implies {
                            let q = self.patterns@[(#[trigger] ids@[j])@]@;
                            &&& q.imminent(now)
                            &&& scores@[j] >= MIN_PREFETCH_CONFIDENCE
                            &&& scored(confidence, q, scores@[j])
                        } by {
                            if j < old_ids.len() {
                                assert(ids@[j] == old_ids[j]);
                            }
                        }
                        assert forall|k: int|
                            0 <= k < i + 1 && self.patterns@[#[trigger] order[k]]@.imminent(now)
                                && !from.contains(k) implies too_low(
                            confidence,
                            self.patterns@[order[k]]@,
                        ) by {
                            assert(k != i);
                            if old_from.contains(k) {
                                let x = old_from.index_of(k);
                                assert(from[x] == k);
                            }
                        }
                    }
                } else {
                    assert(too_low(confidence, p@));
                }
            }
            i += 1;
        }
        let r = select_targets(&ids, &scores);
        proof {
            let t = text::texts(ids@);
            let pats = self@.patterns;
            assert forall|a: int, b: int| 0 <= a < t.len() && 0 <= b < t.len() && a != b implies t[a]
                != t[b] by {
                assert(ids@[a]@ == order[from[a]]);
                assert(ids@[b]@ == order[from[b]]);
                assert(from[a] != from[b]);
            }
            assert forall|j: int| 0 <= j < t.len() implies {
                &&& pats.contains_key(#[trigger] t[j])
                &&& pats[t[j]].imminent(now)
                &&& scores@[j] >= MIN_PREFETCH_CONFIDENCE
                &&& scored(confidence, pats[t[j]], scores@[j])
            } by {
                assert(t[j] == ids@[j]@);
                assert(order.contains(order[from[j]]));
            }
            assert forall|id: Seq<char>| #[trigger]
                pats.contains_key(id) && pats[id].imminent(now) && !t.contains(id) implies too_low(
                confidence,
                pats[id],
            ) by {
                assert(order.contains(id));
                let k = order.index_of(id);
                assert(order[k] == id);
                if from.contains(k) {
                    let x = from.index_of(k);
                    assert(t[x] == id);
                }
            }
            assert(candidates(self@.patterns, confidence, now, t, scores@));
        }
        r
    }

    /// Execute cache warming for predicted vaults. The caller brings the
    /// scoring and the serialisation.
    pub fn warm_cache<
        F: Fn(&VaultAccessPattern) -> u64,
        E: Fn(&Vault) -> Vec<u8>,
        T: Fn(&Option<u64>) -> Vec<u8>,
    >(
        &mut self,
        cache: &mut VaultCache,
        vault_store: &VaultStore,
        confidence: F,
        encode: E,
        encode_ttl: T,
    ) -> (r: WarmingResult)
        requires
            forall|p: VaultAccessPattern| #[trigger] confidence.requires((&p,)),
            forall|v: Vault| #[trigger] encode.requires((&v,)),
            forall|v: Option<u64>| #[trigger] encode_ttl.requires((&v,)),
        ensures
            exists|
                at: Instant,
                ids: Seq<Seq<char>>,
                scores: Seq<u64>,
                targets: Seq<Seq<char>>,
                outcomes: Seq<Outcome>,
            |
                {
                    &&& #[trigger] candidates(old(self)@.patterns, confidence, at, ids, scores)
                    &&& #[trigger] top_targets(ids, scores, targets)
                    &&& outcomes.len() == targets.len()
                    &&& #[trigger] r.sums_up(targets, outcomes)
                    &&& final(self)@.stats == old(self)@.stats.after_all(outcomes)
                    &&& warmed(
                        old(cache)@,
                        final(cache)@,
                        targets,
                        vault_store@,
                        encode,
                        encode_ttl,
                        outcomes,
                    )
                },
            final(self)@.patterns == old(self)@.patterns,
    {
        let targets = self.predict_prefetch_targets(confidence);
        let now = cache.now();
        self.warm_targets_at(&targets, cache, vault_store, encode, encode_ttl, now)
    }

    /// Load those of `targets` that are not cached from the store at `now`.
    pub fn warm_targets_at<E: Fn(&Vault) -> Vec<u8>, T: Fn(&Option<u64>) -> Vec<u8>>(
        &mut self,
        targets: &Vec<String>,
        cache: &mut VaultCache,
        vault_store: &VaultStore,
        encode: E,
        encode_ttl: T,
        now: Instant,
    ) -> (r: WarmingResult)
        requires
            forall|v: Vault| #[trigger] encode.requires((&v,)),
            forall|v: Option<u64>| #[trigger] encode_ttl.requires((&v,)),
        ensures
            final(self)@.patterns == old(self)@.patterns,
            exists|outcomes: Seq<Outcome>|
                {
                    &&& outcomes.len() == targets@.len()
                    &&& #[trigger] r.sums_up(text::texts(targets@), outcomes)
                    &&& final(self)@.stats == old(self)@.stats.after_all(outcomes)
                    &&& warmed_at(
                        old(cache)@,
                        final(cache)@,
                        text::texts(targets@),
                        vault_store@,
                        encode,
                        encode_ttl,
                        now,
                        outcomes,
                    )
                },
    {
        let mut warmed_count: usize = 0;
        let mut failed_count: usize = 0;
        let mut skipped_count: usize = 0;
        let mut vault_ids: Vec<String> = Vec::new();
        let ghost wanted = text::texts(targets@);
        let ghost mut outcomes: Seq<Outcome> = Seq::empty();
        let ghost mut caches: Seq<cache::CacheModel> = seq![cache@];
        let mut i: usize = 0;
        assert(text::texts(vault_ids@) =~= loaded(wanted, outcomes));
        while i < targets.len()
            invariant
                i <= targets@.len(),
                wanted == text::texts(targets@),
                forall|v: Vault| #[trigger] encode.requires((&v,)),
                forall|v: Option<u64>| #[trigger] encode_ttl.requires((&v,)),
                outcomes.len() == i,
                caches.len() == i + 1,
                caches[0] == old(cache)@,
                caches.last() == cache@,
                run(caches, wanted, vault_store@, encode, encode_ttl, now, outcomes),
                self@.patterns == old(self)@.patterns,
                self@.stats == old(self)@.stats.after_all(outcomes),
                warmed_count == tally(outcomes, Outcome::Warmed),
                failed_count == tally(outcomes, Outcome::Failed),
                skipped_count == tally(outcomes, Outcome::Skipped),
                warmed_count + failed_count + skipped_count == i,
                text::texts(vault_ids@) == loaded(wanted, outcomes),
            decreases targets@.len() - i,
        {
            let vault_id: &str = targets[i].as_str();
            assert(wanted[i as int] == vault_id@);
            let ghost before = cache@;
            let ghost outcome: Outcome;
            let ghost old_ids = text::texts(vault_ids@);
            let hit = cache.get_at(Slot::Vault, vault_id, now);
            let ghost probed = cache@;
            if hit.is_some() {
                skipped_count += 1;
                proof {
                    outcome = Outcome::Skipped;
                }
            } else {
                match vault_store.get(vault_id) {
                    Some(vault) => {
                        let a = encode(vault);
                        let ghost ga = a;
                        cache.set_at(Slot::Vault, vault_id, a, now);
                        let ghost mid = cache@;
                        let b = encode_ttl(&vault.ttl_remaining);
                        let ghost gb = b;
                        cache.set_at(Slot::TtlRemaining, vault_id, b, now);
                        warmed_count += 1;
                        vault_ids.push(targets[i].clone());
                        self.stats.total_prefetches = self.stats.total_prefetches.wrapping_add(1);
                        self.stats.successful_prefetches =
                        self.stats.successful_prefetches.wrapping_add(1);
                        proof {
                            outcome = Outcome::Warmed;
                            assert(probed.after_write(mid, Slot::Vault, vault_id@, ga@, now));
                            assert(mid.after_write(
                                cache@,
                                Slot::TtlRemaining,
                                vault_id@,
                                gb@,
                                now,
                            ));
                            assert(text::texts(vault_ids@) =~= old_ids.push(vault_id@));
                        }
                    },
                    None => {
                        failed_count += 1;
                        self.stats.failed_prefetches = self.stats.failed_prefetches.wrapping_add(1);
                        proof {
                            outcome = Outcome::Failed;
                        }
                    },
                }
            }
            proof {
                assert(handled(
                    before,
                    cache@,
                    vault_id@,
                    vault_store@,
                    encode,
                    encode_ttl,
                    now,
                    outcome,
                ));
                let more = outcomes.push(outcome);
                let longer = caches.push(cache@);
                assert(more.drop_last() =~= outcomes);
                assert forall|k: int| 0 <= k < more.len() implies handled(
                    #[trigger] longer[k],
                    longer[k + 1],
                    wanted[k],
                    vault_store@,
                    encode,
                    encode_ttl,
                    now,
                    #[trigger] more[k],
                ) by {
                    if k < outcomes.len() {
                        assert(longer[k] == caches[k]);
                        assert(more[k] == outcomes[k]);
                    }
                }
                outcomes = more;
                caches = longer;
            }
            i += 1;
        }
        let r = WarmingResult { warmed_count, failed_count, skipped_count, vault_ids };
        assert(r.sums_up(wanted, outcomes));
        r
    }

    /// The current counters.
    pub fn get_stats(&self) -> (r: WarmerStats)
        ensures
            r == self@.stats,
    {
        self.stats
    }

    /// Reset all tracking data.
    pub fn reset(&mut self)
        ensures
            final(self)@ == WarmerModel::empty(),
    {
        self.patterns.clear();
        self.stats = WarmerStats::default();
        assert(self@ =~= WarmerModel::empty());
    }
}

/// Whether handling `targets` in turn at `now` leads from one cache to another
/// with these outcomes.
pub open spec fn warmed_at<E: Fn(&Vault) -> Vec<u8>, T: Fn(&Option<u64>) -> Vec<u8>>(
    before: cache::CacheModel,
    after: cache::CacheModel,
    targets: Seq<Seq<char>>,
    store: Map<Seq<char>, Vault>,
    encode: E,
    encode_ttl: T,
    now: Instant,
    outcomes: Seq<Outcome>,
) -> bool {
    exists|caches: Seq<cache::CacheModel>|
        {
            &&& #[trigger] run(caches, targets, store, encode, encode_ttl, now, outcomes)
            &&& caches[0] == before
            &&& caches.last() == after
        }
}

/// The same at some moment.
pub open spec fn warmed<E: Fn(&Vault) -> Vec<u8>, T: Fn(&Option<u64>) -> Vec<u8>>(
    before: cache::CacheModel,
    after: cache::CacheModel,
    targets: Seq<Seq<char>>,
    store: Map<Seq<char>, Vault>,
    encode: E,
    encode_ttl: T,
    outcomes: Seq<Outcome>,
) -> bool {
    exists|now: Instant| #[trigger]
        warmed_at(before, after, targets, store, encode, encode_ttl, now, outcomes)
}

/// Every target is accounted for exactly once, and as many vaults are listed
/// as were loaded.
pub proof fn law_every_target_is_counted(targets: Seq<Seq<char>>, outcomes: Seq<Outcome>)
    ensures
        tally(outcomes, Outcome::Warmed) + tally(outcomes, Outcome::Failed) + tally(
            outcomes,
            Outcome::Skipped,
        ) == outcomes.len(),
        loaded(targets, outcomes).len() == tally(outcomes, Outcome::Warmed),
    decreases outcomes.len(),
{
    if outcomes.len() > 0 {
        law_every_target_is_counted(targets, outcomes.drop_last());
    }
}

/// No more accesses are remembered per vault than the history holds, and the
/// latest is always among them.
pub proof fn law_access_history_is_bounded(p: PatternModel, timestamp: Instant)
    ensures
        p.accessed(timestamp).history.len() <= MAX_ACCESS_HISTORY,
        p.accessed(timestamp).history.last() == timestamp,
{
}

/// The next access of a vault that is accessed at a steady interval is expected
/// one interval after the last, once there were three accesses.
pub proof fn law_steady_access_is_predicted(p: PatternModel, a: Instant, step: nat)
    requires
        a.nanos + 3 * step <= u128::MAX,
        p.history.len() == 3,
        p.history[0] == a,
        p.history[1].nanos == a.nanos + step,
        p.history[2].nanos == a.nanos + 2 * step,
    ensures
        p.next_access() is Some,
        p.next_access()->0.nanos == a.nanos + 3 * step,
{
    reveal_with_fuel(total_interval, 4);
    let h = p.history;
    assert(h.drop_last()[1] == h[1] && h.drop_last()[0] == h[0]);
    assert(h.drop_last().last() == h[1]);
    assert(total_interval(h) == 2 * step);
    let i = average_interval(h)->0;
    assert(i.total_nanos == 2 * step && i.count == 2);
    assert(2 * i.count as int == 4);
    assert((4 * step + 2) / 4 == step);
    assert(mean_nanos(i) == step);
}

/// Nothing is expected of a vault before its third access.
pub proof fn law_few_accesses_predict_nothing(p: PatternModel, now: Instant)
    requires
        p.history.len() < 3,
    ensures
        p.next_access() is None,
        !p.imminent(now),
{
}

/// An access is imminent if it is expected within five minutes or overdue.
pub proof fn law_imminent_is_within_five_minutes(p: PatternModel, now: Instant)
    requires
        p.next_access() is Some,
    ensures
        p.next_access()->0.nanos <= now.nanos ==> p.imminent(now),
        p.next_access()->0.nanos - now.nanos < 301_000_000_000 ==> p.imminent(now),
        p.next_access()->0.nanos - now.nanos >= 301_000_000_000 ==> !p.imminent(now),
{
}

/// One access more adds the time since the one before it to the intervals.
pub proof fn law_intervals_add_up(history: Seq<Instant>, t: Instant)
    requires
        history.len() > 0,
        history.last().nanos <= t.nanos,
        total_interval(history) + t.nanos <= u128::MAX,
    ensures
        total_interval(history.push(t)) == total_interval(history) + (t.nanos
            - history.last().nanos),
        average_interval(history.push(t)) is Some,
        history.len() < u64::MAX ==> average_interval(history.push(t))->0.count == history.len(),
        average_interval(seq![t]) is None,
{
    assert(history.push(t).drop_last() =~= history);
}

/// What becomes of a target: one that is cached is skipped, one that the store
/// does not have fails, and any other is warmed; only then is it written to the cache.
pub proof fn law_target_is_warmed_when_missing<
    E: Fn(&Vault) -> Vec<u8>,
    T: Fn(&Option<u64>) -> Vec<u8>,
>(
    before: cache::CacheModel,
    after: cache::CacheModel,
    id: Seq<char>,
    store: Map<Seq<char>, Vault>,
    encode: E,
    encode_ttl: T,
    now: Instant,
    outcome: Outcome,
)
    requires
        handled(before, after, id, store, encode, encode_ttl, now, outcome),
    ensures
        before.read(Slot::Vault, id, now) is Some ==> outcome == Outcome::Skipped,
        before.read(Slot::Vault, id, now) is None && !store.contains_key(id) ==> outcome
            == Outcome::Failed,
        before.read(Slot::Vault, id, now) is None && store.contains_key(id) ==> outcome
            == Outcome::Warmed,
        outcome != Outcome::Warmed ==> after.global_version == before.global_version,
        outcome == Outcome::Skipped ==> after.entries == before.entries,
        outcome == Outcome::Warmed && before.config.max_entries > 0 ==> after.of(id).ttl_remaining
            is Some && after.of(id).ttl_remaining->0.inserted_at == now,
{
}

/// Outcomes are counted under their own name, and what was warmed is listed in
/// the order of the targets.
pub proof fn law_outcomes_are_counted_by_name(
    targets: Seq<Seq<char>>,
    outcomes: Seq<Outcome>,
    o: Outcome,
    which: Outcome,
)
    requires
        targets.len() > outcomes.len(),
    ensures
        tally(Seq::<Outcome>::empty(), which) == 0,
        tally(outcomes.push(o), which) == tally(outcomes, which) + if o == which {
            1nat
        } else {
            0nat
        },
        o == Outcome::Warmed ==> loaded(targets, outcomes.push(o)) == loaded(targets, outcomes).push(
            targets[outcomes.len() as int],
        ),
        o != Outcome::Warmed ==> loaded(targets, outcomes.push(o)) == loaded(targets, outcomes),
{
    assert(outcomes.push(o).drop_last() =~= outcomes);
}

/// The figures of the warmer: a prefetch counts when it loads something, a
/// failure when it does not, and what is cached already counts as neither.
pub proof fn law_prefetches_are_counted(s: WarmerStats)
    requires
        s.total_prefetches < u64::MAX,
        s.successful_prefetches < u64::MAX,
        s.failed_prefetches < u64::MAX,
    ensures
        s.after(Outcome::Skipped) == s,
        s.after(Outcome::Warmed).total_prefetches == s.total_prefetches + 1,
        s.after(Outcome::Warmed).successful_prefetches == s.successful_prefetches + 1,
        s.after(Outcome::Warmed).failed_prefetches == s.failed_prefetches,
        s.after(Outcome::Failed).failed_prefetches == s.failed_prefetches + 1,
        s.after(Outcome::Failed).total_prefetches == s.total_prefetches,
        s.after(Outcome::Failed).successful_prefetches == s.successful_prefetches,
{
}

/// The targets are the most promising candidates, best first, and no more than
/// fifty of them.
pub proof fn law_best_candidates_come_first(
    ids: Seq<Seq<char>>,
    scores: Seq<u64>,
    r: Seq<Seq<char>>,
)
    requires
        ids.len() == scores.len(),
        top_targets(ids, scores, r),
    ensures
        r.len() <= 50,
        ids.len() <= 50 ==> r.len() == ids.len(),
        ids.len() > 50 ==> r.len() == 50,
        exists|perm: Seq<usize>| #[trigger] picks_best(ids, scores, r, perm),
{
    let perm = choose|perm: Seq<usize>|
        {
            &&& #[trigger] order::stable_order(order::widened(scores), true, perm)
            &&& r.len() == if perm.len() > MAX_PREFETCH_BATCH {
                MAX_PREFETCH_BATCH as int
            } else {
                perm.len() as int
            }
            &&& forall|i: int| 0 <= i < r.len() ==> #[trigger] r[i] == ids[perm[i] as int]
        };
    assert forall|i: int, j: int| 0 <= i < j < perm.len() implies scores[#[trigger] perm[i] as int]
        >= scores[#[trigger] perm[j] as int] by {
        order::law_stable_order_sorts(order::widened(scores), true, perm, i, j);
    }
    assert(picks_best(ids, scores, r, perm));
}

/// Whether `r` lists the first candidates of an arrangement in which no score is
/// followed by a greater one.
pub open spec fn picks_best(
    ids: Seq<Seq<char>>,
    scores: Seq<u64>,
    r: Seq<Seq<char>>,
    perm: Seq<usize>,
) -> bool {
    &&& perm.len() == ids.len()
    &&& forall|i: int| 0 <= i < perm.len() ==> #[trigger] perm[i] < ids.len()
    &&& forall|i: int| 0 <= i < r.len() ==> #[trigger] r[i] == ids[perm[i] as int]
    &&& forall|i: int, j: int|
        0 <= i < j < perm.len() ==> scores[#[trigger] perm[i] as int]
            >= scores[#[trigger] perm[j] as int]
}

/// A prediction came true if the access came within a fifth of the mean interval
/// after it; without an interval every access after a prediction counts.
pub proof fn law_access_confirms_a_prediction(p: PatternModel, at: Instant, t: Instant)
    requires
        p.last_prediction == Some(at),
        p.successful_predictions < u64::MAX,
        p.history.len() < 100,
        at.nanos <= t.nanos,
    ensures
        p.history.len() < 2 ==> p.accessed(t).successful_predictions == p.successful_predictions
            + 1,
        p.history.len() >= 2 ==> (p.accessed(t).successful_predictions == p.successful_predictions
            + 1 <==> 5 * (p.history.len() - 1) * (t.nanos - at.nanos)
            < average_interval(p.history)->0.total_nanos),
        p.accessed(t).history == p.history.push(t),
        p.accessed(t).total_predictions == p.total_predictions,
{
}

/// A candidate is expected soon and has a score of at least the least confidence,
/// and no vault is left out that is expected soon and always scores as much.
pub proof fn law_candidates_are_promising<F: Fn(&VaultAccessPattern) -> u64>(
    patterns: Map<Seq<char>, PatternModel>,
    confidence: F,
    now: Instant,
    ids: Seq<Seq<char>>,
    scores: Seq<u64>,
    i: int,
    id: Seq<char>,
)
    requires
        candidates(patterns, confidence, now, ids, scores),
    ensures
        0 <= i < ids.len() ==> patterns.contains_key(ids[i]) && patterns[ids[i]].imminent(now)
            && scores[i] >= 0x3FE2_147A_E147_AE14,
        patterns.contains_key(id) && patterns[id].imminent(now) && (forall|s: u64| #[trigger]
            scored(confidence, patterns[id], s) ==> s >= 0x3FE2_147A_E147_AE14) ==> ids.contains(
            id,
        ),
{
    if 0 <= i < ids.len() {
        assert(patterns.contains_key(ids[i]));
        assert(scores[i] >= MIN_PREFETCH_CONFIDENCE);
    }
    if patterns.contains_key(id) && patterns[id].imminent(now) && !ids.contains(id) {
        assert(too_low(confidence, patterns[id]));
    }
}

/// A run handles every target in turn, each on the cache that the one before left;
/// its figures are those of the outcomes.
pub proof fn law_run_handles_every_target<
    E: Fn(&Vault) -> Vec<u8>,
    T: Fn(&Option<u64>) -> Vec<u8>,
>(
    before: cache::CacheModel,
    after: cache::CacheModel,
    targets: Seq<Seq<char>>,
    store: Map<Seq<char>, Vault>,
    encode: E,
    encode_ttl: T,
    now: Instant,
    outcomes: Seq<Outcome>,
    r: WarmingResult,
)
    requires
        warmed_at(before, after, targets, store, encode, encode_ttl, now, outcomes),
        r.sums_up(targets, outcomes),
    ensures
        outcomes.len() == 0 ==> after == before,
        outcomes.len() == 1 ==> handled(
            before,
            after,
            targets[0],
            store,
            encode,
            encode_ttl,
            now,
            outcomes[0],
        ),
        r.warmed_count + r.failed_count + r.skipped_count == outcomes.len(),
        r.vault_ids@.len() == r.warmed_count,
{
    let caches = choose|caches: Seq<cache::CacheModel>|
        {
            &&& #[trigger] run(caches, targets, store, encode, encode_ttl, now, outcomes)
            &&& caches[0] == before
            &&& caches.last() == after
        };
    law_every_target_is_counted(targets, outcomes);
    if outcomes.len() == 1 {
        let o = outcomes[0];
        let c = caches[0];
        assert(handled(c, caches[1], targets[0], store, encode, encode_ttl, now, o));
    }
    assert(text::texts(r.vault_ids@).len() == r.vault_ids@.len());
}

/// The figures after a run are those after its outcomes, one by one.
pub proof fn law_figures_follow_the_outcomes(s: WarmerStats, outcomes: Seq<Outcome>, o: Outcome)
    ensures
        s.after_all(Seq::<Outcome>::empty()) == s,
        s.after_all(outcomes.push(o)) == s.after_all(outcomes).after(o),
{
    assert(outcomes.push(o).drop_last() =~= outcomes);
}

} // verus!

//! Chaos engineering scenarios: composable fault injectors, and the tally of
//! how a system under test held up against them.

use crate::clock;
use crate::clock::Duration;
use crate::strmap::StrMap;
use crate::text;
use crate::text::decimal_text;
use rand::Rng;
use vstd::prelude::*;
use vstd::string::*;

verus! {

/// The next value of a counter that wraps around.
pub open spec fn next(n: usize) -> usize {
    if n == usize::MAX {
        0
    } else {
        (n + 1) as usize
    }
}

/// A source of injected faults that a chaos scenario drives an operation
/// through. Implementors track how many times they were consulted and how
/// many of those consultations resulted in an injected fault.
pub trait FaultInjector {
    /// How many times the injector was consulted.
    spec fn calls(&self) -> usize;

    /// How many of the consultations were faults.
    spec fn faults(&self) -> usize;

    /// The name of the scenario.
    spec fn scenario(&self) -> Seq<char>;

    /// Short, stable name identifying this scenario (used in reports).
    fn name(&self) -> (r: &str)
        ensures
            r@ == self.scenario(),
    ;

    /// Simulate one dependency call: returns `Err` to represent an injected
    /// failure for this call.
    fn inject(&mut self) -> (r: Result<(), String>)
        ensures
            final(self).calls() == next(old(self).calls()),
            final(self).faults() == if r is Err {
                next(old(self).faults())
            } else {
                old(self).faults()
            },
    ;

    /// How many times the injector was consulted.
    fn calls_total(&self) -> (r: usize)
        ensures
            r == self.calls(),
    ;

    /// How many of the consultations were faults.
    fn faults_injected(&self) -> (r: usize)
        ensures
            r == self.faults(),
    ;
}

/// A random number up to and including `limit`.
///
/// Trusted: `rand::Rng::gen_range` on the thread's generator stays within the
/// inclusive range that it is given, which is never empty here. Nothing else is
/// claimed of the number.
#[verifier::external_body]
fn random_up_to(limit: u64) -> (r: u64)
    ensures
        r <= limit,
{
    rand::thread_rng().gen_range(0..=limit)
}

/// The rate at which every call fails. Rates count in units of this part of one.
pub const FULL_RATE: u64 = 0x20_0000_0000_0000;

/// Randomly fails a fraction of calls, simulating flaky network conditions.
pub struct NetworkFailureInjector {
    failure_rate: u64,
    calls_total: usize,
    faults_injected: usize,
}

impl NetworkFailureInjector {
    /// How often a call fails, out of `FULL_RATE`.
    pub closed spec fn rate(self) -> u64 {
        self.failure_rate
    }

    /// An injector with a failure rate out of `FULL_RATE`, clamped to it.
    pub fn new(failure_rate: u64) -> (r: Self)
        ensures
            r.rate() == if failure_rate > FULL_RATE {
                FULL_RATE
            } else {
                failure_rate
            },
            r.calls() == 0,
            r.faults() == 0,
    {
        NetworkFailureInjector {
            failure_rate: if failure_rate > FULL_RATE {
                FULL_RATE
            } else {
                failure_rate
            },
            calls_total: 0,
            faults_injected: 0,
        }
    }

    /// One call whose random draw, below `FULL_RATE`, is known: it fails when
    /// the draw is below the rate.
    pub fn inject_drawn(&mut self, draw: u64) -> (r: Result<(), String>)
        ensures
            final(self).calls() == next(old(self).calls()),
            final(self).faults() == if r is Err {
                next(old(self).faults())
            } else {
                old(self).faults()
            },
            final(self).rate() == old(self).rate(),
            match r {
                Ok(_) => draw >= old(self).rate(),
                Err(e) => draw < old(self).rate() && e@ == "chaos: simulated network failure"@,
            },
    {
        self.calls_total = self.calls_total.wrapping_add(1);
        if draw < self.failure_rate {
            self.faults_injected = self.faults_injected.wrapping_add(1);
            Err("chaos: simulated network failure".to_owned())
        } else {
            Ok(())
        }
    }
}

impl FaultInjector for NetworkFailureInjector {
    closed spec fn calls(&self) -> usize {
        self.calls_total
    }

    closed spec fn faults(&self) -> usize {
        self.faults_injected
    }

    open spec fn scenario(&self) -> Seq<char> {
        "network_failure"@
    }

    fn name(&self) -> (r: &str) {
        "network_failure"
    }

    fn inject(&mut self) -> (r: Result<(), String>)
        ensures
            final(self).rate() == old(self).rate(),
            old(self).rate() == 0 ==> r is Ok,
            old(self).rate() >= FULL_RATE ==> r is Err,
            r is Err ==> r->Err_0@ == "chaos: simulated network failure"@,
    {
        let draw: u64 = random_up_to(FULL_RATE - 1);
        self.inject_drawn(draw)
    }

    fn calls_total(&self) -> (r: usize) {
        self.calls_total
    }

    fn faults_injected(&self) -> (r: usize) {
        self.faults_injected
    }
}

/// Injects a random delay per call, uniformly sampled from `[min, max]`.
/// Delays that exceed `timeout` are reported as an injected failure, mirroring
/// how a real caller's own timeout would treat an overly slow dependency.
pub struct LatencyInjector {
    min: Duration,
    max: Duration,
    timeout: Duration,
    calls_total: usize,
    faults_injected: usize,
}

/// The bounds of a latency injector.
#[verifier::ext_equal]
pub struct LatencyModel {
    /// The shortest delay.
    pub min: Duration,
    /// The longest delay.
    pub max: Duration,
    /// The delay beyond which a call fails.
    pub timeout: Duration,
}

impl View for LatencyInjector {
    type V = LatencyModel;

    closed spec fn view(&self) -> LatencyModel {
        LatencyModel { min: self.min, max: self.max, timeout: self.timeout }
    }
}

impl LatencyModel {
    /// Whether a delay may be sampled.
    pub open spec fn possible(self, delay: Duration) -> bool {
        if self.max.nanos <= self.min.nanos {
            delay == self.min
        } else {
            self.min.nanos <= delay.nanos <= self.max.nanos
        }
    }
}

/// The message of a call that took too long.
pub open spec fn too_slow(delay: Duration, timeout: Duration) -> Seq<char> {
    "chaos: call took "@ + clock::readable(delay.nanos as nat) + ", exceeding timeout "@
        + clock::readable(timeout.nanos as nat)
}

impl LatencyInjector {
    /// An injector with delays between `min` and `max`.
    pub fn new(min: Duration, max: Duration, timeout: Duration) -> (r: Self)
        ensures
            r@ == (LatencyModel { min, max, timeout }),
            r.calls() == 0,
            r.faults() == 0,
    {
        LatencyInjector { min, max, timeout, calls_total: 0, faults_injected: 0 }
    }

    /// A random delay.
    pub fn sample_delay(&self) -> (r: Duration)
        ensures
            self@.possible(r),
    {
        if self.max.nanos <= self.min.nanos {
            return self.min;
        }
        let span: u128 = self.max.nanos - self.min.nanos;
        let extra: u64 = random_up_to((span % 0x1_0000_0000_0000_0000) as u64);
        Duration { nanos: self.min.nanos + extra as u128 }
    }

    /// One call that took `delay`: it fails when that exceeds the timeout.
    pub fn inject_delayed(&mut self, delay: Duration) -> (r: Result<(), String>)
        ensures
            final(self).calls() == next(old(self).calls()),
            final(self).faults() == if r is Err {
                next(old(self).faults())
            } else {
                old(self).faults()
            },
            final(self)@ == old(self)@,
            match r {
                Ok(_) => delay.nanos <= old(self)@.timeout.nanos,
                Err(e) => delay.nanos > old(self)@.timeout.nanos && e@ == too_slow(
                    delay,
                    old(self)@.timeout,
                ),
            },
    {
        self.calls_total = self.calls_total.wrapping_add(1);
        if delay.nanos > self.timeout.nanos {
            self.faults_injected = self.faults_injected.wrapping_add(1);
            let took = delay.readable_text();
            let limit = self.timeout.readable_text();
            let mut message: String = "chaos: call took ".to_owned();
            message.append(took.as_str());
            message.append(", exceeding timeout ");
            message.append(limit.as_str());
            Err(message)
        } else {
            Ok(())
        }
    }
}

impl FaultInjector for LatencyInjector {
    closed spec fn calls(&self) -> usize {
        self.calls_total
    }

    closed spec fn faults(&self) -> usize {
        self.faults_injected
    }

    open spec fn scenario(&self) -> Seq<char> {
        "latency_injection"@
    }

    fn name(&self) -> (r: &str) {
        "latency_injection"
    }

    /// Samples a delay and judges it, without waiting: whoever wants the wait
    /// samples, waits, and calls `inject_delayed`.
    fn inject(&mut self) -> (r: Result<(), String>)
        ensures
            final(self)@ == old(self)@,
            exists|delay: Duration|
                {
                    &&& #[trigger] old(self)@.possible(delay)
                    &&& r is Err <==> delay.nanos > old(self)@.timeout.nanos
                    &&& r is Err ==> r->Err_0@ == too_slow(delay, old(self)@.timeout)
                },
    {
        let delay = self.sample_delay();
        self.inject_delayed(delay)
    }

    fn calls_total(&self) -> (r: usize) {
        self.calls_total
    }

    fn faults_injected(&self) -> (r: usize) {
        self.faults_injected
    }
}

/// Tracks which named nodes are currently partitioned (unreachable).
pub struct NetworkPartitionSimulator {
    partitioned: StrMap<()>,
}

impl View for NetworkPartitionSimulator {
    type V = Set<Seq<char>>;

    closed spec fn view(&self) -> Set<Seq<char>> {
        self.partitioned@.dom()
    }
}

impl Default for NetworkPartitionSimulator {
    fn default() -> (r: Self)
        ensures
            r@ == Set::<Seq<char>>::empty(),
    {
        Self::new()
    }
}

/// The message of a call that a partition blocks.
pub open spec fn blocked(from: Seq<char>, to: Seq<char>) -> Seq<char> {
    "chaos: network partition blocks "@ + from + " -> "@ + to
}

impl NetworkPartitionSimulator {
    /// All nodes are reachable.
    pub fn new() -> (r: Self)
        ensures
            r@ == Set::<Seq<char>>::empty(),
    {
        let r = NetworkPartitionSimulator { partitioned: StrMap::new() };
        assert(r@ =~= Set::<Seq<char>>::empty());
        r
    }

    /// Makes a node unreachable.
    pub fn partition(&mut self, node: &str)
        ensures
            final(self)@ == old(self)@.insert(node@),
    {
        let _old = self.partitioned.insert(node.to_owned(), ());
        assert(self@ =~= old(self)@.insert(node@));
    }

    /// Makes a node reachable.
    pub fn heal(&mut self, node: &str)
        ensures
            final(self)@ == old(self)@.remove(node@),
    {
        let _old = self.partitioned.remove(node);
        assert(self@ =~= old(self)@.remove(node@));
    }

    /// Makes all nodes reachable.
    pub fn heal_all(&mut self)
        ensures
            final(self)@ == Set::<Seq<char>>::empty(),
    {
        self.partitioned.clear();
        assert(self@ =~= Set::<Seq<char>>::empty());
    }

    /// Whether a node is unreachable.
    pub fn is_partitioned(&self, node: &str) -> (r: bool)
        ensures
            r == self@.contains(node@),
    {
        self.partitioned.contains_key(node)
    }

    /// Simulate an RPC between two nodes; fails if either side is partitioned.
    pub fn call(&self, from: &str, to: &str) -> (r: Result<(), String>)
        ensures
            match r {
                Ok(_) => !self@.contains(from@) && !self@.contains(to@),
                Err(e) => (self@.contains(from@) || self@.contains(to@)) && e@ == blocked(
                    from@,
                    to@,
                ),
            },
    {
        if self.is_partitioned(from) || self.is_partitioned(to) {
            let mut message: String = "chaos: network partition blocks ".to_owned();
            message.append(from);
            message.append(" -> ");
            message.append(to);
            Err(message)
        } else {
            Ok(())
        }
    }
}

/// Adapts a partition simulator and a fixed route into a fault injector.
pub struct NetworkPartitionInjector {
    /// Which nodes are reachable.
    pub simulator: NetworkPartitionSimulator,
    /// Where calls come from.
    pub from: String,
    /// Where calls go.
    pub to: String,
    /// How many times the injector was consulted.
    pub calls_total: usize,
    /// How many of the consultations were faults.
    pub faults_injected: usize,
}

impl NetworkPartitionInjector {
    /// Where calls come from and where they go.
    pub open spec fn route(self) -> (Seq<char>, Seq<char>) {
        (self.from@, self.to@)
    }

    /// An injector for calls from one node to another.
    pub fn new(simulator: NetworkPartitionSimulator, from: &str, to: &str) -> (r: Self)
        ensures
            r.simulator == simulator,
            r.route() == (from@, to@),
            r.calls() == 0,
            r.faults() == 0,
    {
        NetworkPartitionInjector {
            simulator,
            from: from.to_owned(),
            to: to.to_owned(),
            calls_total: 0,
            faults_injected: 0,
        }
    }
}

impl FaultInjector for NetworkPartitionInjector {
    open spec fn calls(&self) -> usize {
        self.calls_total
    }

    open spec fn faults(&self) -> usize {
        self.faults_injected
    }

    open spec fn scenario(&self) -> Seq<char> {
        "network_partition"@
    }

    fn name(&self) -> (r: &str) {
        "network_partition"
    }

    fn inject(&mut self) -> (r: Result<(), String>)
        ensures
            final(self).simulator == old(self).simulator,
            final(self).route() == old(self).route(),
            r is Err <==> old(self).simulator@.contains(old(self).route().0) || old(
                self,
            ).simulator@.contains(old(self).route().1),
            r is Err ==> r->Err_0@ == blocked(old(self).route().0, old(self).route().1),
    {
        self.calls_total = self.calls_total.wrapping_add(1);
        match self.simulator.call(self.from.as_str(), self.to.as_str()) {
            Ok(_) => Ok(()),
            Err(e) => {
                self.faults_injected = self.faults_injected.wrapping_add(1);
                Err(e)
            },
        }
    }

    fn calls_total(&self) -> (r: usize) {
        self.calls_total
    }

    fn faults_injected(&self) -> (r: usize) {
        self.faults_injected
    }
}

/// The kind of finite resource being simulated as exhausted.
#[derive(Clone, Copy, Debug, PartialEq, Eq, Structural)]
pub enum ResourceKind {
    Memory,
    Connections,
    FileDescriptors,
}

impl ResourceKind {
    /// The name of the kind.
    pub open spec fn spec_name(self) -> Seq<char> {
        match self {
            ResourceKind::Memory => "Memory"@,
            ResourceKind::Connections => "Connections"@,
            ResourceKind::FileDescriptors => "FileDescriptors"@,
        }
    }

    /// The name of the kind.
    pub fn name(&self) -> (r: &'static str)
        ensures
            r@ == self.spec_name(),
    {
        match self {
            ResourceKind::Memory => "Memory",
            ResourceKind::Connections => "Connections",
            ResourceKind::FileDescriptors => "FileDescriptors",
        }
    }
}

/// A finite pool.
#[verifier::ext_equal]
pub struct PoolModel {
    /// What is pooled.
    pub kind: ResourceKind,
    /// How many units there are.
    pub capacity: usize,
    /// How many of them are taken.
    pub in_use: usize,
}

/// A finite pool of `capacity` units. Chaos scenarios can force it toward
/// exhaustion to verify callers handle "resource unavailable" gracefully.
pub struct ResourceExhaustionSimulator {
    kind: ResourceKind,
    capacity: usize,
    in_use: usize,
}

impl View for ResourceExhaustionSimulator {
    type V = PoolModel;

    closed spec fn view(&self) -> PoolModel {
        PoolModel { kind: self.kind, capacity: self.capacity, in_use: self.in_use }
    }
}

/// Handle for one acquired unit, to be given back with `release`.
#[derive(Debug)]
pub struct ResourceGuard {
    held: (),
}

/// The message of an exhausted pool.
pub open spec fn exhausted(p: PoolModel) -> Seq<char> {
    "chaos: "@ + p.kind.spec_name() + " exhausted ("@ + text::decimal(p.in_use as nat) + "/"@
        + text::decimal(p.capacity as nat) + ")"@
}

impl ResourceExhaustionSimulator {
    /// A pool none of whose units is taken.
    pub fn new(kind: ResourceKind, capacity: usize) -> (r: Self)
        ensures
            r@ == (PoolModel { kind, capacity, in_use: 0 }),
    {
        ResourceExhaustionSimulator { kind, capacity, in_use: 0 }
    }

    /// Attempt to acquire one unit of the resource.
    pub fn acquire(&mut self) -> (r: Result<ResourceGuard, String>)
        ensures
            match r {
                Ok(_) => {
                    &&& old(self)@.in_use < old(self)@.capacity
                    &&& final(self)@ == (PoolModel {
                        in_use: (old(self)@.in_use + 1) as usize,
                        ..old(self)@
                    })
                },
                Err(e) => {
                    &&& old(self)@.in_use >= old(self)@.capacity
                    &&& final(self)@ == old(self)@
                    &&& e@ == exhausted(old(self)@)
                },
            },
    {
        if self.in_use >= self.capacity {
            let used = decimal_text(self.in_use as u128);
            let all = decimal_text(self.capacity as u128);
            let mut message: String = "chaos: ".to_owned();
            message.append(self.kind.name());
            message.append(" exhausted (");
            message.append(used.as_str());
            message.append("/");
            message.append(all.as_str());
            message.append(")");
            Err(message)
        } else {
            self.in_use = self.in_use + 1;
            Ok(ResourceGuard { held: () })
        }
    }

    /// Give an acquired unit back.
    pub fn release(&mut self, guard: ResourceGuard)
        requires
            old(self)@.in_use > 0,
        ensures
            final(self)@ == (PoolModel { in_use: (old(self)@.in_use - 1) as usize, ..old(self)@ }),
    {
        self.in_use = self.in_use - 1;
    }

    /// Force the pool to its capacity, simulating total exhaustion.
    pub fn exhaust(&mut self)
        ensures
            final(self)@ == (PoolModel { in_use: old(self)@.capacity, ..old(self)@ }),
    {
        self.in_use = self.capacity;
    }

    /// How many units are free.
    pub fn available(&self) -> (r: usize)
        ensures
            r == if self@.capacity >= self@.in_use {
                self@.capacity - self@.in_use
            } else {
                0
            },
    {
        if self.capacity >= self.in_use {
            self.capacity - self.in_use
        } else {
            0
        }
    }
}

/// Adapts a pool into a fault injector: each call attempts (and immediately
/// releases) one unit, failing if the pool was already at capacity.
pub struct ResourceExhaustionInjector {
    /// The pool.
    pub simulator: ResourceExhaustionSimulator,
    /// How many times the injector was consulted.
    pub calls_total: usize,
    /// How many of the consultations were faults.
    pub faults_injected: usize,
}

impl ResourceExhaustionInjector {
    /// An injector over a pool.
    pub fn new(simulator: ResourceExhaustionSimulator) -> (r: Self)
        ensures
            r.simulator == simulator,
            r.calls() == 0,
            r.faults() == 0,
    {
        ResourceExhaustionInjector { simulator, calls_total: 0, faults_injected: 0 }
    }
}

impl FaultInjector for ResourceExhaustionInjector {
    open spec fn calls(&self) -> usize {
        self.calls_total
    }

    open spec fn faults(&self) -> usize {
        self.faults_injected
    }

    open spec fn scenario(&self) -> Seq<char> {
        "resource_exhaustion"@
    }

    fn name(&self) -> (r: &str) {
        "resource_exhaustion"
    }

    fn inject(&mut self) -> (r: Result<(), String>)
        ensures
            final(self).simulator@ == old(self).simulator@,
            r is Err <==> old(self).simulator@.in_use >= old(self).simulator@.capacity,
            r is Err ==> r->Err_0@ == exhausted(old(self).simulator@),
    {
        self.calls_total = self.calls_total.wrapping_add(1);
        match self.simulator.acquire() {
            Ok(guard) => {
                self.simulator.release(guard);
                Ok(())
            },
            Err(e) => {
                self.faults_injected = self.faults_injected.wrapping_add(1);
                Err(e)
            },
        }
    }

    fn calls_total(&self) -> (r: usize) {
        self.calls_total
    }

    fn faults_injected(&self) -> (r: usize) {
        self.faults_injected
    }
}

/// Result of running one scenario for a number of attempts.
#[derive(Debug)]
pub struct ChaosTestResult {
    pub scenario: String,
    pub attempts: usize,
    pub calls_to_dependency: usize,
    pub faults_injected: usize,
    pub operation_successes: usize,
    pub operation_failures: usize,
    pub unhandled_panics: usize,
}

impl Clone for ChaosTestResult {
    fn clone(&self) -> (r: Self)
        ensures
            r == *self,
    {
        ChaosTestResult {
            scenario: self.scenario.clone(),
            attempts: self.attempts,
            calls_to_dependency: self.calls_to_dependency,
            faults_injected: self.faults_injected,
            operation_successes: self.operation_successes,
            operation_failures: self.operation_failures,
            unhandled_panics: self.unhandled_panics,
        }
    }
}

impl ChaosTestResult {
    /// Whether the system under test never panicked and succeeded at least as
    /// often as it failed.
    pub open spec fn graceful(self) -> bool {
        self.unhandled_panics == 0 && self.operation_successes >= self.operation_failures
    }

    /// A scenario "passes" if the system under test degraded gracefully:
    /// it never panicked, and it still succeeded at least as often as it
    /// failed despite the injected faults.
    pub fn passed(&self) -> (r: bool)
        ensures
            r == self.graceful(),
    {
        self.unhandled_panics == 0 && self.operation_successes >= self.operation_failures
    }
}

/// Aggregates results across multiple chaos scenarios.
#[derive(Debug)]
pub struct ChaosReport {
    pub results: Vec<ChaosTestResult>,
}

impl Default for ChaosReport {
    fn default() -> (r: Self)
        ensures
            r.results@ == Seq::<ChaosTestResult>::empty(),
    {
        Self::new()
    }
}

impl ChaosReport {
    /// A report without results.
    pub fn new() -> (r: Self)
        ensures
            r.results@ == Seq::<ChaosTestResult>::empty(),
    {
        ChaosReport { results: Vec::new() }
    }

    /// Adds a result.
    pub fn add(&mut self, result: ChaosTestResult)
        ensures
            final(self).results@ == old(self).results@.push(result),
    {
        self.results.push(result);
    }

    /// Whether there are results and all of them passed.
    pub fn all_passed(&self) -> (r: bool)
        ensures
            r == (self.results@.len() > 0 && forall|i: int|
                0 <= i < self.results@.len() ==> (#[trigger] self.results@[i]).graceful()),
    {
        let mut i: usize = 0;
        while i < self.results.len()
            invariant
                i <= self.results@.len(),
                forall|j: int| 0 <= j < i ==> (#[trigger] self.results@[j]).graceful(),
            decreases self.results@.len() - i,
        {
            if !self.results[i].passed() {
                assert(!self.results@[i as int].graceful());
                return false;
            }
            i += 1;
        }
        self.results.len() > 0
    }
}

/// How one attempt of the system under test ended.
#[derive(Clone, Copy, Debug, PartialEq, Eq, Structural)]
pub enum AttemptOutcome {
    Succeeded,
    Failed,
    Panicked,
}

/// How many attempts ended in the given way.
pub open spec fn count(outcomes: Seq<AttemptOutcome>, which: AttemptOutcome) -> nat
    decreases outcomes.len(),
{
    if outcomes.len() == 0 {
        0
    } else {
        count(outcomes.drop_last(), which) + if outcomes.last() == which {
            1nat
        } else {
            0nat
        }
    }
}

/// What a run has seen so far.
#[verifier::ext_equal]
pub struct RunModel {
    /// The scenario.
    pub scenario: Seq<char>,
    /// The injector's counters when the run began.
    pub calls_before: usize,
    pub faults_before: usize,
    /// How the attempts ended, in turn.
    pub outcomes: Seq<AttemptOutcome>,
}

/// The tally of a run of repeated trials against one fault injector. A crash
/// of the system under test is a finding like any other outcome.
pub struct ChaosRunner {
    scenario: String,
    calls_before: usize,
    faults_before: usize,
    successes: usize,
    failures: usize,
    panics: usize,
    seen: Ghost<Seq<AttemptOutcome>>,
}

impl View for ChaosRunner {
    type V = RunModel;

    closed spec fn view(&self) -> RunModel {
        RunModel {
            scenario: self.scenario@,
            calls_before: self.calls_before,
            faults_before: self.faults_before,
            outcomes: self.seen@,
        }
    }
}

impl ChaosRunner {
    /// Whether the counters agree with the outcomes.
    pub closed spec fn counted(self) -> bool {
        &&& self.successes == count(self.seen@, AttemptOutcome::Succeeded)
        &&& self.failures == count(self.seen@, AttemptOutcome::Failed)
        &&& self.panics == count(self.seen@, AttemptOutcome::Panicked)
        &&& self.seen@.len() == self.successes + self.failures + self.panics
    }

    /// Begins a run. The injector's counters are cumulative for its whole
    /// lifetime, so the run measures what it adds to them.
    pub fn new<I: FaultInjector>(injector: &I) -> (r: Self)
        ensures
            r@ == (RunModel {
                scenario: injector.scenario(),
                calls_before: injector.calls(),
                faults_before: injector.faults(),
                outcomes: Seq::empty(),
            }),
            r.counted(),
    {
        ChaosRunner {
            scenario: injector.name().to_owned(),
            calls_before: injector.calls_total(),
            faults_before: injector.faults_injected(),
            successes: 0,
            failures: 0,
            panics: 0,
            seen: Ghost(Seq::empty()),
        }
    }

    /// Takes in how an attempt ended.
    pub fn record(&mut self, outcome: AttemptOutcome)
        requires
            old(self).counted(),
            old(self)@.outcomes.len() < usize::MAX,
        ensures
            final(self).counted(),
            final(self)@ == (RunModel {
                outcomes: old(self)@.outcomes.push(outcome),
                ..old(self)@
            }),
    {
        proof {
            let more = self.seen@.push(outcome);
            assert(more.drop_last() =~= self.seen@);
        }
        match outcome {
            AttemptOutcome::Succeeded => {
                self.successes = self.successes + 1;
            },
            AttemptOutcome::Failed => {
                self.failures = self.failures + 1;
            },
            AttemptOutcome::Panicked => {
                self.panics = self.panics + 1;
            },
        }
        let ghost all = self.seen@.push(outcome);
        self.seen = Ghost(all);
    }

    /// Ends the run.
    pub fn finish<I: FaultInjector>(self, injector: &I) -> (r: ChaosTestResult)
        requires
            self.counted(),
            self@.outcomes.len() <= usize::MAX,
            injector.calls() >= self@.calls_before,
            injector.faults() >= self@.faults_before,
        ensures
            r.scenario@ == self@.scenario,
            r.attempts == self@.outcomes.len(),
            r.calls_to_dependency == injector.calls() - self@.calls_before,
            r.faults_injected == injector.faults() - self@.faults_before,
            r.operation_successes == count(self@.outcomes, AttemptOutcome::Succeeded),
            r.operation_failures == count(self@.outcomes, AttemptOutcome::Failed),
            r.unhandled_panics == count(self@.outcomes, AttemptOutcome::Panicked),
    {
        ChaosTestResult {
            scenario: self.scenario,
            attempts: self.successes + self.failures + self.panics,
            calls_to_dependency: injector.calls_total() - self.calls_before,
            faults_injected: injector.faults_injected() - self.faults_before,
            operation_successes: self.successes,
            operation_failures: self.failures,
            unhandled_panics: self.panics,
        }
    }
}

/// Every attempt counts as exactly one success, failure or panic.
pub proof fn law_every_attempt_is_counted(outcomes: Seq<AttemptOutcome>)
    ensures
        count(outcomes, AttemptOutcome::Succeeded) + count(outcomes, AttemptOutcome::Failed)
            + count(outcomes, AttemptOutcome::Panicked) == outcomes.len(),
    decreases outcomes.len(),
{
    if outcomes.len() > 0 {
        law_every_attempt_is_counted(outcomes.drop_last());
    }
}

/// A single panic makes a scenario fail, however often it succeeded.
pub proof fn law_panics_fail_the_scenario(r: ChaosTestResult)
    requires
        r.unhandled_panics > 0,
    ensures
        !r.graceful(),
{
}

/// Healing a node undoes its partitioning and touches no other node.
pub proof fn law_healing_undoes_partition(nodes: Set<Seq<char>>, node: Seq<char>, other: Seq<char>)
    ensures
        !nodes.insert(node).remove(node).contains(node),
        other != node ==> (nodes.insert(node).remove(node).contains(other) <==> nodes.contains(
            other,
        )),
{
}

/// A scenario ends well if nothing panicked and at least as many operations
/// succeeded as failed.
pub proof fn law_graceful_means_no_panic_and_enough_successes(r: ChaosTestResult)
    ensures
        r.unhandled_panics == 0 && r.operation_successes >= r.operation_failures ==> r.graceful(),
        r.operation_successes < r.operation_failures ==> !r.graceful(),
{
}

/// Attempts are counted under their own outcome.
pub proof fn law_attempts_are_counted_by_outcome(
    outcomes: Seq<AttemptOutcome>,
    o: AttemptOutcome,
    which: AttemptOutcome,
)
    ensures
        count(Seq::<AttemptOutcome>::empty(), which) == 0,
        count(outcomes.push(o), which) == count(outcomes, which) + if o == which {
            1nat
        } else {
            0nat
        },
{
    assert(outcomes.push(o).drop_last() =~= outcomes);
}

/// A delay lies between the least and the greatest, and is the least where they
/// are the wrong way round.
pub proof fn law_delay_is_within_bounds(m: LatencyModel, delay: Duration)
    requires
        m.possible(delay),
    ensures
        m.min.nanos <= delay.nanos,
        m.min.nanos <= m.max.nanos ==> delay.nanos <= m.max.nanos,
        m.max.nanos <= m.min.nanos ==> delay.nanos == m.min.nanos,
{
}

/// A call counter goes up by one.
pub proof fn law_calls_are_counted(n: usize)
    ensures
        n < usize::MAX ==> next(n) == n + 1,
        next(usize::MAX) == 0,
{
}

/// The words on injected failures.
pub proof fn law_failures_are_put_into_words(
    from: Seq<char>,
    to: Seq<char>,
    p: PoolModel,
    delay: Duration,
    timeout: Duration,
)
    ensures
        blocked(from, to) == "chaos: network partition blocks "@ + from + " -> "@ + to,
        p.kind == ResourceKind::Connections ==> exhausted(p) == "chaos: "@ + "Connections"@
            + " exhausted ("@ + text::decimal(p.in_use as nat) + "/"@ + text::decimal(
            p.capacity as nat,
        ) + ")"@,
        p.kind == ResourceKind::Memory ==> exhausted(p) == "chaos: "@ + "Memory"@ + " exhausted ("@
            + text::decimal(p.in_use as nat) + "/"@ + text::decimal(p.capacity as nat) + ")"@,
        p.kind == ResourceKind::FileDescriptors ==> exhausted(p) == "chaos: "@ + "FileDescriptors"@
            + " exhausted ("@ + text::decimal(p.in_use as nat) + "/"@ + text::decimal(
            p.capacity as nat,
        ) + ")"@,
        too_slow(delay, timeout) == "chaos: call took "@ + clock::readable(delay.nanos as nat)
            + ", exceeding timeout "@ + clock::readable(timeout.nanos as nat),
{
}

} // verus!

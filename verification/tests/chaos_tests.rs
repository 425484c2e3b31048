use heirloom_backend::chaos::{
    AttemptOutcome, ChaosReport, ChaosRunner, ChaosTestResult, FaultInjector, LatencyInjector,
    NetworkFailureInjector, NetworkPartitionInjector, NetworkPartitionSimulator,
    ResourceExhaustionInjector, ResourceExhaustionSimulator, ResourceKind, FULL_RATE,
};
use heirloom_backend::clock::Duration;

/// Runs a resilient client that retries the dependency call up to `max_tries`
/// times before giving up.
fn run<I: FaultInjector>(injector: &mut I, attempts: usize, max_tries: u32) -> ChaosTestResult {
    let mut runner = ChaosRunner::new(&*injector);
    for _ in 0..attempts {
        let mut outcome = AttemptOutcome::Failed;
        for _ in 0..max_tries {
            if injector.inject().is_ok() {
                outcome = AttemptOutcome::Succeeded;
                break;
            }
        }
        runner.record(outcome);
    }
    runner.finish(&*injector)
}

#[test]
fn network_failure_scenario_is_survived_with_retries() {
    let mut injector = NetworkFailureInjector::new(FULL_RATE / 2);
        let result = run(&mut injector, 200, 5);

    assert!(
        result.faults_injected > 0,
        "expected some injected failures"
    );
    assert!(
        result.passed(),
        "resilient client should mostly succeed: {result:?}"
    );
}

#[test]
fn network_failure_scenario_fails_without_retries() {
    let mut injector = NetworkFailureInjector::new(FULL_RATE);
        let result = run(&mut injector, 20, 1);

    assert_eq!(result.operation_successes, 0);
    assert_eq!(result.operation_failures, 20);
    assert!(!result.passed());
}

#[test]
fn latency_injection_reports_timeouts_as_faults() {
    let mut injector = LatencyInjector::new(
        Duration::from_millis(0),
        Duration::from_millis(5),
        Duration::from_millis(1),
    );
        let result = run(&mut injector, 10, 1);

    assert_eq!(result.calls_to_dependency, 10);
    assert!(result.attempts == 10);
}

#[test]
fn network_partition_blocks_calls_between_partitioned_nodes() {
    let mut sim = NetworkPartitionSimulator::new();
    sim.partition("node-b");
    let mut injector = NetworkPartitionInjector::new(sim, "node-a", "node-b");
    
    let result = run(&mut injector, 5, 1);
    assert_eq!(result.operation_failures, 5);
    assert_eq!(result.faults_injected, 5);

    injector.simulator.heal("node-b");
    let result_after_heal = run(&mut injector, 5, 1);
    assert_eq!(result_after_heal.operation_successes, 5);
}

#[test]
fn resource_exhaustion_rejects_calls_once_capacity_hit() {
    let mut sim = ResourceExhaustionSimulator::new(ResourceKind::Connections, 2);
    let mut injector = ResourceExhaustionInjector::new(sim);
    injector.simulator.exhaust();

        let result = run(&mut injector, 3, 1);

    assert_eq!(result.operation_failures, 3);
    assert_eq!(injector.simulator.available(), 0);
}

#[test]
fn resource_guard_releases_capacity_on_drop() {
    let mut sim = ResourceExhaustionSimulator::new(ResourceKind::Connections, 1);
    let guard = sim.acquire().expect("should acquire");
    assert_eq!(sim.available(), 0);
    sim.release(guard);
    assert_eq!(sim.available(), 1);
}

#[test]
fn chaos_runner_catches_panics_as_findings() {
    let mut injector = NetworkFailureInjector::new(0);
    
    injector.inject().unwrap();
    let mut runner = ChaosRunner::new(&injector);
    for _ in 0..3 {
        runner.record(AttemptOutcome::Panicked);
    }
    let result = runner.finish(&injector);

    assert_eq!(result.unhandled_panics, 3);
    assert!(!result.passed());
}

#[test]
fn chaos_report_aggregates_multiple_scenarios() {
    let mut report = ChaosReport::new();

    let mut net_injector = NetworkFailureInjector::new(FULL_RATE / 5);
    report.add(run(&mut net_injector, 50, 5));

    let mut sim = NetworkPartitionSimulator::new();
    let mut partition_injector = NetworkPartitionInjector::new(sim, "a", "b");
    report.add(run(&mut partition_injector, 10, 1));

    assert_eq!(report.results.len(), 2);
    assert!(report.all_passed(), "{report:?}");
}

#[test]
fn the_draw_decides_a_network_failure() {
    let mut injector = NetworkFailureInjector::new(FULL_RATE / 2);
    assert!(injector.inject_drawn(0).is_err());
    assert!(injector.inject_drawn(FULL_RATE / 2 - 1).is_err());
    assert!(injector.inject_drawn(FULL_RATE / 2).is_ok());
}

#[test]
fn delays_stay_within_their_bounds() {
    let mut injector = LatencyInjector::new(
        Duration::from_millis(2),
        Duration::from_millis(5),
        Duration::from_millis(3),
    );
    let mut least = u128::MAX;
    let mut most = 0u128;
    for _ in 0..300 {
        let d = injector.sample_delay().as_nanos();
        assert!(d >= 2_000_000 && d <= 5_000_000);
        least = least.min(d);
        most = most.max(d);
    }
    assert!(least < most);
    assert!(injector.inject_delayed(Duration::from_millis(2)).is_ok());
    assert!(injector.inject_delayed(Duration::from_millis(4)).is_err());
}

#[test]
fn a_full_pool_says_what_it_lacks() {
    let mut sim = ResourceExhaustionSimulator::new(ResourceKind::Memory, 0);
    assert!(sim.acquire().is_err());
    assert_eq!(ResourceKind::Memory.name(), "Memory");
}

#[test]
fn healing_everything_lifts_every_partition() {
    let mut sim = NetworkPartitionSimulator::new();
    sim.partition("a");
    sim.partition("b");
    assert!(sim.is_partitioned("a"));
    assert_eq!(
        sim.call("a", "c").unwrap_err(),
        "chaos: network partition blocks a -> c"
    );
    sim.heal_all();
    assert!(!sim.is_partitioned("a"));
    assert!(sim.call("a", "b").is_ok());
}

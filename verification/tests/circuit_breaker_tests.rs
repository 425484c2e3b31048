use heirloom_backend::circuit_breaker::{
    AlertSeverity, CircuitBreaker, CircuitBreakerConfig, CircuitBreakerError,
    CircuitBreakerRegistry, CircuitState,
};
use heirloom_backend::clock::{Duration, Instant, Timestamp};

fn ok_call() -> Result<(), &'static str> {
    Ok(())
}

fn err_call() -> Result<(), &'static str> {
    Err("boom")
}

#[test]
fn starts_closed_and_allows_calls() {
    let mut cb = CircuitBreaker::new("test", CircuitBreakerConfig::default());
    assert_eq!(cb.state(), CircuitState::Closed);
    assert!(cb.call(ok_call).is_ok());
    assert_eq!(cb.state(), CircuitState::Closed);
}

#[test]
fn trips_open_after_failure_threshold() {
    let cfg = CircuitBreakerConfig {
        failure_threshold: 3,
        ..CircuitBreakerConfig::default()
    };
    let mut cb = CircuitBreaker::new("test", cfg);
    for _ in 0..3 {
        let _ = cb.call(err_call);
    }
    assert_eq!(cb.state(), CircuitState::Open);

    match cb.call(ok_call) {
        Err(CircuitBreakerError::Rejected) => {}
        other => panic!("expected rejection, got {other:?}"),
    }
}

#[test]
fn half_open_recovers_to_closed_after_success_threshold() {
    let cfg = CircuitBreakerConfig {
        failure_threshold: 1,
        success_threshold: 2,
        open_duration: Duration::from_millis(0),
    };
    let mut cb = CircuitBreaker::new("test", cfg);
    let _ = cb.call(err_call);
    assert_eq!(cb.state(), CircuitState::Open);

    // open_duration is 0, so the very next call attempt probes half-open.
    assert!(cb.call(ok_call).is_ok());
    assert_eq!(cb.state(), CircuitState::HalfOpen);
    assert!(cb.call(ok_call).is_ok());
    assert_eq!(cb.state(), CircuitState::Closed);
}

#[test]
fn half_open_reopens_on_probe_failure() {
    let cfg = CircuitBreakerConfig {
        failure_threshold: 1,
        success_threshold: 2,
        open_duration: Duration::from_millis(0),
    };
    let mut cb = CircuitBreaker::new("test", cfg);
    let _ = cb.call(err_call);
    assert_eq!(cb.state(), CircuitState::Open);

    let _ = cb.call(err_call);
    assert_eq!(cb.state(), CircuitState::Open);
}

#[test]
fn records_state_change_events() {
    let cfg = CircuitBreakerConfig {
        failure_threshold: 1,
        ..CircuitBreakerConfig::default()
    };
    let mut cb = CircuitBreaker::new("test", cfg);
    let _ = cb.call(err_call);
    let events = cb.events();
    assert_eq!(events.len(), 1);
    assert_eq!(events[0].from, CircuitState::Closed);
    assert_eq!(events[0].to, CircuitState::Open);
}

#[test]
fn renders_prometheus_metrics() {
    let mut cb = CircuitBreaker::new("payments", CircuitBreakerConfig::default());
    let _ = cb.call(ok_call);
    let out = cb.render_metrics();
    assert!(out.contains("circuit_breaker_state{breaker=\"payments\"}"));
    assert!(out.contains("circuit_breaker_calls_allowed_total{breaker=\"payments\"} 1"));
}

#[test]
fn raises_alert_when_open() {
    let cfg = CircuitBreakerConfig {
        failure_threshold: 1,
        ..CircuitBreakerConfig::default()
    };
    let mut cb = CircuitBreaker::new("payments", cfg);
    let _ = cb.call(err_call);
    let alerts = cb.check_alerts();
    assert!(alerts.iter().any(|a| a.message.contains("has been open")));
}

#[test]
fn registry_reuses_breaker_by_name() {
    let mut registry = CircuitBreakerRegistry::new();
    let a = registry.get_or_create("svc", CircuitBreakerConfig::default());
    let _ = a.call(err_call);
    let b = registry.get_or_create("svc", CircuitBreakerConfig::default());
    assert_eq!(b.snapshot().failures_total, 1);
    assert_eq!(registry.snapshots().len(), 1);
}

#[test]
fn mermaid_diagram_contains_all_states() {
    let mut cb = CircuitBreaker::new("test", CircuitBreakerConfig::default());
    let diagram = cb.to_mermaid_diagram();
    assert!(diagram.contains("Closed --> Open"));
    assert!(diagram.contains("Open --> HalfOpen"));
    assert!(diagram.contains("HalfOpen --> Closed"));
}

#[test]
fn a_breaker_stays_open_for_its_time() {
    let cfg = CircuitBreakerConfig {
        failure_threshold: 1,
        success_threshold: 1,
        open_duration: Duration::from_nanos(100),
    };
    let wall = Timestamp { secs: 7, nanos: 0 };
    let mut cb = CircuitBreaker::new("svc", cfg);
    assert!(cb.begin_at(Instant { nanos: 0 }, wall));
    cb.finish_at(false, Instant { nanos: 1 }, wall);
    assert_eq!(cb.state(), CircuitState::Open);
    assert!(!cb.allow_call_at(Instant { nanos: 50 }, wall));
    assert!(cb.allow_call_at(Instant { nanos: 101 }, wall));
    assert_eq!(cb.state(), CircuitState::HalfOpen);
    cb.on_success_at(Instant { nanos: 102 }, wall);
    assert_eq!(cb.state(), CircuitState::Closed);
    assert_eq!(cb.events().len(), 3);
}

#[test]
fn circuit_states_have_codes() {
    for s in [CircuitState::Closed, CircuitState::Open, CircuitState::HalfOpen] {
        assert_eq!(CircuitState::from_code(s.as_code()), s);
    }
    assert_eq!(CircuitState::Open.as_str(), "open");
}

#[test]
fn an_operation_error_is_passed_on() {
    let mut cb = CircuitBreaker::new("svc", CircuitBreakerConfig::default());
    match cb.call(err_call) {
        Err(CircuitBreakerError::Operation(e)) => assert_eq!(e, "boom"),
        other => panic!("unexpected {other:?}"),
    }
    assert!(cb.check_alerts().iter().all(|a| a.severity != AlertSeverity::Critical));
    assert!(cb.render_dashboard().contains("svc"));
}

#[test]
fn errors_are_described_in_words() {
    let rejected: CircuitBreakerError<&str> = CircuitBreakerError::Rejected;
    assert_eq!(rejected.describe(""), "circuit breaker open: call rejected");
    let failed = CircuitBreakerError::Operation("boom");
    assert_eq!(failed.describe("boom"), "operation failed: boom");
}

use heirloom_backend::canary::{
    default_stages, elapsed_minutes, CanaryError, CanaryMetrics, CanaryStage, CanaryState,
    CanaryStatus, EvaluateCanaryRequest, Measure, RollbackCanaryRequest, StartCanaryRequest,
};
use heirloom_backend::clock::Timestamp;

fn at(minutes: i64) -> Timestamp {
    Timestamp { secs: minutes * 60, nanos: 0 }
}

fn measure(x: f64) -> Measure {
    Measure { order: x.to_bits() as i64, text: format!("{x}") }
}

fn metrics(error_rate: f64, latency: f64) -> EvaluateCanaryRequest {
    EvaluateCanaryRequest {
        metrics: CanaryMetrics { error_rate: measure(error_rate), latency_p99_ms: measure(latency) },
    }
}

fn start(stages: Option<Vec<CanaryStage>>) -> StartCanaryRequest {
    StartCanaryRequest {
        service: "api".to_string(),
        version: "2".to_string(),
        stages,
        thresholds: None,
    }
}

#[test]
fn a_deployment_moves_through_its_stages() {
    let mut state = CanaryState::new();
    let stages = vec![
        CanaryStage { traffic_percent: 10, min_duration_minutes: 5 },
        CanaryStage { traffic_percent: 100, min_duration_minutes: 0 },
    ];
    let d = state.start_at("d".to_string(), start(Some(stages)), at(0)).unwrap();
    assert_eq!(d.current_traffic_percent(), 10);
    let early = state.evaluate_at("d", &metrics(0.0, 1.0), at(1)).unwrap();
    assert_eq!(early.current_stage, 0);
    let next = state.evaluate_at("d", &metrics(0.0, 1.0), at(6)).unwrap();
    assert_eq!(next.current_stage, 1);
    assert_eq!(next.status, CanaryStatus::InProgress);
    let done = state.evaluate_at("d", &metrics(0.0, 1.0), at(7)).unwrap();
    assert_eq!(done.status, CanaryStatus::Completed);
}

#[test]
fn bad_metrics_roll_a_deployment_back() {
    let mut state = CanaryState::default();
    state.start_at("d".to_string(), start(None), at(0)).unwrap();
    let d = state.evaluate_at("d", &metrics(0.5, 1.0), at(1)).unwrap();
    assert_eq!(d.status, CanaryStatus::RolledBack);
    assert_eq!(d.current_stage, 0);
    let still = state.evaluate_at("d", &metrics(0.0, 1.0), at(600)).unwrap();
    assert_eq!(still.status, CanaryStatus::RolledBack);
}

#[test]
fn a_deployment_is_rolled_back_on_request() {
    let mut state = CanaryState::new();
    let d = state.start_canary_deployment(start(None)).unwrap();
    let body = RollbackCanaryRequest { reason: "by hand".to_string() };
    let r = state.rollback_canary(&d.id, &body).unwrap();
    assert_eq!(r.status, CanaryStatus::RolledBack);
    assert!(r.history.last().unwrap().description.contains("by hand"));
    assert_eq!(state.get_canary_deployment(&d.id).unwrap().status, CanaryStatus::RolledBack);
}

#[test]
fn canary_requests_are_refused_in_words() {
    let mut state = CanaryState::new();
    let err = state.start_at("d".to_string(), start(Some(vec![])), at(0)).err().unwrap();
    assert_eq!(err.status(), 422);
    assert!(err.message().is_some());
    let missing = state.get_canary_deployment("none").err().unwrap();
    assert_eq!(missing, CanaryError::NotFound);
    assert_eq!(missing.status(), 404);
    assert!(!default_stages().is_empty());
    assert_eq!(elapsed_minutes(&at(3), &at(10)), 7);
}

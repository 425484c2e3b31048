use heirloom_backend::clock::Timestamp;
use heirloom_backend::fallback::{
    cascade, find_chain_for_resource, get_fallback_chain, list_fallback_chains,
    register_fallback_chain, sort_by_priority, test_fallback_chain, FallbackChain, FallbackError,
    FallbackState, FallbackTarget, RegisterFallbackChainRequest, TestFallbackChainRequest,
};

fn target(name: &str, priority: u32) -> FallbackTarget {
    FallbackTarget { name: name.to_string(), endpoint: format!("http://{name}"), priority }
}

fn request(targets: Vec<FallbackTarget>) -> RegisterFallbackChainRequest {
    RegisterFallbackChainRequest {
        name: "chain".to_string(),
        resource: "webhook:x".to_string(),
        targets,
    }
}

fn failing(names: &[&str]) -> TestFallbackChainRequest {
    TestFallbackChainRequest { simulate_failures: names.iter().map(|n| n.to_string()).collect() }
}

#[test]
fn a_chain_needs_a_target() {
    let mut state = FallbackState::new();
    let err = register_fallback_chain(&mut state, request(vec![])).unwrap_err();
    assert_eq!(err, FallbackError::NoTargets);
    assert_eq!(err.status(), 422);
    assert_eq!(err.message(), Some("at least one fallback target is required"));
    assert!(list_fallback_chains(&state).is_empty());
}

#[test]
fn targets_are_kept_by_priority() {
    let mut state = FallbackState::default();
    let chain = register_fallback_chain(
        &mut state,
        request(vec![target("c", 2), target("a", 1), target("d", 2), target("b", 0)]),
    )
    .unwrap();
    let names: Vec<&str> = chain.targets.iter().map(|t| t.name.as_str()).collect();
    assert_eq!(names, vec!["b", "a", "c", "d"]);
    assert!(chain.active);
    let found = get_fallback_chain(&state, &chain.id).unwrap();
    assert_eq!(found.name, "chain");
    assert_eq!(get_fallback_chain(&state, "none").unwrap_err().status(), 404);
    assert_eq!(find_chain_for_resource(&state, "webhook:x").unwrap().id, chain.id);
    assert!(find_chain_for_resource(&state, "webhook:y").is_none());
}

#[test]
fn a_dry_run_stops_at_the_first_working_target() {
    let mut state = FallbackState::new();
    let chain = register_fallback_chain(
        &mut state,
        request(vec![target("a", 1), target("b", 2), target("c", 3)]),
    )
    .unwrap();
    let first = test_fallback_chain(&state, &chain.id, &TestFallbackChainRequest::default()).unwrap();
    assert_eq!(first.resolved_target, Some("http://a".to_string()));
    assert!(!first.degraded);
    assert_eq!(first.attempts.len(), 1);
    let second = test_fallback_chain(&state, &chain.id, &failing(&["a"])).unwrap();
    assert_eq!(second.resolved_target, Some("http://b".to_string()));
    assert!(second.degraded);
    assert_eq!(second.attempts[0].error, Some("simulated failure".to_string()));
    let none = test_fallback_chain(&state, &chain.id, &failing(&["a", "b", "c"])).unwrap();
    assert_eq!(none.resolved_target, None);
    assert!(!none.degraded);
    assert_eq!(none.attempts.len(), 3);
    assert!(test_fallback_chain(&state, "none", &failing(&[])).is_err());
}

#[test]
fn a_cascade_hands_on_the_reason() {
    let chain = FallbackChain {
        id: "id".to_string(),
        name: "n".to_string(),
        resource: "r".to_string(),
        targets: vec![target("z", 9), target("y", 1)],
        created_at: Timestamp { secs: 0, nanos: 0 },
        active: true,
    };
    let result = cascade(&chain, |t: &FallbackTarget| Err(format!("no {}", t.name)));
    assert_eq!(result.chain_id, "id");
    assert_eq!(result.attempts[0].error, Some("no y".to_string()));
    assert_eq!(result.attempts[1].target, "z");
    assert_eq!(sort_by_priority(&chain.targets)[0].name, "y");
}

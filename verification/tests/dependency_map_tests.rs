use heirloom_backend::clock::Timestamp;
use heirloom_backend::dependency_map::{
    DependencyEdge, DependencyGraph, DependencyKind, DependencyMapState, DiscoverDependencyRequest,
    ImpactAnalysisRequest,
};

fn edge(from: &str, to: &str) -> DependencyEdge {
    DependencyEdge { from: from.to_string(), to: to.to_string(), kind: DependencyKind::SynchronousRpc }
}

fn sorted(mut v: Vec<String>) -> Vec<String> {
    v.sort();
    v
}

#[test]
fn impact_is_transitive() {
    let mut g = DependencyGraph::default();
    assert!(g.insert(edge("web", "api")));
    assert!(g.insert(edge("api", "db")));
    assert!(g.insert(edge("jobs", "db")));
    assert!(!g.insert(edge("web", "api")));
    assert_eq!(g.edges().len(), 3);
    assert_eq!(g.downstream_of("api"), vec!["db"]);
    assert_eq!(sorted(g.upstream_of("db")), vec!["api", "jobs"]);
    assert_eq!(sorted(g.impacted_by("db")), vec!["api", "jobs", "web"]);
    assert!(g.impacted_by("web").is_empty());
    assert!(g.to_dot().contains("\"web\" -> \"api\""));
}

#[test]
fn changes_are_the_difference_of_graphs() {
    let mut old = DependencyGraph::default();
    old.insert(edge("a", "b"));
    let mut new = DependencyGraph::default();
    new.insert(edge("b", "c"));
    let d = new.diff_at(&old, Timestamp { secs: 4, nanos: 0 });
    assert_eq!(d.added.len(), 1);
    assert_eq!(d.added[0].to, "c");
    assert_eq!(d.removed[0].from, "a");
    assert_eq!(d.detected_at.secs, 4);
}

#[test]
fn discovery_is_remembered() {
    let mut state = DependencyMapState::new();
    let request = || DiscoverDependencyRequest {
        from: "a".to_string(),
        to: "b".to_string(),
        kind: DependencyKind::DataStore,
    };
    let event = state.discover_dependencies(request());
    assert_eq!(event.edge.from, "a");
    state.discover_dependencies(request());
    assert_eq!(state.graph().edges().len(), 1);
    assert_eq!(state.get_recent_changes().len(), 1);
    let impact = state.analyze_impact(ImpactAnalysisRequest { service: "b".to_string() });
    assert_eq!(impact.transitive_impact, vec!["a"]);
    assert_eq!(impact.direct_upstream, vec!["a"]);
    assert!(impact.direct_downstream.is_empty());
}

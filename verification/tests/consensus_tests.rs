use heirloom_backend::clock::Timestamp;
use heirloom_backend::consensus::{
    resolve_conflict, CacheBackend, CacheEntry, ConflictStrategy, InMemoryBackend, NodeCache,
};
use heirloom_backend::strmap::StrMap;

fn sample_entry(key: &str, value: &str, node: &str, millis: i64) -> CacheEntry {
    CacheEntry {
        key: key.to_string(),
        value: value.to_string(),
        node_id: node.to_string(),
        updated_at: Timestamp { secs: millis / 1000, nanos: (millis % 1000) as u32 * 1_000_000 },
        version: millis as u64,
    }
}

fn shared_backend() -> InMemoryBackend {
    InMemoryBackend::new()
}

#[test]
fn lww_prefers_latest_timestamp() {
    let older = sample_entry("k", "old", "node-a", 1_000);
    let newer = sample_entry("k", "new", "node-b", 2_000);
    let winner =
        resolve_conflict(Some(&older), Some(&newer), ConflictStrategy::LastWriteWins).unwrap();
    assert_eq!(winner.value, "new");
}

#[test]
fn voting_prefers_higher_version() {
    let low = sample_entry("k", "low", "node-a", 1_000);
    let high = sample_entry("k", "high", "node-b", 2_000);
    let winner = resolve_conflict(Some(&low), Some(&high), ConflictStrategy::Voting).unwrap();
    assert_eq!(winner.value, "high");
}

#[test]
fn multi_node_converges_after_consensus_check() {
    let mut backend = shared_backend();
    let mut node_a = NodeCache::new(
        "node-a",
        ConflictStrategy::LastWriteWins,
    );
    let mut node_b = NodeCache::new(
        "node-b",
        ConflictStrategy::LastWriteWins,
    );

    node_a.put(&mut backend, "vault:1", "prefs-a").unwrap();
    let remote = node_b.get(&backend, "vault:1").unwrap().expect("remote entry");
    let stale = sample_entry("vault:1", "stale-local", "node-b", 1);
    node_b.set_local_entry(stale);

    let report = node_b.check_and_resolve(&mut backend).unwrap();
    assert!(!report.consistent);
    assert_eq!(report.conflicts_resolved, 1);

    let resolved = node_b.get(&backend, "vault:1").unwrap().expect("resolved entry");
    assert_eq!(resolved.value, remote.value);
}

#[test]
fn two_nodes_share_backend_state() {
    let mut backend = shared_backend();
    let mut node_a = NodeCache::new(
        "node-a",
        ConflictStrategy::LastWriteWins,
    );
    let mut node_b = NodeCache::new(
        "node-b",
        ConflictStrategy::LastWriteWins,
    );

    node_a.put(&mut backend, "vault:2", "shared").unwrap();
    node_b.sync_local_from_remote(&backend).unwrap();

    let report = node_b.check_and_resolve(&mut backend).unwrap();
    assert!(report.consistent);
    assert_eq!(node_b.get(&backend, "vault:2").unwrap().unwrap().value, "shared");
}

#[test]
fn voting_strategy_resolves_competing_writes() {
    let mut backend = shared_backend();
    let mut node_a = NodeCache::new("node-a", ConflictStrategy::Voting);
    let mut node_b = NodeCache::new("node-b", ConflictStrategy::Voting);

    let newer = sample_entry("vault:3", "winner", "node-a", 5_000);
    backend.set_entry(&newer).unwrap();
    node_a.set_local_entry(newer.clone());
    node_b.set_local_entry(sample_entry("vault:3", "loser", "node-b", 2_000));

    let report = node_b.check_and_resolve(&mut backend).unwrap();
    assert_eq!(report.conflicts_resolved, 1);
    assert_eq!(node_b.get(&backend, "vault:3").unwrap().unwrap().value, "winner");
}

#[test]
fn a_missing_side_loses() {
    let e = sample_entry("k", "v", "node-a", 1);
    let strategy = ConflictStrategy::LastWriteWins;
    assert_eq!(resolve_conflict(Some(&e), None, strategy).unwrap().value, "v");
    assert_eq!(resolve_conflict(None, Some(&e), strategy).unwrap().value, "v");
    assert!(resolve_conflict(None, None, strategy).is_none());
}

#[test]
fn a_vote_is_settled_the_same_way_from_both_sides() {
    let a = sample_entry("k", "a", "node-a", 5);
    let b = sample_entry("k", "b", "node-b", 5);
    let x = resolve_conflict(Some(&a), Some(&b), ConflictStrategy::Voting).unwrap();
    let y = resolve_conflict(Some(&b), Some(&a), ConflictStrategy::Voting).unwrap();
    assert_eq!(x.value, "a");
    assert_eq!(y.value, "a");
    let local = resolve_conflict(Some(&b), Some(&a), ConflictStrategy::LastWriteWins).unwrap();
    assert_eq!(local.value, "b");
}

#[test]
fn a_node_is_set_up_from_its_settings() {
    let mut vars: StrMap<String> = StrMap::new();
    vars.insert("CACHE_NODE_ID".to_string(), "n7".to_string());
    let node = NodeCache::from_env(&vars);
    assert!(!node.node_id().is_empty());
    assert_eq!(node.strategy(), ConflictStrategy::LastWriteWins);
}

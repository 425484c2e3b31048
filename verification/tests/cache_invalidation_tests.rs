use heirloom_backend::cache::VaultCache;
use heirloom_backend::cache_invalidation::{
    CacheEvent, CacheEventEmitter, CacheInvalidator, CacheKey, DependencyGraph,
    InvalidationStrategy,
};
use heirloom_backend::clock::Timestamp;
use heirloom_backend::models::{Vault, VaultStatus};

fn encode(v: Vault) -> Vec<u8> {
    format!("{}|{}", v.id, v.balance).into_bytes()
}

fn make_test_vault(id: &str) -> Vault {
    Vault {
        id: id.to_string(),
        owner: "owner1".to_string(),
        beneficiary: "ben1".to_string(),
        balance: 1000,
        check_in_interval: 86400,
        last_check_in: Timestamp::now(),
        created_at: Timestamp::now(),
        status: VaultStatus::Active,
        ttl_remaining: Some(86400),
    }
}

#[test]
fn test_cache_event_vault_id_extraction() {
    let event = CacheEvent::VaultStateChanged {
        vault_id: "v1".to_string(),
    };
    assert_eq!(event.vault_id(), Some("v1"));

    let event = CacheEvent::GlobalFlush;
    assert_eq!(event.vault_id(), None);
}

#[test]
fn test_dependency_graph_add_and_get() {
    let mut graph = DependencyGraph::new();
    graph.add_dependency("v1", CacheKey::Vault);
    graph.add_dependency("v1", CacheKey::Summary);

    let deps = graph.get_dependents("v1");
    assert_eq!(deps.len(), 2);
    assert!(deps.contains(&CacheKey::Vault));
    assert!(deps.contains(&CacheKey::Summary));
}

#[test]
fn test_dependency_graph_clear_vault() {
    let mut graph = DependencyGraph::new();
    graph.add_dependency("v1", CacheKey::Vault);
    graph.clear_vault("v1");

    let deps = graph.get_dependents("v1");
    assert!(deps.is_empty());
}

#[test]
fn test_invalidation_strategy_vault_state_changed() {
    let event = CacheEvent::VaultStateChanged {
        vault_id: "v1".to_string(),
    };
    let keys = InvalidationStrategy::keys_to_invalidate(&event);

    assert_eq!(keys.len(), 3);
    assert!(keys.contains(&CacheKey::Vault));
    assert!(keys.contains(&CacheKey::TtlRemaining));
    assert!(keys.contains(&CacheKey::Summary));
}

#[test]
fn test_invalidation_strategy_beneficiary_updated() {
    let event = CacheEvent::BeneficiaryUpdated {
        vault_id: "v1".to_string(),
    };
    let keys = InvalidationStrategy::keys_to_invalidate(&event);

    assert_eq!(keys.len(), 2);
    assert!(keys.contains(&CacheKey::Vault));
    assert!(keys.contains(&CacheKey::Summary));
}

#[test]
fn test_invalidation_strategy_global_flush() {
    let event = CacheEvent::GlobalFlush;
    let keys = InvalidationStrategy::keys_to_invalidate(&event);

    assert_eq!(keys.len(), 5);
}

#[test]
fn test_cache_invalidator_handles_vault_state_change() {
    let mut cache = VaultCache::new();
    let mut invalidator = CacheInvalidator::new();

    // Populate cache.
    cache.set_vault("v1", encode(make_test_vault("v1")));
    assert!(cache.get_vault("v1").is_some());

    // Trigger invalidation.
    invalidator.handle_event(&mut cache, CacheEvent::VaultStateChanged {
        vault_id: "v1".to_string(),
    });

    // Cache should be cleared.
    assert!(cache.get_vault("v1").is_none());

    let stats = invalidator.get_stats();
    assert_eq!(stats.total_events, 1);
    assert_eq!(stats.total_invalidations, 1);
}

#[test]
fn test_cache_invalidator_handles_global_flush() {
    let mut cache = VaultCache::new();
    let mut invalidator = CacheInvalidator::new();

    cache.set_vault("v1", encode(make_test_vault("v1")));
    cache.set_vault("v2", encode(make_test_vault("v2")));

    invalidator.handle_event(&mut cache, CacheEvent::GlobalFlush);

    assert!(cache.get_vault("v1").is_none());
    assert!(cache.get_vault("v2").is_none());

    let stats = invalidator.get_stats();
    assert_eq!(stats.global_flushes, 1);
}

#[test]
fn test_cache_event_emitter() {
    let mut cache = VaultCache::new();
    let mut invalidator = CacheInvalidator::new();
    let mut emitter = CacheEventEmitter::new(invalidator);

    cache.set_vault("v1", encode(make_test_vault("v1")));

    emitter.vault_state_changed(&mut cache, "v1");

    assert!(cache.get_vault("v1").is_none());
}

#[test]
fn test_register_dependency_tracks_cascade() {
    let mut cache = VaultCache::new();
    let mut invalidator = CacheInvalidator::new();

    invalidator.register_dependency("v1", CacheKey::Summary);
    invalidator.register_dependency("v1", CacheKey::ReminderPreferences);

    cache.set_vault("v1", encode(make_test_vault("v1")));

    invalidator.handle_event(&mut cache, CacheEvent::VaultStateChanged {
        vault_id: "v1".to_string(),
    });

    let stats = invalidator.get_stats();
    assert_eq!(stats.cascade_invalidations, 2);
}

#[test]
fn every_emitted_event_is_counted() {
    let mut cache = VaultCache::new();
    let mut emitter = CacheEventEmitter::new(CacheInvalidator::new());
    emitter.vault_state_changed(&mut cache, "v1");
    emitter.beneficiary_updated(&mut cache, "v1");
    emitter.vault_released(&mut cache, "v1");
    emitter.owner_changed(&mut cache, "v1", "bob");
    emitter.reminder_preferences_updated(&mut cache, "v1");
    emitter.subscription_changed(&mut cache, "v1");
    emitter.global_flush(&mut cache);
    let stats = emitter.invalidator.get_stats();
    assert_eq!(stats.total_events, 7);
    assert_eq!(stats.global_flushes, 1);
}

#[test]
fn an_event_leaves_other_vaults_alone() {
    let mut cache = VaultCache::new();
    let mut invalidator = CacheInvalidator::new();
    cache.set_vault("v1", encode(make_test_vault("v1")));
    cache.set_vault("v2", encode(make_test_vault("v2")));
    invalidator.handle_event(&mut cache, CacheEvent::VaultReleased { vault_id: "v1".to_string() });
    assert!(cache.get_vault("v1").is_none());
    assert!(cache.get_vault("v2").is_some());
    invalidator.reset_stats();
    assert_eq!(invalidator.get_stats().total_events, 0);
}

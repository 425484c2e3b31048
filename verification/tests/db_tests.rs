use heirloom_backend::cache::VaultCache;
use heirloom_backend::clock::Timestamp;
use heirloom_backend::db::{
    add_share_token, add_vault_share, append_audit_entry, compute_vault_analytics,
    create_audit_store, create_backup_store, create_event_store, create_notification_store,
    create_share_store, create_share_token_store, create_vault_store, get_backup,
    get_notification_preferences, get_share_token, get_ttl_remaining_cached, get_vault_audit_log,
    get_vault_cached, get_vault_history, get_vault_share_tokens, get_vault_shares,
    get_vault_summary_cached, invalidate_vault_cache, revoke_share_token, search_vaults,
    set_notification_preferences, store_backup, vault_status_from_str, vault_status_to_str,
    PoolConfig,
};
use heirloom_backend::json::Json;
use heirloom_backend::models::{
    SearchQuery, ShareToken, Vault, VaultBackup, VaultEvent, VaultNotificationPreferences,
    VaultShare, VaultStatus, VaultSummary,
};
use heirloom_backend::strmap::StrMap;

#[test]
fn test_search_vaults_by_owner() {
    let mut store = create_vault_store();
    let vault = Vault {
        id: "v1".to_string(),
        owner: "owner1".to_string(),
        beneficiary: "ben1".to_string(),
        balance: 1000,
        check_in_interval: 86400,
        last_check_in: Timestamp::now(),
        created_at: Timestamp::now(),
        status: VaultStatus::Active,
        ttl_remaining: Some(100_000),
    };
    store.insert("v1".to_string(), vault);

    let query = SearchQuery {
        owner: Some("owner1".to_string()),
        beneficiary: None,
        status: None,
        created_after: None,
        created_before: None,
        page: None,
        limit: None,
    };

    let result = search_vaults(&store, &query);
    assert_eq!(result.vaults.len(), 1);
    assert_eq!(result.total, 1);
}

#[test]
fn test_search_vaults_pagination() {
    let mut store = create_vault_store();
    for i in 0..25 {
        let vault = Vault {
            id: format!("v{i}"),
            owner: "owner1".to_string(),
            beneficiary: "ben1".to_string(),
            balance: 1000,
            check_in_interval: 86400,
            last_check_in: Timestamp::now(),
            created_at: Timestamp::now(),
            status: VaultStatus::Active,
            ttl_remaining: Some(100_000),
        };
        store.insert(format!("v{i}"), vault);
    }

    let query = SearchQuery {
        owner: Some("owner1".to_string()),
        beneficiary: None,
        status: None,
        created_after: None,
        created_before: None,
        page: Some(2),
        limit: Some(10),
    };

    let result = search_vaults(&store, &query);
    assert_eq!(result.vaults.len(), 10);
    assert_eq!(result.total, 25);
    assert_eq!(result.page, 2);
}

fn make_test_vault(id: &str) -> Vault {
    Vault {
        id: id.to_string(),
        owner: "owner1".to_string(),
        beneficiary: "ben1".to_string(),
        balance: 1_000_000,
        check_in_interval: 86_400,
        last_check_in: Timestamp::now(),
        created_at: Timestamp::now(),
        status: VaultStatus::Active,
        ttl_remaining: Some(100_000),
    }
}

#[test]
fn statuses_are_stored_by_name() {
    for s in [VaultStatus::Active, VaultStatus::Expired, VaultStatus::Released, VaultStatus::Paused] {
        assert_eq!(vault_status_from_str(vault_status_to_str(&s)), s);
    }
}

#[test]
fn reads_go_through_the_cache() {
    let mut store = create_vault_store();
    let mut cache = VaultCache::new();
    store.insert("v1".to_string(), make_test_vault("v1"));
    let encode = |v: &Vault| v.id.clone().into_bytes();
    let decode = |b: &Vec<u8>| String::from_utf8(b.clone()).ok().map(|id| make_test_vault(&id));
    let first = get_vault_cached(&store, &mut cache, "v1", encode, decode).unwrap();
    assert_eq!(first.id, "v1");
    assert_eq!(cache.metrics().misses, 1);
    let second = get_vault_cached(&store, &mut cache, "v1", encode, decode).unwrap();
    assert_eq!(second.id, "v1");
    assert_eq!(cache.metrics().hits, 1);
    assert!(get_vault_cached(&store, &mut cache, "gone", encode, decode).is_none());
}

#[test]
fn analytics_count_the_vaults() {
    let mut store = create_vault_store();
    store.insert("v1".to_string(), make_test_vault("v1"));
    store.insert("v2".to_string(), make_test_vault("v2"));
    let analytics = compute_vault_analytics(&store);
    assert_eq!(analytics.total_vaults, 2);
}

#[test]
fn audit_entries_are_found_by_vault() {
    let mut audit = create_audit_store();
    append_audit_entry(&mut audit, "create", "alice", Json::object().with("vault_id", Json::text("v1")));
    append_audit_entry(&mut audit, "create", "alice", Json::object().with("vault_id", Json::text("v2")));
    assert_eq!(get_vault_audit_log(&audit, "v1").len(), 1);
}

#[test]
fn pool_settings_have_defaults() {
    let vars: StrMap<String> = StrMap::new();
    let pool = PoolConfig::from_env(&vars);
    assert_eq!(pool.min, PoolConfig::default().min);
    assert!(pool.min <= pool.max);
}

fn at(secs: i64) -> Timestamp {
    Timestamp { secs, nanos: 0 }
}

#[test]
fn analytics_chart_the_days_in_order() {
    let mut store = create_vault_store();
    let mut later = make_test_vault("later");
    later.created_at = at(86_400);
    later.check_in_interval = 100;
    later.status = VaultStatus::Released;
    let mut first = make_test_vault("first");
    first.created_at = at(10);
    first.check_in_interval = 200;
    let mut second = make_test_vault("second");
    second.created_at = at(20);
    second.check_in_interval = 600;
    store.insert("later".to_string(), later);
    store.insert("first".to_string(), first);
    store.insert("second".to_string(), second);
    let analytics = compute_vault_analytics(&store);
    assert_eq!(analytics.total_vaults, 3);
    assert_eq!(analytics.active_vaults, 2);
    assert_eq!(analytics.average_ttl_seconds.sum, 900);
    assert_eq!(analytics.average_ttl_seconds.count, 3);
    assert_eq!(analytics.release_rate.num, 1);
    assert_eq!(analytics.release_rate.den, 3);
    assert_eq!(analytics.time_series.len(), 2);
    assert_eq!(analytics.time_series[0].date, "1970-01-01");
    assert_eq!(analytics.time_series[0].vaults_created, 2);
    assert_eq!(analytics.time_series[0].vaults_released, 0);
    assert_eq!(analytics.time_series[1].date, "1970-01-02");
    assert_eq!(analytics.time_series[1].vaults_created, 1);
    assert_eq!(analytics.time_series[1].vaults_released, 1);
}

#[test]
fn history_is_kept_per_vault() {
    let mut events = create_event_store();
    for (vault, kind) in [("v1", "created"), ("v2", "created"), ("v1", "released")] {
        events.push(VaultEvent {
            vault_id: vault.to_string(),
            event_type: kind.to_string(),
            timestamp: at(1),
            data: Json::Null,
        });
    }
    let history = get_vault_history(&events, "v1");
    assert_eq!(history.len(), 2);
    assert_eq!(history[0].event_type, "created");
    assert_eq!(history[1].event_type, "released");
    assert!(get_vault_history(&events, "v3").is_empty());
}

#[test]
fn backups_are_found_by_their_id() {
    let mut backups = create_backup_store();
    store_backup(
        &mut backups,
        VaultBackup {
            backup_id: "b1".to_string(),
            vault_id: "v1".to_string(),
            encrypted_data: "data".to_string(),
            created_at: at(5),
        },
    );
    assert_eq!(get_backup(&backups, "b1").unwrap().encrypted_data, "data");
    assert!(get_backup(&backups, "b2").is_none());
}

#[test]
fn shares_are_listed_per_vault() {
    let mut shares = create_share_store();
    for (vault, with) in [("v1", "bob"), ("v2", "carol"), ("v1", "dave")] {
        add_vault_share(
            &mut shares,
            VaultShare {
                vault_id: vault.to_string(),
                shared_with: with.to_string(),
                permission: "read".to_string(),
                created_at: at(5),
            },
        );
    }
    let found: Vec<String> =
        get_vault_shares(&shares, "v1").into_iter().map(|s| s.shared_with).collect();
    assert_eq!(found, vec!["bob".to_string(), "dave".to_string()]);
}

#[test]
fn share_tokens_can_be_revoked() {
    let mut tokens = create_share_token_store();
    for name in ["t1", "t2"] {
        add_share_token(
            &mut tokens,
            ShareToken {
                token: name.to_string(),
                vault_id: "v1".to_string(),
                permission: "read".to_string(),
                created_at: at(5),
                expires_at: None,
                revoked: false,
            },
        );
    }
    assert!(revoke_share_token(&mut tokens, "t1").unwrap().revoked);
    assert!(revoke_share_token(&mut tokens, "t3").is_none());
    assert!(get_share_token(&tokens, "t1").unwrap().revoked);
    assert!(!get_share_token(&tokens, "t2").unwrap().revoked);
    assert!(get_share_token(&tokens, "t3").is_none());
    assert_eq!(get_vault_share_tokens(&tokens, "v1").len(), 2);
    assert!(get_vault_share_tokens(&tokens, "v2").is_empty());
}

#[test]
fn notification_preferences_are_kept_per_owner() {
    let mut prefs = create_notification_store();
    for email in [true, false] {
        set_notification_preferences(
            &mut prefs,
            VaultNotificationPreferences {
                owner: "alice".to_string(),
                email,
                sms: true,
                push: false,
            },
        );
    }
    let stored = get_notification_preferences(&prefs, "alice").unwrap();
    assert!(!stored.email);
    assert!(stored.sms);
    assert!(get_notification_preferences(&prefs, "bob").is_none());
}

#[test]
fn summaries_and_ttls_are_cached_until_invalidated() {
    let mut store = create_vault_store();
    let mut cache = VaultCache::new();
    store.insert("v1".to_string(), make_test_vault("v1"));
    let encode = |t: &Option<u64>| format!("{t:?}").into_bytes();
    let decode = |b: &Vec<u8>| if b == b"Some(100000)" { Some(Some(100_000)) } else { None };
    assert_eq!(
        get_ttl_remaining_cached(&store, &mut cache, "v1", encode, decode),
        Some(Some(100_000))
    );
    let encode_summary = |s: &VaultSummary| s.owner.clone().into_bytes();
    let decode_summary = |b: &Vec<u8>| {
        String::from_utf8(b.clone()).ok().map(|owner| {
            let mut s = VaultSummary::of(&make_test_vault("v1"));
            s.owner = owner;
            s
        })
    };
    let first = get_vault_summary_cached(&store, &mut cache, "v1", encode_summary, decode_summary);
    assert_eq!(first.unwrap().vault_id, "v1");
    assert_eq!(cache.metrics().misses, 2);
    store.remove("v1");
    let second = get_vault_summary_cached(&store, &mut cache, "v1", encode_summary, decode_summary);
    assert_eq!(second.unwrap().owner, "owner1");
    assert_eq!(cache.metrics().hits, 1);
    invalidate_vault_cache(&mut cache, "v1");
    let third = get_vault_summary_cached(&store, &mut cache, "v1", encode_summary, decode_summary);
    assert!(third.is_none());
}

#[test]
fn searches_filter_by_status_and_time() {
    let mut store = create_vault_store();
    for (id, secs, status) in [
        ("a", 100, VaultStatus::Active),
        ("b", 200, VaultStatus::Released),
        ("c", 300, VaultStatus::Active),
    ] {
        let mut vault = make_test_vault(id);
        vault.created_at = at(secs);
        vault.status = status;
        store.insert(id.to_string(), vault);
    }
    let mut query = SearchQuery {
        owner: None,
        beneficiary: Some("ben1".to_string()),
        status: Some(VaultStatus::Active),
        created_after: Some(at(150)),
        created_before: None,
        page: None,
        limit: None,
    };
    let found = search_vaults(&store, &query);
    assert_eq!(found.total, 1);
    assert_eq!(found.vaults[0].id, "c");
    query.created_before = Some(at(250));
    assert_eq!(search_vaults(&store, &query).total, 0);
}

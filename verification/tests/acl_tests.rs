use heirloom_backend::acl::{AclEffect, AclStore, CreateAclRuleRequest};
use heirloom_backend::strmap::StrMap;

fn rule_req(
    subject: &str,
    resource: &str,
    action: &str,
    effect: AclEffect,
) -> CreateAclRuleRequest {
    CreateAclRuleRequest {
        subject: subject.to_string(),
        resource: resource.to_string(),
        action: action.to_string(),
        effect,
        actor: Some("test-admin".to_string()),
    }
}

#[test]
fn default_allows_when_no_rules() {
    let mut store = AclStore::default();
    assert!(store.is_allowed("alice", "/api/vaults", "GET"));
}

#[test]
fn deny_rule_blocks_matching_request_immediately() {
    let mut store = AclStore::default();
    store.add_rule(rule_req("alice", "/api/admin", "*", AclEffect::Deny));
    assert!(!store.is_allowed("alice", "/api/admin/users", "GET"));
    assert!(store.is_allowed("bob", "/api/admin/users", "GET"));
}

#[test]
fn removing_a_rule_restores_default_allow_immediately() {
    let mut store = AclStore::default();
    let rule = store.add_rule(rule_req("alice", "/api/admin", "*", AclEffect::Deny));
    assert!(!store.is_allowed("alice", "/api/admin", "GET"));

    assert!(store.remove_rule(&rule.id, Some("test-admin".to_string())));
    assert!(store.is_allowed("alice", "/api/admin", "GET"));
}

#[test]
fn audit_trail_records_add_and_remove() {
    let mut store = AclStore::default();
    let rule = store.add_rule(rule_req("carol", "/api/vaults", "POST", AclEffect::Allow));
    store.remove_rule(&rule.id, Some("root".to_string()));

    let trail = store.audit_trail();
    assert_eq!(trail.len(), 2);
    assert_eq!(trail[0].operation, "add");
    assert_eq!(trail[1].operation, "remove");
}

#[test]
fn unknown_rule_removal_is_not_audited() {
    let mut store = AclStore::default();
    assert!(!store.remove_rule("does-not-exist", None));
    assert!(store.audit_trail().is_empty());
}

#[test]
fn acl_first_denial_wins_over_later_permission() {
    let mut store = AclStore::new();
    store.add_rule(rule_req("*", "/api", "GET", AclEffect::Deny));
    store.add_rule(rule_req("alice", "/api/vaults", "GET", AclEffect::Allow));
    assert!(!store.is_allowed("alice", "/api/vaults", "GET"));
    assert!(store.is_allowed("alice", "/api/vaults", "POST"));
    assert_eq!(store.list_rules().len(), 2);
}

#[test]
fn acl_reads_the_subject_from_the_headers() {
    let mut store = AclStore::new();
    store.add_rule(rule_req("alice", "/api/admin", "*", AclEffect::Deny));
    let mut headers: StrMap<String> = StrMap::new();
    assert!(store.admits(&headers, "/api/admin", "GET"));
    headers.insert("x-user-id".to_string(), "alice".to_string());
    assert!(!store.admits(&headers, "/api/admin", "GET"));
    assert!(store.admits(&headers, "/api/vaults", "GET"));
}

#[test]
fn acl_rules_have_different_ids() {
    let mut store = AclStore::new();
    let a = store.add_rule(rule_req("a", "/", "*", AclEffect::Allow));
    let b = store.add_rule(rule_req("b", "/", "*", AclEffect::Allow));
    assert_ne!(a.id, b.id);
    assert_eq!(a.id.len(), 36);
    assert!(a.created_at.secs > 0);
}

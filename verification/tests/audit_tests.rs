use heirloom_backend::audit::{
    authorize_admin, extract_client_ip, extract_user_id, is_audited, outcome_word, request_entry,
    state_modification_entry,
};
use heirloom_backend::clock::Timestamp;
use heirloom_backend::json::Json;
use heirloom_backend::strmap::StrMap;

fn map(pairs: &[(&str, &str)]) -> StrMap<String> {
    let mut m = StrMap::new();
    for (k, v) in pairs {
        m.insert(k.to_string(), v.to_string());
    }
    m
}

#[test]
fn the_admin_key_is_compared() {
    let vars = map(&[("ADMIN_API_KEY", "key")]);
    assert!(authorize_admin(&vars, &map(&[("authorization", "Bearer key")])).is_ok());
    assert!(authorize_admin(&vars, &map(&[("authorization", "Bearer other")])).is_err());
    assert!(authorize_admin(&vars, &map(&[])).is_err());
}

#[test]
fn the_client_is_read_from_the_headers() {
    let headers = map(&[("x-forwarded-for", "1.2.3.4, 5.6.7.8"), ("x-user-id", "alice")]);
    assert_eq!(extract_client_ip(&headers), "1.2.3.4");
    assert_eq!(extract_user_id(&headers), "alice");
    assert!(!extract_client_ip(&map(&[])).is_empty());
    assert!(!extract_user_id(&map(&[])).is_empty());
}

#[test]
fn requests_are_described_by_their_outcome() {
    assert_eq!(outcome_word(200), "success");
    let headers = map(&[("x-user-id", "alice")]);
    let now = Timestamp { secs: 3, nanos: 0 };
    let e = state_modification_entry("create", "/api/vaults", "success", &headers, Some(Json::Null), now);
    assert_eq!(e.action, "create");
    assert_eq!(e.user_id, "alice");
    assert_eq!(e.timestamp, now);
    let path = "/api/vaults";
    assert_eq!(request_entry("POST", path, &headers, 200, now).is_some(), is_audited(path));
}

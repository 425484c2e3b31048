use heirloom_backend::clock::Timestamp;
use heirloom_backend::degradation::{
    set_capability, status_of_row, CapabilityRow, DegradationLevel, DegradationState,
    SetCapabilityRequest,
};

#[test]
fn unregistered_capability_defaults_to_full() {
    let mut state = DegradationState::new();
    let status = state.check("payments");
    assert_eq!(status.level, DegradationLevel::Full);
    assert_eq!(status.name, "payments");
}

#[test]
fn set_and_get_capability_status() {
    let mut state = DegradationState::new();

    let set_result = state
        .set_status(
            "search",
            DegradationLevel::Unavailable,
            Some("index rebuilding".to_string()),
            true,
        );
    assert_eq!(set_result.level, DegradationLevel::Unavailable);
    assert_eq!(set_result.reason, Some("index rebuilding".to_string()));

    let retrieved = state.check("search");
    assert_eq!(retrieved.level, DegradationLevel::Unavailable);
    assert_eq!(retrieved.reason, Some("index rebuilding".to_string()));
    assert!(retrieved.fallback_available);
}

#[test]
fn negotiate_allows_proceeding_with_fallback() {
    let mut state = DegradationState::new();

    state
        .set_status(
            "search",
            DegradationLevel::Unavailable,
            Some("index rebuilding".to_string()),
            true,
        );

    let result = state
        .negotiate(&["search".to_string()]);
    assert!(result.can_proceed);
    assert!(result.capabilities[0].use_fallback);
}

#[test]
fn negotiate_blocks_without_fallback() {
    let mut state = DegradationState::new();

    state
        .set_status("search", DegradationLevel::Unavailable, None, false);

    let result = state
        .negotiate(&["search".to_string()]);
    assert!(!result.can_proceed);
}

#[test]
fn degraded_capability_can_proceed() {
    let mut state = DegradationState::new();

    state
        .set_status(
            "recommendations",
            DegradationLevel::Degraded,
            Some("stale cache".to_string()),
            false,
        );

    let result = state
        .negotiate(&["recommendations".to_string()]);
    assert!(result.can_proceed);
}

#[test]
fn two_handles_share_same_store() {
    let mut store = DegradationState::new();

    // Set via one handle
    let state1 = &mut store;
    state1
        .set_status(
            "payments",
            DegradationLevel::Degraded,
            Some("slow processing".to_string()),
            true,
        );

    // Observe change via another
    let state2 = &store;
    let status = state2.check("payments");
    assert_eq!(status.level, DegradationLevel::Degraded);
    assert_eq!(status.reason, Some("slow processing".to_string()));
}

#[test]
fn degradation_state_persists_across_instances() {
    // Instance 1: set a capability status
    let mut rows: Vec<CapabilityRow> = Vec::new();
    {
        let mut state1 = DegradationState::new();
        state1
            .set_status(
                "notifications",
                DegradationLevel::Unavailable,
                Some("service down".to_string()),
                false,
            );
        for s in state1.list() {
            rows.push(CapabilityRow {
                name: s.name,
                level: s.level.to_stored().to_string(),
                reason: s.reason,
                fallback_available: i32::from(s.fallback_available),
                updated_at: s.updated_at.to_rfc3339(),
            });
        }
    }

    // Instance 2: read the same state after instance 1 is dropped
    {
        let mut state2 = DegradationState::new();
        for row in rows {
            state2.load(status_of_row(row, Timestamp::now()));
        }
        let status = state2.check("notifications");
        assert_eq!(status.level, DegradationLevel::Unavailable);
        assert_eq!(status.reason, Some("service down".to_string()));
    }
}

#[test]
fn list_returns_all_registered_capabilities() {
    let mut state = DegradationState::new();

    state
        .set_status("search", DegradationLevel::Degraded, None, false);
    state
        .set_status(
            "recommendations",
            DegradationLevel::Unavailable,
            None,
            false,
        );
    state
        .set_status("analytics", DegradationLevel::Full, None, false);

    let list = state.list();
    // Setting `analytics` back to `Full` deregisters it (check() already
    // defaults to Full for unregistered capabilities), so only the two
    // genuinely degraded capabilities remain.
    assert_eq!(list.len(), 2);
    assert!(list.iter().any(|s| s.name == "search"));
    assert!(list.iter().any(|s| s.name == "recommendations"));
    // Full means unregistered, so it never appears in the list.
    assert!(!list.iter().any(|s| s.name == "analytics"));
}

#[test]
fn a_missing_name_is_refused() {
    let mut state = DegradationState::new();
    let body = SetCapabilityRequest {
        name: " ".to_string(),
        level: DegradationLevel::Degraded,
        reason: None,
        fallback_available: false,
    };
    assert!(set_capability(&mut state, body).is_err());
    let good = SetCapabilityRequest {
        name: "search".to_string(),
        level: DegradationLevel::Degraded,
        reason: None,
        fallback_available: true,
    };
    assert!(set_capability(&mut state, good).is_ok());
    assert_eq!(state.list().len(), 1);
    assert!(state.capability_fallback("search").is_ok());
    assert!(state.capability_fallback("payments").is_err());
}

#[test]
fn stamps_survive_being_stored() {
    let t = Timestamp { secs: 1_700_000_000, nanos: 123_000_000 };
    let row = CapabilityRow {
        name: "a".to_string(),
        level: "\"degraded\"".to_string(),
        reason: None,
        fallback_available: 1,
        updated_at: t.to_rfc3339(),
    };
    let status = status_of_row(row, Timestamp { secs: 0, nanos: 0 });
    assert_eq!(status.updated_at, t);
    assert_eq!(status.level, DegradationLevel::Degraded);
    assert_eq!(Timestamp::parse_rfc3339("not a stamp"), None);
    assert_eq!(
        Timestamp::parse_rfc3339("2024-01-01T00:00:00Z"),
        Some(Timestamp { secs: 1_704_067_200, nanos: 0 })
    );
    assert_eq!(Timestamp { secs: 1_704_067_200, nanos: 0 }.day_label(), "2024-01-01");
}

#[test]
fn statuses_are_listed_latest_first() {
    let mut state = DegradationState::new();
    let at = |secs: i64| Timestamp { secs, nanos: 0 };
    state.set_status_at("a", DegradationLevel::Degraded, None, false, at(10));
    state.set_status_at("b", DegradationLevel::Unavailable, None, true, at(30));
    state.set_status_at("c", DegradationLevel::Degraded, None, false, at(20));
    let names: Vec<String> = state.list().into_iter().map(|s| s.name).collect();
    assert_eq!(names, vec!["b", "c", "a"]);
}

#[test]
fn a_status_is_read_back_from_its_row() {
    let mut state = DegradationState::new();
    let at = Timestamp { secs: 86_400, nanos: 0 };
    let status = state.set_status_at("a", DegradationLevel::Degraded, None, true, at);
    assert!(status.is_registered());
    let row = status.to_row();
    assert_eq!(row.updated_at, "1970-01-02T00:00:00+00:00");
    let back = status_of_row(row, Timestamp { secs: 0, nanos: 0 });
    assert_eq!(back.level, DegradationLevel::Degraded);
    assert!(back.fallback_available);
    assert_eq!(back.updated_at, at);
    let full = state.set_status_at("a", DegradationLevel::Full, None, false, at);
    assert!(!full.is_registered());
}

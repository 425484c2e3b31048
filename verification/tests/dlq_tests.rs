use heirloom_backend::clock::Timestamp;
use heirloom_backend::dlq::{
    begin_replay, get_dlq_entry, list_dlq_entries, mark_status, replay_dlq_entries, replay_one,
    route_to_dlq, DlqEntry, DlqError, DlqState, DlqStatus, ListDlqQuery, ReplayDlqRequest, Reply,
};
use heirloom_backend::json::Json;

fn at(secs: i64) -> Timestamp {
    Timestamp { secs, nanos: 0 }
}

fn add(state: &mut DlqState, id: &str, source: &str, target: Option<&str>, secs: i64) -> DlqEntry {
    state.route_at(
        id.to_string(),
        source,
        target.map(|t| t.to_string()),
        Json::object(),
        "boom",
        3,
        at(secs),
    )
}

fn query(status: Option<&str>, source: Option<&str>, limit: Option<usize>) -> ListDlqQuery {
    ListDlqQuery {
        status: status.map(|s| s.to_string()),
        source: source.map(|s| s.to_string()),
        limit,
    }
}

fn answered(status: u16, text: &str) -> Reply {
    Reply::Answered { status, text: text.to_string() }
}

#[test]
fn a_failed_delivery_waits_in_the_queue() {
    let mut state = DlqState::default();
    let e = route_to_dlq(&mut state, "webhook:1", Some("http://x".to_string()), Json::Null, "boom", 5);
    assert_eq!(e.status, DlqStatus::Pending);
    assert_eq!(e.attempts, 5);
    assert_eq!(e.id.len(), 36);
    assert_eq!(get_dlq_entry(&state, &e.id).unwrap().error, "boom");
    assert!(get_dlq_entry(&state, "none").is_none());
}

#[test]
fn the_newest_entries_are_listed_first() {
    let mut state = DlqState::new();
    add(&mut state, "a", "webhook:1", None, 10);
    add(&mut state, "b", "mail:1", None, 30);
    add(&mut state, "c", "webhook:2", None, 20);
    let ids = |q: ListDlqQuery| -> Vec<String> {
        list_dlq_entries(&state, &q).into_iter().map(|e| e.id).collect()
    };
    assert_eq!(ids(query(None, None, None)), vec!["b", "c", "a"]);
    assert_eq!(ids(query(None, Some("webhook"), None)), vec!["c", "a"]);
    assert_eq!(ids(query(Some("pending"), None, Some(1))), vec!["b"]);
    assert!(ids(query(Some("replayed"), None, None)).is_empty());
    assert_eq!(ids(query(Some("whatever"), None, None)).len(), 3);
}

#[test]
fn a_replay_must_name_something() {
    let state = DlqState::new();
    let nothing = ReplayDlqRequest { id: None, replay_all: false };
    let err = begin_replay(&state, &nothing).unwrap_err();
    assert_eq!(err, DlqError::NothingSpecified);
    assert_eq!(err.status(), 422);
    assert_eq!(err.message(), "must specify id or replay_all");
    let unknown = ReplayDlqRequest { id: Some("x".to_string()), replay_all: false };
    let err = begin_replay(&state, &unknown).unwrap_err();
    assert_eq!(err.status(), 404);
    assert_eq!(err.message(), "dlq entry not found");
}

#[test]
fn a_replay_counts_and_marks() {
    let mut state = DlqState::new();
    add(&mut state, "a", "s", Some("http://ok"), 1);
    add(&mut state, "b", "s", Some("http://bad"), 2);
    add(&mut state, "c", "s", None, 3);
    let body = ReplayDlqRequest { id: None, replay_all: true };
    let send = |e: &DlqEntry| match e.target.as_deref() {
        Some("http://ok") => answered(204, "204 No Content"),
        _ => answered(500, "500 Internal Server Error"),
    };
    let r = replay_dlq_entries(&mut state, &body, send, at(9)).unwrap();
    assert_eq!((r.attempted, r.succeeded, r.failed), (3, 1, 2));
    assert_eq!(r.results[0].detail, "replay accepted with status 204 No Content");
    assert_eq!(r.results[1].detail, "replay rejected with status 500 Internal Server Error");
    assert_eq!(r.results[2].detail, "no replay target recorded for this entry");
    let a = get_dlq_entry(&state, "a").unwrap();
    assert_eq!(a.status, DlqStatus::Replayed);
    assert_eq!(a.attempts, 4);
    assert_eq!(a.last_attempt_at, at(9));
    assert_eq!(get_dlq_entry(&state, "b").unwrap().status, DlqStatus::ReplayFailed);
    let again = begin_replay(&state, &body).unwrap();
    assert!(again.next_entry().is_none());
}

#[test]
fn one_entry_is_replayed_by_id() {
    let mut state = DlqState::new();
    add(&mut state, "a", "s", Some("http://x"), 1);
    let body = ReplayDlqRequest { id: Some("a".to_string()), replay_all: false };
    let mut run = begin_replay(&state, &body).unwrap();
    assert_eq!(run.next_entry().unwrap().id, "a");
    run.record(&mut state, &Reply::Lost("refused".to_string()), at(5));
    let r = run.finish();
    assert_eq!(r.failed, 1);
    assert_eq!(r.results[0].detail, "replay request error: refused");
    assert_eq!(DlqStatus::ReplayFailed.name(), "replay_failed");
}

#[test]
fn success_is_a_status_of_two_hundred_and_more() {
    let mut state = DlqState::new();
    let e = add(&mut state, "a", "s", Some("http://x"), 1);
    assert!(replay_one(&e, &answered(200, "200 OK")).success);
    assert!(replay_one(&e, &answered(299, "299")).success);
    assert!(!replay_one(&e, &answered(300, "300")).success);
    assert!(!replay_one(&e, &answered(199, "199")).success);
    mark_status(&mut state, "unknown", DlqStatus::Replayed, at(2));
    assert_eq!(get_dlq_entry(&state, "a").unwrap().status, DlqStatus::Pending);
}

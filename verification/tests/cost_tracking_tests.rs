use heirloom_backend::clock::Timestamp;
use heirloom_backend::cost_tracking::{
    allocate_cost, default_currency, record_cost_entry, record_cost_entry_as, AllocateCostRequest,
    CostEntry, CostState, RecordCostRequest,
};
use heirloom_backend::strmap::StrMap;

/// The place of a float in the order of floats.
fn key(x: f64) -> i64 {
    let bits = x.to_bits() as i64;
    if bits < 0 {
        i64::MIN.wrapping_sub(bits)
    } else {
        bits
    }
}

/// The float with the given place in the order of floats.
fn float(k: i64) -> f64 {
    if k >= 0 {
        f64::from_bits(k as u64)
    } else {
        -f64::from_bits(k.unsigned_abs())
    }
}

/// The sum of the amounts of the entries at the given positions.
fn total(state: &CostState, at: &[usize]) -> f64 {
    let entries = state.snapshot();
    at.iter().map(|i| float(entries[*i].amount)).sum()
}

fn group(state: &CostState, groups: &StrMap<Vec<usize>>, name: &str) -> Option<f64> {
    groups.get(name).map(|at| total(state, at))
}

/// The share of a group in an amount.
fn share(state: &CostState, groups: &StrMap<Vec<usize>>, name: &str, amount: f64) -> Option<f64> {
    let mut all = 0.0;
    for i in 0..groups.len() {
        all += total(state, groups.value_at(i));
    }
    group(state, groups, name).map(|t| amount * t / all)
}

fn entry(operation: &str, team: &str, amount: f64) -> CostEntry {
    let mut tags = StrMap::new();
    tags.insert("team".to_string(), team.to_string());
    CostEntry {
        id: format!("{operation}-{team}-{amount}"),
        operation: operation.to_string(),
        tags,
        amount: key(amount),
        currency: "USD".to_string(),
        recorded_at: Timestamp::now(),
    }
}

#[test]
fn report_aggregates_totals_and_tags() {
    let mut state = CostState::new();
    state.record(entry("db.query", "vaults", 1.0));
    state.record(entry("db.query", "vaults", 2.0));
    state.record(entry("api.call", "billing", 3.0));

    let report = state.report();
    assert_eq!(total(&state, &[0, 1, 2]), 6.0);
    assert_eq!(report.entry_count, 3);
    assert_eq!(group(&state, &report.by_operation, "db.query"), Some(3.0));
    assert_eq!(group(&state, report.by_tag.get("team").unwrap(), "vaults"), Some(3.0));
    assert_eq!(
        group(&state, report.by_tag.get("team").unwrap(), "billing"),
        Some(3.0)
    );
}

#[test]
fn allocation_is_proportional_to_historical_share() {
    let mut state = CostState::new();
    state.record(entry("db.query", "vaults", 3.0));
    state.record(entry("db.query", "billing", 1.0));

    let allocation = state.allocate(key(100.0), "team");
    assert_eq!(share(&state, &allocation.allocations, "vaults", float(allocation.total_amount)), Some(75.0));
    assert_eq!(share(&state, &allocation.allocations, "billing", float(allocation.total_amount)), Some(25.0));
}

#[test]
fn allocation_with_no_history_is_empty() {
    let mut state = CostState::new();
    let allocation = state.allocate(key(100.0), "team");
    assert!(allocation.allocations.len() == 0);
}

#[test]
fn a_cost_needs_an_operation() {
    let mut state = CostState::new();
    let body = RecordCostRequest {
        operation: "  ".to_string(),
        tags: StrMap::new(),
        amount: key(1.0),
        currency: default_currency(),
    };
    assert!(record_cost_entry(&mut state, body).is_err());
    let negative = RecordCostRequest {
        operation: "db".to_string(),
        tags: StrMap::new(),
        amount: key(-1.0),
        currency: default_currency(),
    };
    assert!(record_cost_entry(&mut state, negative).is_err());
    let good = RecordCostRequest {
        operation: "db".to_string(),
        tags: StrMap::new(),
        amount: key(2.5),
        currency: default_currency(),
    };
    let kept = record_cost_entry(&mut state, good).unwrap();
    assert_eq!(float(kept.amount), 2.5);
    assert_eq!(state.snapshot().len(), 1);
}

#[test]
fn an_allocation_needs_a_tag() {
    let state = CostState::new();
    let body = AllocateCostRequest { total_amount: key(1.0), tag_key: "".to_string() };
    assert!(allocate_cost(&state, &body).is_err());
}

#[test]
fn a_recorded_cost_has_the_given_id_and_time() {
    let mut state = CostState::new();
    let body = RecordCostRequest {
        operation: "db".to_string(),
        tags: StrMap::new(),
        amount: key(2.5),
        currency: default_currency(),
    };
    let now = Timestamp { secs: 5, nanos: 6 };
    let kept = record_cost_entry_as(&mut state, body, "id-1".to_string(), now).unwrap();
    assert_eq!(kept.id, "id-1");
    assert_eq!(kept.recorded_at, now);
    let bad = RecordCostRequest {
        operation: "".to_string(),
        tags: StrMap::new(),
        amount: key(2.5),
        currency: default_currency(),
    };
    match record_cost_entry_as(&mut state, bad, "id-2".to_string(), now) {
        Err(e) => {
            assert_eq!(e.status, 422);
            assert_eq!(e.code, "unprocessable_entity");
            assert_eq!(e.message, "operation must not be empty");
        }
        Ok(_) => panic!("expected an error"),
    }
    assert_eq!(state.snapshot().len(), 1);
}

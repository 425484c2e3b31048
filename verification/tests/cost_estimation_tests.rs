use heirloom_backend::clock::Timestamp;
use heirloom_backend::cost_estimation::{
    env_u64, CostEstimator, EstimateCostRequest, FeeConfig, OperationType,
};
use heirloom_backend::strmap::StrMap;

fn estimator() -> CostEstimator {
    CostEstimator::with_defaults()
}

fn req(op: OperationType) -> EstimateCostRequest {
    EstimateCostRequest {
        operation: op,
        vault_id: None,
        amount_stroops: None,
        bulk_count: None,
        payload_bytes: None,
        include_scenarios: None,
    }
}

#[test]
fn test_create_vault_cost() {
    let e = estimator();
    let resp = e.estimate(&req(OperationType::CreateVault));
    assert!(resp.breakdown.total_stroops > 0);
    assert!(resp.breakdown.rent_fee_stroops > 0);
}

#[test]
fn test_check_in_cost() {
    let e = estimator();
    let resp = e.estimate(&req(OperationType::CheckIn));
    assert!(resp.breakdown.total_stroops > 0);
    assert!(resp.breakdown.rent_fee_stroops > 0);
}

#[test]
fn test_deposit_with_amount() {
    let e = estimator();
    let mut r = req(OperationType::Deposit);
    r.amount_stroops = Some(1_000_000_000);
    let resp = e.estimate(&r);
    assert!(resp.breakdown.notes.iter().any(|n| n.contains("stroops")));
}

#[test]
fn test_bulk_check_in_scales() {
    let e = estimator();
    let mut r1 = req(OperationType::BulkCheckIn);
    r1.bulk_count = Some(1);
    let mut r10 = req(OperationType::BulkCheckIn);
    r10.bulk_count = Some(10);
    let cost1 = e.estimate(&r1).breakdown.total_stroops;
    let cost10 = e.estimate(&r10).breakdown.total_stroops;
    // 10-vault bulk should cost roughly 10x more than 1-vault.
    assert!(cost10 > cost1 * 5);
}

#[test]
fn test_scenarios_included_when_requested() {
    let e = estimator();
    let mut r = req(OperationType::Deposit);
    r.include_scenarios = Some(true);
    let resp = e.estimate(&r);
    assert!(!resp.scenarios.is_empty());
}

#[test]
fn test_scenarios_empty_by_default() {
    let e = estimator();
    let resp = e.estimate(&req(OperationType::CheckIn));
    assert!(resp.scenarios.is_empty());
}

#[test]
fn test_trigger_release_is_most_expensive() {
    let e = estimator();
    let release_cost = e.estimate(&req(OperationType::TriggerRelease)).breakdown.total_stroops;
    let check_in_cost = e.estimate(&req(OperationType::CheckIn)).breakdown.total_stroops;
    assert!(release_cost > check_in_cost);
}

#[test]
fn test_total_xlm_conversion() {
    let e = estimator();
    let resp = e.estimate(&req(OperationType::CreateVault));
    let expected_xlm = resp.breakdown.total_stroops as f64 / 10_000_000.0;
    let total = resp.breakdown.total_xlm;
    let total_xlm = total.whole as f64 + total.stroops as f64 / 10_000_000.0;
    assert!((total_xlm - expected_xlm).abs() < 0.000_001);
}

#[test]
fn test_docs_url_present() {
    let e = estimator();
    let resp = e.estimate(&req(OperationType::CheckIn));
    assert!(!resp.docs_url.is_empty());
}

#[test]
fn the_total_is_the_sum_of_the_charges() {
    let r = estimator().estimate_at(&req(OperationType::Withdraw), Timestamp { secs: 3, nanos: 0 });
    let b = &r.breakdown;
    assert_eq!(
        b.total_stroops,
        b.base_fee_stroops
            + b.instruction_fee_stroops
            + b.write_entries_fee_stroops
            + b.read_entries_fee_stroops
            + b.rent_fee_stroops
    );
    assert_eq!(r.estimated_at, Timestamp { secs: 3, nanos: 0 });
}

#[test]
fn fees_are_read_from_the_settings() {
    let mut vars: StrMap<String> = StrMap::new();
    assert_eq!(env_u64(&vars, "X", 9), 9);
    vars.insert("X".to_string(), "11".to_string());
    assert_eq!(env_u64(&vars, "X", 9), 11);
    assert_eq!(FeeConfig::from_env(&vars).base_fee_stroops, FeeConfig::default().base_fee_stroops);
}

#[test]
fn prices_beyond_sixty_four_bits_are_not_estimated() {
    let e = estimator();
    assert!(e.can_estimate(&req(OperationType::CreateVault)));
    let mut bulk = req(OperationType::BulkCheckIn);
    bulk.include_scenarios = Some(true);
    assert!(e.can_estimate(&bulk));
    bulk.bulk_count = Some(u64::MAX);
    assert!(!e.can_estimate(&bulk));
    let mut custom = req(OperationType::Custom);
    custom.payload_bytes = Some(u64::MAX);
    assert!(!e.can_estimate(&custom));
}

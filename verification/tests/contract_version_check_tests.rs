use heirloom_backend::contract_version_check::{
    check_contract_version, parse_min_contract_version, VersionCheckResult,
};

// a) returns_compatible_true_when_version_meets_minimum
#[test]
fn returns_compatible_true_when_version_meets_minimum() {
    let min_required = 1u32;
    let contract_version = 2u32;

    let result = check_contract_version(Ok(contract_version), min_required);

    assert!(result.compatible);
    assert_eq!(result.contract_version, Some(2));
    assert_eq!(result.min_required_version, 1);
    assert!(result.error.is_none());
}

// b) returns_compatible_true_when_version_exactly_equals_minimum
#[test]
fn returns_compatible_true_when_version_exactly_equals_minimum() {
    let min_required = 1u32;
    let contract_version = 1u32;

    let result = check_contract_version(Ok(contract_version), min_required);

    assert!(result.compatible);
    assert_eq!(result.contract_version, Some(1));
    assert_eq!(result.min_required_version, 1);
    assert!(result.error.is_none());
}

// c) returns_compatible_false_when_version_below_minimum
#[test]
fn returns_compatible_false_when_version_below_minimum() {
    let min_required = 2u32;
    let contract_version = 1u32;

    let result = check_contract_version(Ok(contract_version), min_required);

    assert!(!result.compatible);
    assert_eq!(result.contract_version, Some(1));
    assert_eq!(result.min_required_version, 2);
    assert!(result.error.is_none());
}

// d) returns_error_when_contract_unreachable
#[test]
fn returns_error_when_contract_unreachable() {
    let min_required = 1u32;

    let result = check_contract_version(Err("connection refused".to_string()), min_required);

    assert!(!result.compatible);
    assert!(result.contract_version.is_none());
    assert_eq!(result.min_required_version, 1);
    assert!(result.error.is_some());
    assert!(result
        .error
        .as_ref()
        .unwrap()
        .contains("Unable to reach contract"));
}

// e) min_contract_version_parses_from_env
#[test]
fn min_contract_version_parses_from_env() {
    let min_version = parse_min_contract_version(Some("3".to_string()));
    assert_eq!(min_version, 3);
}

// f) min_contract_version_defaults_to_1_when_unset
#[test]
fn min_contract_version_defaults_to_1_when_unset() {
    let min_version_none = parse_min_contract_version(None);
    assert_eq!(min_version_none, 1);

    let min_version_empty = parse_min_contract_version(Some(String::new()));
    assert_eq!(min_version_empty, 1);
}

// g) version_check_result_display_shows_error_when_unreachable
#[test]
fn version_check_result_display_shows_error_when_unreachable() {
    let result = VersionCheckResult {
        compatible: false,
        contract_version: None,
        min_required_version: 1,
        error: Some("connection refused".to_string()),
    };
    let display = result.to_string();
    assert!(display.contains("Version check error"));
    assert!(display.contains("connection refused"));
}

// h) version_check_result_display_shows_versions_when_compatible
#[test]
fn version_check_result_display_shows_versions_when_compatible() {
    let result = VersionCheckResult {
        compatible: true,
        contract_version: Some(2),
        min_required_version: 1,
        error: None,
    };
    let display = result.to_string();
    assert!(display.contains("Contract version 2"));
    assert!(display.contains("minimum required: 1"));
}

#[test]
fn an_old_contract_is_described() {
    let r = check_contract_version(Ok(1), 2);
    assert!(r.to_string().contains("Contract version 1"));
    assert_eq!(r.clone().min_required_version, 2);
}

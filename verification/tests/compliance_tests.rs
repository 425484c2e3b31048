use heirloom_backend::clock::Timestamp;
use heirloom_backend::compliance::{
    build_report, compliance_report, generate_pdf_stub, run_compliance_checks,
};
use heirloom_backend::models::ComplianceStatus;
use heirloom_backend::strmap::StrMap;

fn no_settings() -> StrMap<String> {
    StrMap::new()
}

#[test]
fn run_compliance_checks_returns_nonempty_list() {
    let checks = run_compliance_checks(&no_settings());
    assert!(!checks.is_empty(), "expected at least one compliance check");
}

#[test]
fn all_checks_have_non_empty_id_name_framework() {
    for c in run_compliance_checks(&no_settings()) {
        assert!(!c.id.is_empty(), "check id must not be empty");
        assert!(!c.name.is_empty(), "check name must not be empty");
        assert!(!c.framework.is_empty(), "check framework must not be empty");
        assert!(!c.description.is_empty(), "check description must not be empty");
    }
}

#[test]
fn pass_checks_have_empty_remediation() {
    for c in run_compliance_checks(&no_settings()) {
        if c.status == ComplianceStatus::Pass {
            assert!(
                c.remediation.is_empty(),
                "passing check '{}' should have empty remediation",
                c.id
            );
        }
    }
}

#[test]
fn fail_and_warning_checks_have_remediation() {
    for c in run_compliance_checks(&no_settings()) {
        if matches!(c.status, ComplianceStatus::Fail | ComplianceStatus::Warning) {
            assert!(
                !c.remediation.is_empty(),
                "non-passing check '{}' must provide remediation guidance",
                c.id
            );
        }
    }
}

#[test]
fn pdf_stub_has_expected_shape() {
    let stub = generate_pdf_stub();
    assert_eq!(stub.get_str("format"), Some("pdf"));
    assert!(stub.get_str("note").is_some());
}

#[test]
fn compliance_status_display() {
    assert_eq!(ComplianceStatus::Pass.to_string(), "pass");
    assert_eq!(ComplianceStatus::Fail.to_string(), "fail");
    assert_eq!(ComplianceStatus::Warning.to_string(), "warning");
    assert_eq!(ComplianceStatus::NotApplicable.to_string(), "not_applicable");
}

#[test]
fn frameworks_cover_gdpr_soc2_iso27001() {
    let checks = run_compliance_checks(&no_settings());
    let frameworks: std::collections::HashSet<&str> =
        checks.iter().map(|c| c.framework.as_str()).collect();
    assert!(frameworks.contains("GDPR"));
    assert!(frameworks.contains("SOC2"));
    assert!(frameworks.contains("ISO27001"));
}

#[test]
fn a_report_needs_an_admin_key() {
    let mut vars = no_settings();
    let mut headers = no_settings();
    let now = Timestamp { secs: 1, nanos: 0 };
    vars.insert("ADMIN_API_KEY".to_string(), "key".to_string());
    assert!(compliance_report(&vars, &headers, now).is_err());
    headers.insert("authorization".to_string(), "Bearer wrong".to_string());
    assert!(compliance_report(&vars, &headers, now).is_err());
    headers.insert("authorization".to_string(), "Bearer key".to_string());
    let response = compliance_report(&vars, &headers, now);
    assert!(response.is_ok());
}

#[test]
fn a_report_counts_its_checks() {
    let checks = run_compliance_checks(&no_settings());
    let n = checks.len();
    let report = build_report(checks, Timestamp { secs: 1, nanos: 0 });
    assert_eq!(report.checks.len(), n);
}

#[test]
fn check_ids_are_distinct() {
    let checks = run_compliance_checks(&no_settings());
    assert_eq!(checks.len(), 25);
    for i in 0..checks.len() {
        for j in 0..i {
            assert_ne!(checks[i].id, checks[j].id);
        }
    }
}

#[test]
fn a_report_holds_the_whole_placeholder() {
    let checks = run_compliance_checks(&no_settings());
    let report = build_report(checks, Timestamp { secs: 0, nanos: 0 });
    assert_eq!(report.pdf_stub.get_str("version"), Some("1.0"));
    assert_eq!(report.pdf_stub.get_str("placeholder_base64"), Some(""));
    assert_eq!(
        report.pdf_stub.get_str("note"),
        Some("PDF generation requires an external renderer. Use the JSON report fields to produce a PDF via your preferred tooling."),
    );
}

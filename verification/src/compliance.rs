//! Compliance checks for GDPR, SOC 2 and ISO 27001, and the report over them.

use crate::audit;
use crate::clock::Timestamp;
use crate::json::Json;
use crate::models::{
    ComplianceAuditReport, ComplianceCheck, ComplianceReportResponse, ComplianceStatus,
};
use crate::models::CheckRow;
use crate::strmap::StrMap;
use crate::text;
use vstd::prelude::*;
use vstd::string::*;

verus! {

/// What each check of a list says.
pub open spec fn rows(checks: Seq<ComplianceCheck>) -> Seq<CheckRow> {
    Seq::new(checks.len(), |i: int| checks[i]@)
}

/// A row made of its parts.
pub open spec fn row(
    id: Seq<char>,
    name: Seq<char>,
    framework: Seq<char>,
    status: ComplianceStatus,
    description: Seq<char>,
    remediation: Seq<char>,
) -> CheckRow {
    CheckRow { id, name, framework, status, description, remediation }
}

/// Whether the variable `key` is present and not empty.
pub open spec fn is_set(vars: Map<Seq<char>, String>, key: Seq<char>) -> bool {
    vars.contains_key(key) && vars[key]@.len() > 0
}

/// Whether the variable `key` is present and not empty.
pub fn env_is_set(vars: &StrMap<String>, key: &str) -> (r: bool)
    ensures
        r == is_set(vars@, key@),
{
    match vars.get(key) {
        Some(v) => !v.as_str().is_empty(),
        None => false,
    }
}

/// Build a single [`ComplianceCheck`] from its constituent parts.
pub fn check(
    id: &str,
    name: &str,
    framework: &str,
    status: ComplianceStatus,
    description: &str,
    remediation: &str,
) -> (r: ComplianceCheck)
    ensures
        r@ == row(id@, name@, framework@, status, description@, remediation@),
{
    ComplianceCheck {
        id: id.to_owned(),
        name: name.to_owned(),
        framework: framework.to_owned(),
        status,
        description: description.to_owned(),
        remediation: remediation.to_owned(),
    }
}

/// The required secrets that are missing.
pub open spec fn missing_secrets(admin: bool, email: bool, sms: bool) -> Seq<Seq<char>> {
    (if admin {
        Seq::empty()
    } else {
        seq!["ADMIN_API_KEY"@]
    }) + (if email {
        Seq::empty()
    } else {
        seq!["REMINDER_EMAIL_API_KEY"@]
    }) + (if sms {
        Seq::empty()
    } else {
        seq!["REMINDER_SMS_API_KEY"@]
    })
}

/// What to do about missing secrets.
pub open spec fn secrets_remediation(admin: bool, email: bool, sms: bool) -> Seq<char> {
    if admin && email && sms {
        ""@
    } else {
        "Set the following required environment variables before deploying to production: "@
            + text::join(missing_secrets(admin, email, sms), ", "@)
            + ". Unset keys leave admin and notification endpoints unauthenticated."@
    }
}

/// What to do about missing secrets.
fn secrets_advice(admin: bool, email: bool, sms: bool) -> (r: String)
    ensures
        r@ == secrets_remediation(admin, email, sms),
{
    if admin && email && sms {
        return "".to_owned();
    }
    let mut missing: Vec<String> = Vec::new();
    if !admin {
        missing.push("ADMIN_API_KEY".to_owned());
    }
    if !email {
        missing.push("REMINDER_EMAIL_API_KEY".to_owned());
    }
    if !sms {
        missing.push("REMINDER_SMS_API_KEY".to_owned());
    }
    assert(text::texts(missing@) =~= missing_secrets(admin, email, sms));
    let mut out =
        "Set the following required environment variables before deploying to production: ".to_owned();
    let names = text::join_list(&missing, ", ");
    out.append(names.as_str());
    out.append(". Unset keys leave admin and notification endpoints unauthenticated.");
    out
}


/// What the GDPR checks say in a deployment where these secrets are set or not.
pub open spec fn gdpr_rows(admin: bool, email: bool, sms: bool) -> Seq<CheckRow> {
    seq![
        row(
            "gdpr.data_minimisation"@,
            "Data Minimisation"@,
            "GDPR"@,
            ComplianceStatus::Pass,
            "Vault data stored by the backend is limited to owner address, beneficiary address, balance, check-in interval, and event timestamps. No unnecessary personal data is persisted."@,
            ""@,
        ),
        row(
            "gdpr.purpose_limitation"@,
            "Purpose Limitation"@,
            "GDPR"@,
            ComplianceStatus::Pass,
            "Collected data (vault state, audit logs, notification preferences) is used exclusively to operate the vault inheritance service. No secondary uses have been identified."@,
            ""@,
        ),
        row(
            "gdpr.storage_limitation"@,
            "Storage Limitation"@,
            "GDPR"@,
            ComplianceStatus::Warning,
            "Audit log entries are currently retained indefinitely. GDPR Article 5(1)(e) requires data to be kept for no longer than necessary."@,
            "Implement a configurable audit-log retention policy (e.g. rolling 12-month window) and schedule a periodic purge job."@,
        ),
        row(
            "gdpr.transparency"@,
            "Transparency & Privacy Notice"@,
            "GDPR"@,
            ComplianceStatus::Warning,
            "There is no machine-readable or linked privacy notice exposed via the API. Users should be informed of data processing purposes at the point of vault creation."@,
            "Add a /privacy endpoint or embed a privacy-notice URL in onboarding responses. Include the data controller identity, legal basis, and data subject rights."@,
        ),
        row(
            "gdpr.right_to_erasure"@,
            "Right to Erasure (Right to be Forgotten)"@,
            "GDPR"@,
            ComplianceStatus::Fail,
            "No API endpoint exists to honour a data-erasure request. The current schema stores owner addresses in vault records and audit logs without a deletion path."@,
            "Implement DELETE /api/users/{owner}/data that pseudonymises or removes vault and audit-log records associated with an owner address, subject to legal hold obligations."@,
        ),
        row(
            "gdpr.data_portability"@,
            "Data Portability"@,
            "GDPR"@,
            ComplianceStatus::Warning,
            "A JSON export endpoint (GET /api/vaults/{id}/export) exists but does not cover notification preferences, audit logs, or unsubscribe tokens."@,
            "Extend the export endpoint to include all data associated with the owner: notification preferences, delivery logs, and audit entries."@,
        ),
        row(
            "gdpr.privacy_by_design"@,
            "Privacy by Design & Default"@,
            "GDPR"@,
            ComplianceStatus::Pass,
            "Passkey/WebAuthn authentication avoids storing seed phrases or passwords. Vault balances are stored as i128 integers with no linkage to off-chain identity beyond the owner's Stellar address."@,
            ""@,
        ),
        row(
            "gdpr.security_of_processing"@,
            "Security of Processing"@,
            "GDPR"@,
            (if admin && email && sms { ComplianceStatus::Pass } else { ComplianceStatus::Fail }),
            "Checks that secrets (ADMIN_API_KEY, REMINDER_EMAIL_API_KEY, REMINDER_SMS_API_KEY) are present, indicating that sensitive endpoints are protected in this deployment."@,
            secrets_remediation(admin, email, sms),
        ),
    ]
}

/// The GDPR checks.
pub fn gdpr_checks(vars: &StrMap<String>) -> (r: Vec<ComplianceCheck>)
    ensures
        rows(r@) == gdpr_rows(
            is_set(vars@, "ADMIN_API_KEY"@),
            is_set(vars@, "REMINDER_EMAIL_API_KEY"@),
            is_set(vars@, "REMINDER_SMS_API_KEY"@),
        ),
{
    let admin: bool = env_is_set(vars, "ADMIN_API_KEY");
    let email: bool = env_is_set(vars, "REMINDER_EMAIL_API_KEY");
    let sms: bool = env_is_set(vars, "REMINDER_SMS_API_KEY");
    let advice = secrets_advice(admin, email, sms);
    let status = if admin && email && sms {
        ComplianceStatus::Pass
    } else {
        ComplianceStatus::Fail
    };
    let mut out: Vec<ComplianceCheck> = Vec::new();
    out.push(
        check(
            "gdpr.data_minimisation",
            "Data Minimisation",
            "GDPR",
            ComplianceStatus::Pass,
            "Vault data stored by the backend is limited to owner address, beneficiary address, balance, check-in interval, and event timestamps. No unnecessary personal data is persisted.",
            "",
        ),
    );
    out.push(
        check(
            "gdpr.purpose_limitation",
            "Purpose Limitation",
            "GDPR",
            ComplianceStatus::Pass,
            "Collected data (vault state, audit logs, notification preferences) is used exclusively to operate the vault inheritance service. No secondary uses have been identified.",
            "",
        ),
    );
    out.push(
        check(
            "gdpr.storage_limitation",
            "Storage Limitation",
            "GDPR",
            ComplianceStatus::Warning,
            "Audit log entries are currently retained indefinitely. GDPR Article 5(1)(e) requires data to be kept for no longer than necessary.",
            "Implement a configurable audit-log retention policy (e.g. rolling 12-month window) and schedule a periodic purge job.",
        ),
    );
    out.push(
        check(
            "gdpr.transparency",
            "Transparency & Privacy Notice",
            "GDPR",
            ComplianceStatus::Warning,
            "There is no machine-readable or linked privacy notice exposed via the API. Users should be informed of data processing purposes at the point of vault creation.",
            "Add a /privacy endpoint or embed a privacy-notice URL in onboarding responses. Include the data controller identity, legal basis, and data subject rights.",
        ),
    );
    out.push(
        check(
            "gdpr.right_to_erasure",
            "Right to Erasure (Right to be Forgotten)",
            "GDPR",
            ComplianceStatus::Fail,
            "No API endpoint exists to honour a data-erasure request. The current schema stores owner addresses in vault records and audit logs without a deletion path.",
            "Implement DELETE /api/users/{owner}/data that pseudonymises or removes vault and audit-log records associated with an owner address, subject to legal hold obligations.",
        ),
    );
    out.push(
        check(
            "gdpr.data_portability",
            "Data Portability",
            "GDPR",
            ComplianceStatus::Warning,
            "A JSON export endpoint (GET /api/vaults/{id}/export) exists but does not cover notification preferences, audit logs, or unsubscribe tokens.",
            "Extend the export endpoint to include all data associated with the owner: notification preferences, delivery logs, and audit entries.",
        ),
    );
    out.push(
        check(
            "gdpr.privacy_by_design",
            "Privacy by Design & Default",
            "GDPR",
            ComplianceStatus::Pass,
            "Passkey/WebAuthn authentication avoids storing seed phrases or passwords. Vault balances are stored as i128 integers with no linkage to off-chain identity beyond the owner's Stellar address.",
            "",
        ),
    );
    out.push(
        check(
            "gdpr.security_of_processing",
            "Security of Processing",
            "GDPR",
            status,
            "Checks that secrets (ADMIN_API_KEY, REMINDER_EMAIL_API_KEY, REMINDER_SMS_API_KEY) are present, indicating that sensitive endpoints are protected in this deployment.",
            advice.as_str(),
        ),
    );
    assert(rows(out@) =~= gdpr_rows(admin, email, sms));
    out
}


/// What the SOC 2 checks say in a deployment where an admin key and CORS origins are set or not.
pub open spec fn soc2_rows(admin: bool, cors: bool) -> Seq<CheckRow> {
    seq![
        row(
            "soc2.cc6_1_access_controls"@,
            "Logical Access Controls (CC6.1)"@,
            "SOC2"@,
            (if admin { ComplianceStatus::Pass } else { ComplianceStatus::Fail }),
            "The ADMIN_API_KEY environment variable gates all /admin/* endpoints. When set, bearer-token authentication is enforced by authorize_admin()."@,
            (if admin { ""@ } else { "Set ADMIN_API_KEY in the deployment environment to enforce admin access controls."@ }),
        ),
        row(
            "soc2.cc6_2_credential_issuance"@,
            "Credential Issuance Controls (CC6.2)"@,
            "SOC2"@,
            ComplianceStatus::Pass,
            "Vault access uses Passkey/WebAuthn credentials. No username/password pairs are issued, eliminating credential-stuffing and phishing attack surfaces."@,
            ""@,
        ),
        row(
            "soc2.cc6_3_access_revocation"@,
            "Access Revocation (CC6.3)"@,
            "SOC2"@,
            ComplianceStatus::Warning,
            "Share tokens can be revoked via DELETE /api/vaults/{id}/shares/tokens/{token}. However, there is no mechanism to revoke a compromised Passkey credential from the backend — revocation must occur at the authenticator level."@,
            "Implement a passkey revocation endpoint that marks a passkey hash as revoked and rejects future authentication attempts from that credential."@,
        ),
        row(
            "soc2.cc7_1_monitoring"@,
            "System Monitoring & Anomaly Detection (CC7.1)"@,
            "SOC2"@,
            ComplianceStatus::Pass,
            "Structured tracing (tracing_subscriber) and a /metrics endpoint are present. Audit-log middleware records every API request with method, path, status code, IP address, and user identity."@,
            ""@,
        ),
        row(
            "soc2.cc7_2_incident_response"@,
            "Incident Response Procedures (CC7.2)"@,
            "SOC2"@,
            ComplianceStatus::Warning,
            "No documented incident-response runbook is present in the repository."@,
            "Create an INCIDENT_RESPONSE.md document covering detection, containment, eradication, recovery, and post-incident review steps. Link it from SECURITY.md."@,
        ),
        row(
            "soc2.cc8_1_change_management"@,
            "Change Management (CC8.1)"@,
            "SOC2"@,
            ComplianceStatus::Pass,
            "CI/CD pipeline (GitHub Actions) runs the full test suite on every pull request. Deployment scripts include environment-specific confirmation prompts for mainnet."@,
            ""@,
        ),
        row(
            "soc2.cc9_1_risk_assessment"@,
            "Risk Assessment (CC9.1)"@,
            "SOC2"@,
            ComplianceStatus::Pass,
            "A threat model and security policy document (docs/security.md and SECURITY.md) are present, covering known attack vectors and disclosure procedures."@,
            ""@,
        ),
        row(
            "soc2.a1_1_availability_cors"@,
            "Availability — CORS Policy (A1.1)"@,
            "SOC2"@,
            (if cors { ComplianceStatus::Pass } else { ComplianceStatus::Warning }),
            "ALLOWED_ORIGINS controls the CORS allow-list. A restrictive origin policy reduces the risk of cross-origin data exfiltration."@,
            (if cors { ""@ } else { "Set ALLOWED_ORIGINS to a comma-separated list of trusted frontend origins. Leaving it empty permits all origins in the current CorsLayer configuration."@ }),
        ),
    ]
}

/// The SOC 2 checks.
pub fn soc2_checks(vars: &StrMap<String>) -> (r: Vec<ComplianceCheck>)
    ensures
        rows(r@) == soc2_rows(is_set(vars@, "ADMIN_API_KEY"@), is_set(vars@, "ALLOWED_ORIGINS"@)),
{
    let admin: bool = env_is_set(vars, "ADMIN_API_KEY");
    let cors: bool = env_is_set(vars, "ALLOWED_ORIGINS");
    let mut out: Vec<ComplianceCheck> = Vec::new();
    out.push(
        check(
            "soc2.cc6_1_access_controls",
            "Logical Access Controls (CC6.1)",
            "SOC2",
            if admin { ComplianceStatus::Pass } else { ComplianceStatus::Fail },
            "The ADMIN_API_KEY environment variable gates all /admin/* endpoints. When set, bearer-token authentication is enforced by authorize_admin().",
            if admin { "" } else { "Set ADMIN_API_KEY in the deployment environment to enforce admin access controls." },
        ),
    );
    out.push(
        check(
            "soc2.cc6_2_credential_issuance",
            "Credential Issuance Controls (CC6.2)",
            "SOC2",
            ComplianceStatus::Pass,
            "Vault access uses Passkey/WebAuthn credentials. No username/password pairs are issued, eliminating credential-stuffing and phishing attack surfaces.",
            "",
        ),
    );
    out.push(
        check(
            "soc2.cc6_3_access_revocation",
            "Access Revocation (CC6.3)",
            "SOC2",
            ComplianceStatus::Warning,
            "Share tokens can be revoked via DELETE /api/vaults/{id}/shares/tokens/{token}. However, there is no mechanism to revoke a compromised Passkey credential from the backend — revocation must occur at the authenticator level.",
            "Implement a passkey revocation endpoint that marks a passkey hash as revoked and rejects future authentication attempts from that credential.",
        ),
    );
    out.push(
        check(
            "soc2.cc7_1_monitoring",
            "System Monitoring & Anomaly Detection (CC7.1)",
            "SOC2",
            ComplianceStatus::Pass,
            "Structured tracing (tracing_subscriber) and a /metrics endpoint are present. Audit-log middleware records every API request with method, path, status code, IP address, and user identity.",
            "",
        ),
    );
    out.push(
        check(
            "soc2.cc7_2_incident_response",
            "Incident Response Procedures (CC7.2)",
            "SOC2",
            ComplianceStatus::Warning,
            "No documented incident-response runbook is present in the repository.",
            "Create an INCIDENT_RESPONSE.md document covering detection, containment, eradication, recovery, and post-incident review steps. Link it from SECURITY.md.",
        ),
    );
    out.push(
        check(
            "soc2.cc8_1_change_management",
            "Change Management (CC8.1)",
            "SOC2",
            ComplianceStatus::Pass,
            "CI/CD pipeline (GitHub Actions) runs the full test suite on every pull request. Deployment scripts include environment-specific confirmation prompts for mainnet.",
            "",
        ),
    );
    out.push(
        check(
            "soc2.cc9_1_risk_assessment",
            "Risk Assessment (CC9.1)",
            "SOC2",
            ComplianceStatus::Pass,
            "A threat model and security policy document (docs/security.md and SECURITY.md) are present, covering known attack vectors and disclosure procedures.",
            "",
        ),
    );
    out.push(
        check(
            "soc2.a1_1_availability_cors",
            "Availability — CORS Policy (A1.1)",
            "SOC2",
            if cors { ComplianceStatus::Pass } else { ComplianceStatus::Warning },
            "ALLOWED_ORIGINS controls the CORS allow-list. A restrictive origin policy reduces the risk of cross-origin data exfiltration.",
            if cors { "" } else { "Set ALLOWED_ORIGINS to a comma-separated list of trusted frontend origins. Leaving it empty permits all origins in the current CorsLayer configuration." },
        ),
    );
    assert(rows(out@) =~= soc2_rows(admin, cors));
    out
}


/// What the ISO 27001 checks say in a deployment.
pub open spec fn iso27001_rows() -> Seq<CheckRow> {
    seq![
        row(
            "iso27001.a9_1_access_control_policy"@,
            "Access Control Policy (A.9.1)"@,
            "ISO27001"@,
            ComplianceStatus::Pass,
            "Admin endpoints are protected by bearer-token authentication enforced in authorize_admin(). Vault-level actions are scoped to the owner's Stellar address."@,
            ""@,
        ),
        row(
            "iso27001.a9_4_app_access_control"@,
            "Application Access Control (A.9.4)"@,
            "ISO27001"@,
            ComplianceStatus::Pass,
            "Two-factor authentication (TOTP, SMS, Email) is available per vault via the /api/vaults/{id}/2fa/* endpoints. Share tokens implement time-limited, permission-scoped access delegation."@,
            ""@,
        ),
        row(
            "iso27001.a10_1_cryptographic_controls"@,
            "Cryptographic Controls (A.10.1)"@,
            "ISO27001"@,
            ComplianceStatus::Pass,
            "Vault backups are AES-GCM encrypted before storage. Passkey authentication relies on WebAuthn public-key cryptography. No plaintext secrets are persisted in the database."@,
            ""@,
        ),
        row(
            "iso27001.a12_1_operational_procedures"@,
            "Operational Procedures (A.12.1)"@,
            "ISO27001"@,
            ComplianceStatus::Warning,
            "Deployment scripts exist for testnet and mainnet, but no formal operating procedure document covers routine tasks such as key rotation, database backups, or on-call escalation."@,
            "Create a docs/operations.md runbook covering key-rotation procedures, backup schedules, restore drills, and on-call contacts."@,
        ),
        row(
            "iso27001.a12_4_logging"@,
            "Logging & Monitoring (A.12.4)"@,
            "ISO27001"@,
            ComplianceStatus::Pass,
            "All API requests are logged to the audit store via audit_middleware. Structured logs are emitted via the tracing crate. The /api/audit-logs endpoint allows administrators to query the audit trail."@,
            ""@,
        ),
        row(
            "iso27001.a12_6_vulnerability_management"@,
            "Technical Vulnerability Management (A.12.6)"@,
            "ISO27001"@,
            ComplianceStatus::Warning,
            "No automated dependency-vulnerability scanning (e.g. cargo-audit) is configured in the CI pipeline."@,
            "Add a `cargo audit` step to the CI workflow and configure Dependabot or RenovateBot to open PRs for dependency updates."@,
        ),
        row(
            "iso27001.a14_2_secure_development"@,
            "Security in Development (A.14.2)"@,
            "ISO27001"@,
            ComplianceStatus::Pass,
            "The CI pipeline runs `cargo test` and enforces code review via pull requests. A SECURITY.md vulnerability-disclosure policy is present in the repository."@,
            ""@,
        ),
        row(
            "iso27001.a16_1_incident_management"@,
            "Incident Management (A.16.1)"@,
            "ISO27001"@,
            ComplianceStatus::Warning,
            "SECURITY.md describes responsible disclosure but does not detail internal incident classification, escalation paths, or SLA commitments."@,
            "Expand SECURITY.md or create INCIDENT_RESPONSE.md with severity levels, response-time SLAs, internal escalation matrix, and post-incident review requirements."@,
        ),
        row(
            "iso27001.a18_1_legal_compliance"@,
            "Legal & Contractual Compliance (A.18.1)"@,
            "ISO27001"@,
            ComplianceStatus::NotApplicable,
            "Specific legal or contractual obligations (HIPAA, PCI-DSS, etc.) have not been identified for this deployment. Assessment should be revisited for each production deployment region."@,
            ""@,
        ),
    ]
}

/// The ISO 27001 checks.
pub fn iso27001_checks() -> (r: Vec<ComplianceCheck>)
    ensures
        rows(r@) == iso27001_rows(),
{
    let mut out: Vec<ComplianceCheck> = Vec::new();
    out.push(
        check(
            "iso27001.a9_1_access_control_policy",
            "Access Control Policy (A.9.1)",
            "ISO27001",
            ComplianceStatus::Pass,
            "Admin endpoints are protected by bearer-token authentication enforced in authorize_admin(). Vault-level actions are scoped to the owner's Stellar address.",
            "",
        ),
    );
    out.push(
        check(
            "iso27001.a9_4_app_access_control",
            "Application Access Control (A.9.4)",
            "ISO27001",
            ComplianceStatus::Pass,
            "Two-factor authentication (TOTP, SMS, Email) is available per vault via the /api/vaults/{id}/2fa/* endpoints. Share tokens implement time-limited, permission-scoped access delegation.",
            "",
        ),
    );
    out.push(
        check(
            "iso27001.a10_1_cryptographic_controls",
            "Cryptographic Controls (A.10.1)",
            "ISO27001",
            ComplianceStatus::Pass,
            "Vault backups are AES-GCM encrypted before storage. Passkey authentication relies on WebAuthn public-key cryptography. No plaintext secrets are persisted in the database.",
            "",
        ),
    );
    out.push(
        check(
            "iso27001.a12_1_operational_procedures",
            "Operational Procedures (A.12.1)",
            "ISO27001",
            ComplianceStatus::Warning,
            "Deployment scripts exist for testnet and mainnet, but no formal operating procedure document covers routine tasks such as key rotation, database backups, or on-call escalation.",
            "Create a docs/operations.md runbook covering key-rotation procedures, backup schedules, restore drills, and on-call contacts.",
        ),
    );
    out.push(
        check(
            "iso27001.a12_4_logging",
            "Logging & Monitoring (A.12.4)",
            "ISO27001",
            ComplianceStatus::Pass,
            "All API requests are logged to the audit store via audit_middleware. Structured logs are emitted via the tracing crate. The /api/audit-logs endpoint allows administrators to query the audit trail.",
            "",
        ),
    );
    out.push(
        check(
            "iso27001.a12_6_vulnerability_management",
            "Technical Vulnerability Management (A.12.6)",
            "ISO27001",
            ComplianceStatus::Warning,
            "No automated dependency-vulnerability scanning (e.g. cargo-audit) is configured in the CI pipeline.",
            "Add a `cargo audit` step to the CI workflow and configure Dependabot or RenovateBot to open PRs for dependency updates.",
        ),
    );
    out.push(
        check(
            "iso27001.a14_2_secure_development",
            "Security in Development (A.14.2)",
            "ISO27001",
            ComplianceStatus::Pass,
            "The CI pipeline runs `cargo test` and enforces code review via pull requests. A SECURITY.md vulnerability-disclosure policy is present in the repository.",
            "",
        ),
    );
    out.push(
        check(
            "iso27001.a16_1_incident_management",
            "Incident Management (A.16.1)",
            "ISO27001",
            ComplianceStatus::Warning,
            "SECURITY.md describes responsible disclosure but does not detail internal incident classification, escalation paths, or SLA commitments.",
            "Expand SECURITY.md or create INCIDENT_RESPONSE.md with severity levels, response-time SLAs, internal escalation matrix, and post-incident review requirements.",
        ),
    );
    out.push(
        check(
            "iso27001.a18_1_legal_compliance",
            "Legal & Contractual Compliance (A.18.1)",
            "ISO27001",
            ComplianceStatus::NotApplicable,
            "Specific legal or contractual obligations (HIPAA, PCI-DSS, etc.) have not been identified for this deployment. Assessment should be revisited for each production deployment region.",
            "",
        ),
    );
    assert(rows(out@) =~= iso27001_rows());
    out
}

/// What all checks say in a deployment with the given variables.
pub open spec fn all_rows(vars: Map<Seq<char>, String>) -> Seq<CheckRow> {
    gdpr_rows(
        is_set(vars, "ADMIN_API_KEY"@),
        is_set(vars, "REMINDER_EMAIL_API_KEY"@),
        is_set(vars, "REMINDER_SMS_API_KEY"@),
    ) + soc2_rows(is_set(vars, "ADMIN_API_KEY"@), is_set(vars, "ALLOWED_ORIGINS"@))
        + iso27001_rows()
}

/// Execute all GDPR, SOC 2, and ISO 27001 compliance checks and return the
/// individual [`ComplianceCheck`] results, evaluated against the variables of
/// the deployment's environment.
pub fn run_compliance_checks(vars: &StrMap<String>) -> (r: Vec<ComplianceCheck>)
    ensures
        rows(r@) == all_rows(vars@),
{
    let mut checks: Vec<ComplianceCheck> = Vec::new();
    let mut gdpr = gdpr_checks(vars);
    let mut soc2 = soc2_checks(vars);
    let mut iso = iso27001_checks();
    let ghost parts = rows(gdpr@) + rows(soc2@) + rows(iso@);
    checks.append(&mut gdpr);
    checks.append(&mut soc2);
    checks.append(&mut iso);
    assert(rows(checks@) =~= parts);
    checks
}

/// Whether `v` is the placeholder of a rendered report: its format, its version,
/// a note and an empty content, and nothing else.
pub open spec fn is_pdf_stub(v: Json) -> bool {
    &&& v.member_text("format"@) == Some("pdf"@)
    &&& v.member_text("version"@) == Some("1.0"@)
    &&& v.member_text("note"@) == Some(
        "PDF generation requires an external renderer. Use the JSON report fields to produce a PDF via your preferred tooling."@,
    )
    &&& v.member_text("placeholder_base64"@) == Some(""@)
    &&& forall|k: Seq<char>|
        k != "format"@ && k != "version"@ && k != "note"@ && k != "placeholder_base64"@
            ==> #[trigger] v.member(k) is None
}

/// A placeholder where a rendered report would be embedded. Rendering is left
/// to tools that read the report's fields.
pub fn generate_pdf_stub() -> (r: Json)
    ensures
        is_pdf_stub(r),
{
    proof {
        reveal_strlit("format");
        reveal_strlit("version");
        reveal_strlit("note");
        reveal_strlit("placeholder_base64");
        assert("format"@.len() == 6 && "version"@.len() == 7 && "note"@.len() == 4);
        assert("placeholder_base64"@.len() == 18);
    }
    Json::object().with("format", Json::text("pdf")).with("version", Json::text("1.0")).with(
        "note",
        Json::text(
            "PDF generation requires an external renderer. Use the JSON report fields to produce a PDF via your preferred tooling.",
        ),
    ).with("placeholder_base64", Json::text(""))
}

/// How many of the checks have the given outcome.
pub open spec fn count_status(checks: Seq<CheckRow>, status: ComplianceStatus) -> nat
    decreases checks.len(),
{
    if checks.len() == 0 {
        0
    } else {
        count_status(checks.drop_last(), status) + if checks.last().status == status {
            1nat
        } else {
            0nat
        }
    }
}

/// How many of the checks have the given outcome.
fn count(checks: &Vec<ComplianceCheck>, status: ComplianceStatus) -> (r: usize)
    ensures
        r == count_status(rows(checks@), status),
{
    let mut n: usize = 0;
    let mut i: usize = 0;
    while i < checks.len()
        invariant
            i <= checks.len(),
            n <= i,
            n == count_status(rows(checks@).take(i as int), status),
        decreases checks.len() - i,
    {
        assert(rows(checks@).take(i + 1).drop_last() =~= rows(checks@).take(i as int));
        if checks[i].status == status {
            n += 1;
        }
        i += 1;
    }
    assert(rows(checks@).take(i as int) =~= rows(checks@));
    n
}

/// Whether `r` is the report over checks that say `all`, whatever its date.
pub open spec fn reports(r: ComplianceAuditReport, all: Seq<CheckRow>) -> bool {
    &&& rows(r.checks@) == all
    &&& r.total_checks == all.len()
    &&& r.passed == count_status(all, ComplianceStatus::Pass)
    &&& r.failed == count_status(all, ComplianceStatus::Fail)
    &&& r.warnings == count_status(all, ComplianceStatus::Warning)
    &&& r.not_applicable == count_status(all, ComplianceStatus::NotApplicable)
    &&& is_pdf_stub(r.pdf_stub)
}

/// The report over a list of checks, made at `now`.
pub fn build_report(checks: Vec<ComplianceCheck>, now: Timestamp) -> (r: ComplianceAuditReport)
    ensures
        reports(r, rows(checks@)),
        r.generated_at == now,
{
    ComplianceAuditReport {
        generated_at: now,
        total_checks: checks.len(),
        passed: count(&checks, ComplianceStatus::Pass),
        failed: count(&checks, ComplianceStatus::Fail),
        warnings: count(&checks, ComplianceStatus::Warning),
        not_applicable: count(&checks, ComplianceStatus::NotApplicable),
        checks,
        pdf_stub: generate_pdf_stub(),
    }
}

/// The answer to a request for the compliance report at `now`: the report for
/// a caller with the admin key, the error text for everyone else.
pub fn compliance_report(
    vars: &StrMap<String>,
    headers: &StrMap<String>,
    now: Timestamp,
) -> (r: Result<ComplianceReportResponse, String>)
    ensures
        match r {
            Ok(resp) => audit::admin_admitted(vars@, headers@) && reports(
                resp.report,
                all_rows(vars@),
            ) && resp.report.generated_at == now,
            Err(msg) => !audit::admin_admitted(vars@, headers@) && msg@
                == "valid admin API key required"@,
        },
{
    match audit::authorize_admin(vars, headers) {
        Ok(()) => Ok(
            ComplianceReportResponse { report: build_report(run_compliance_checks(vars), now) },
        ),
        Err(_) => Err("valid admin API key required".to_owned()),
    }
}

/// Whether a check names itself, its framework and what it looks at, and
/// offers remediation exactly where there is something to mend.
pub open spec fn complete(r: CheckRow) -> bool {
    &&& r.id.len() > 0
    &&& r.name.len() > 0
    &&& r.framework.len() > 0
    &&& r.description.len() > 0
    &&& r.status == ComplianceStatus::Pass ==> r.remediation.len() == 0
    &&& r.status == ComplianceStatus::Fail || r.status == ComplianceStatus::Warning
        ==> r.remediation.len() > 0
}

/// Every GDPR check names itself, its framework and what it looks at. It offers
/// no remediation when it passes and some when it fails or warns.
pub proof fn law_gdpr_checks_are_complete(admin: bool, email: bool, sms: bool)
    ensures
        forall|i: int| 0 <= i < gdpr_rows(admin, email, sms).len() ==> complete(#[trigger] gdpr_rows(admin, email, sms)[i]),
{
    let all = gdpr_rows(admin, email, sms);
    assert(""@.len() == 0) by {
        reveal_strlit("");
    }
    assert(complete(all[0])) by {
        reveal_strlit("gdpr.data_minimisation");
        reveal_strlit("Data Minimisation");
        reveal_strlit("GDPR");
        reveal_strlit("Vault data stored by the backend is limited to owner address, beneficiary address, balance, check-in interval, and event timestamps. No unnecessary personal data is persisted.");
    }
    assert(complete(all[1])) by {
        reveal_strlit("gdpr.purpose_limitation");
        reveal_strlit("Purpose Limitation");
        reveal_strlit("GDPR");
        reveal_strlit("Collected data (vault state, audit logs, notification preferences) is used exclusively to operate the vault inheritance service. No secondary uses have been identified.");
    }
    assert(complete(all[2])) by {
        reveal_strlit("gdpr.storage_limitation");
        reveal_strlit("Storage Limitation");
        reveal_strlit("GDPR");
        reveal_strlit("Audit log entries are currently retained indefinitely. GDPR Article 5(1)(e) requires data to be kept for no longer than necessary.");
        reveal_strlit("Implement a configurable audit-log retention policy (e.g. rolling 12-month window) and schedule a periodic purge job.");
    }
    assert(complete(all[3])) by {
        reveal_strlit("gdpr.transparency");
        reveal_strlit("Transparency & Privacy Notice");
        reveal_strlit("GDPR");
        reveal_strlit("There is no machine-readable or linked privacy notice exposed via the API. Users should be informed of data processing purposes at the point of vault creation.");
        reveal_strlit("Add a /privacy endpoint or embed a privacy-notice URL in onboarding responses. Include the data controller identity, legal basis, and data subject rights.");
    }
    assert(complete(all[4])) by {
        reveal_strlit("gdpr.right_to_erasure");
        reveal_strlit("Right to Erasure (Right to be Forgotten)");
        reveal_strlit("GDPR");
        reveal_strlit("No API endpoint exists to honour a data-erasure request. The current schema stores owner addresses in vault records and audit logs without a deletion path.");
        reveal_strlit("Implement DELETE /api/users/{owner}/data that pseudonymises or removes vault and audit-log records associated with an owner address, subject to legal hold obligations.");
    }
    assert(complete(all[5])) by {
        reveal_strlit("gdpr.data_portability");
        reveal_strlit("Data Portability");
        reveal_strlit("GDPR");
        reveal_strlit("A JSON export endpoint (GET /api/vaults/{id}/export) exists but does not cover notification preferences, audit logs, or unsubscribe tokens.");
        reveal_strlit("Extend the export endpoint to include all data associated with the owner: notification preferences, delivery logs, and audit entries.");
    }
    assert(complete(all[6])) by {
        reveal_strlit("gdpr.privacy_by_design");
        reveal_strlit("Privacy by Design & Default");
        reveal_strlit("GDPR");
        reveal_strlit("Passkey/WebAuthn authentication avoids storing seed phrases or passwords. Vault balances are stored as i128 integers with no linkage to off-chain identity beyond the owner's Stellar address.");
    }
    assert(complete(all[7])) by {
        reveal_strlit("gdpr.security_of_processing");
        reveal_strlit("Security of Processing");
        reveal_strlit("GDPR");
        reveal_strlit("Checks that secrets (ADMIN_API_KEY, REMINDER_EMAIL_API_KEY, REMINDER_SMS_API_KEY) are present, indicating that sensitive endpoints are protected in this deployment.");
        reveal_strlit("Set the following required environment variables before deploying to production: ");
    }
    assert forall|i: int| 0 <= i < all.len() implies complete(#[trigger] all[i]) by {
        assert(i == 0 || i == 1 || i == 2 || i == 3 || i == 4 || i == 5 || i == 6 || i == 7);
    }
}

/// Every SOC 2 check names itself, its framework and what it looks at. It offers
/// no remediation when it passes and some when it fails or warns.
pub proof fn law_soc2_checks_are_complete(admin: bool, cors: bool)
    ensures
        forall|i: int| 0 <= i < soc2_rows(admin, cors).len() ==> complete(#[trigger] soc2_rows(admin, cors)[i]),
{
    let all = soc2_rows(admin, cors);
    assert(""@.len() == 0) by {
        reveal_strlit("");
    }
    assert(complete(all[0])) by {
        reveal_strlit("soc2.cc6_1_access_controls");
        reveal_strlit("Logical Access Controls (CC6.1)");
        reveal_strlit("SOC2");
        reveal_strlit("The ADMIN_API_KEY environment variable gates all /admin/* endpoints. When set, bearer-token authentication is enforced by authorize_admin().");
        reveal_strlit("Set ADMIN_API_KEY in the deployment environment to enforce admin access controls.");
    }
    assert(complete(all[1])) by {
        reveal_strlit("soc2.cc6_2_credential_issuance");
        reveal_strlit("Credential Issuance Controls (CC6.2)");
        reveal_strlit("SOC2");
        reveal_strlit("Vault access uses Passkey/WebAuthn credentials. No username/password pairs are issued, eliminating credential-stuffing and phishing attack surfaces.");
    }
    assert(complete(all[2])) by {
        reveal_strlit("soc2.cc6_3_access_revocation");
        reveal_strlit("Access Revocation (CC6.3)");
        reveal_strlit("SOC2");
        reveal_strlit("Share tokens can be revoked via DELETE /api/vaults/{id}/shares/tokens/{token}. However, there is no mechanism to revoke a compromised Passkey credential from the backend — revocation must occur at the authenticator level.");
        reveal_strlit("Implement a passkey revocation endpoint that marks a passkey hash as revoked and rejects future authentication attempts from that credential.");
    }
    assert(complete(all[3])) by {
        reveal_strlit("soc2.cc7_1_monitoring");
        reveal_strlit("System Monitoring & Anomaly Detection (CC7.1)");
        reveal_strlit("SOC2");
        reveal_strlit("Structured tracing (tracing_subscriber) and a /metrics endpoint are present. Audit-log middleware records every API request with method, path, status code, IP address, and user identity.");
    }
    assert(complete(all[4])) by {
        reveal_strlit("soc2.cc7_2_incident_response");
        reveal_strlit("Incident Response Procedures (CC7.2)");
        reveal_strlit("SOC2");
        reveal_strlit("No documented incident-response runbook is present in the repository.");
        reveal_strlit("Create an INCIDENT_RESPONSE.md document covering detection, containment, eradication, recovery, and post-incident review steps. Link it from SECURITY.md.");
    }
    assert(complete(all[5])) by {
        reveal_strlit("soc2.cc8_1_change_management");
        reveal_strlit("Change Management (CC8.1)");
        reveal_strlit("SOC2");
        reveal_strlit("CI/CD pipeline (GitHub Actions) runs the full test suite on every pull request. Deployment scripts include environment-specific confirmation prompts for mainnet.");
    }
    assert(complete(all[6])) by {
        reveal_strlit("soc2.cc9_1_risk_assessment");
        reveal_strlit("Risk Assessment (CC9.1)");
        reveal_strlit("SOC2");
        reveal_strlit("A threat model and security policy document (docs/security.md and SECURITY.md) are present, covering known attack vectors and disclosure procedures.");
    }
    assert(complete(all[7])) by {
        reveal_strlit("soc2.a1_1_availability_cors");
        reveal_strlit("Availability — CORS Policy (A1.1)");
        reveal_strlit("SOC2");
        reveal_strlit("ALLOWED_ORIGINS controls the CORS allow-list. A restrictive origin policy reduces the risk of cross-origin data exfiltration.");
        reveal_strlit("Set ALLOWED_ORIGINS to a comma-separated list of trusted frontend origins. Leaving it empty permits all origins in the current CorsLayer configuration.");
    }
    assert forall|i: int| 0 <= i < all.len() implies complete(#[trigger] all[i]) by {
        assert(i == 0 || i == 1 || i == 2 || i == 3 || i == 4 || i == 5 || i == 6 || i == 7);
    }
}

/// Every ISO 27001 check names itself, its framework and what it looks at. It offers
/// no remediation when it passes and some when it fails or warns.
pub proof fn law_iso27001_checks_are_complete()
    ensures
        forall|i: int| 0 <= i < iso27001_rows().len() ==> complete(#[trigger] iso27001_rows()[i]),
{
    let all = iso27001_rows();
    assert(""@.len() == 0) by {
        reveal_strlit("");
    }
    assert(complete(all[0])) by {
        reveal_strlit("iso27001.a9_1_access_control_policy");
        reveal_strlit("Access Control Policy (A.9.1)");
        reveal_strlit("ISO27001");
        reveal_strlit("Admin endpoints are protected by bearer-token authentication enforced in authorize_admin(). Vault-level actions are scoped to the owner's Stellar address.");
    }
    assert(complete(all[1])) by {
        reveal_strlit("iso27001.a9_4_app_access_control");
        reveal_strlit("Application Access Control (A.9.4)");
        reveal_strlit("ISO27001");
        reveal_strlit("Two-factor authentication (TOTP, SMS, Email) is available per vault via the /api/vaults/{id}/2fa/* endpoints. Share tokens implement time-limited, permission-scoped access delegation.");
    }
    assert(complete(all[2])) by {
        reveal_strlit("iso27001.a10_1_cryptographic_controls");
        reveal_strlit("Cryptographic Controls (A.10.1)");
        reveal_strlit("ISO27001");
        reveal_strlit("Vault backups are AES-GCM encrypted before storage. Passkey authentication relies on WebAuthn public-key cryptography. No plaintext secrets are persisted in the database.");
    }
    assert(complete(all[3])) by {
        reveal_strlit("iso27001.a12_1_operational_procedures");
        reveal_strlit("Operational Procedures (A.12.1)");
        reveal_strlit("ISO27001");
        reveal_strlit("Deployment scripts exist for testnet and mainnet, but no formal operating procedure document covers routine tasks such as key rotation, database backups, or on-call escalation.");
        reveal_strlit("Create a docs/operations.md runbook covering key-rotation procedures, backup schedules, restore drills, and on-call contacts.");
    }
    assert(complete(all[4])) by {
        reveal_strlit("iso27001.a12_4_logging");
        reveal_strlit("Logging & Monitoring (A.12.4)");
        reveal_strlit("ISO27001");
        reveal_strlit("All API requests are logged to the audit store via audit_middleware. Structured logs are emitted via the tracing crate. The /api/audit-logs endpoint allows administrators to query the audit trail.");
    }
    assert(complete(all[5])) by {
        reveal_strlit("iso27001.a12_6_vulnerability_management");
        reveal_strlit("Technical Vulnerability Management (A.12.6)");
        reveal_strlit("ISO27001");
        reveal_strlit("No automated dependency-vulnerability scanning (e.g. cargo-audit) is configured in the CI pipeline.");
        reveal_strlit("Add a `cargo audit` step to the CI workflow and configure Dependabot or RenovateBot to open PRs for dependency updates.");
    }
    assert(complete(all[6])) by {
        reveal_strlit("iso27001.a14_2_secure_development");
        reveal_strlit("Security in Development (A.14.2)");
        reveal_strlit("ISO27001");
        reveal_strlit("The CI pipeline runs `cargo test` and enforces code review via pull requests. A SECURITY.md vulnerability-disclosure policy is present in the repository.");
    }
    assert(complete(all[7])) by {
        reveal_strlit("iso27001.a16_1_incident_management");
        reveal_strlit("Incident Management (A.16.1)");
        reveal_strlit("ISO27001");
        reveal_strlit("SECURITY.md describes responsible disclosure but does not detail internal incident classification, escalation paths, or SLA commitments.");
        reveal_strlit("Expand SECURITY.md or create INCIDENT_RESPONSE.md with severity levels, response-time SLAs, internal escalation matrix, and post-incident review requirements.");
    }
    assert(complete(all[8])) by {
        reveal_strlit("iso27001.a18_1_legal_compliance");
        reveal_strlit("Legal & Contractual Compliance (A.18.1)");
        reveal_strlit("ISO27001");
        reveal_strlit("Specific legal or contractual obligations (HIPAA, PCI-DSS, etc.) have not been identified for this deployment. Assessment should be revisited for each production deployment region.");
    }
    assert forall|i: int| 0 <= i < all.len() implies complete(#[trigger] all[i]) by {
        assert(i == 0 || i == 1 || i == 2 || i == 3 || i == 4 || i == 5 || i == 6 || i == 7 || i == 8);
    }
}

/// The four outcomes account for every check of a list.
pub proof fn law_outcomes_add_up(checks: Seq<CheckRow>)
    ensures
        count_status(checks, ComplianceStatus::Pass) + count_status(checks, ComplianceStatus::Fail)
            + count_status(checks, ComplianceStatus::Warning) + count_status(
            checks,
            ComplianceStatus::NotApplicable,
        ) == checks.len(),
    decreases checks.len(),
{
    if checks.len() > 0 {
        law_outcomes_add_up(checks.drop_last());
    }
}

/// In every deployment every check is complete: it passes without remediation
/// or fails with some.
pub proof fn law_all_checks_are_complete(vars: Map<Seq<char>, String>)
    ensures
        forall|i: int| 0 <= i < all_rows(vars).len() ==> complete(#[trigger] all_rows(vars)[i]),
{
    let admin = is_set(vars, "ADMIN_API_KEY"@);
    let email = is_set(vars, "REMINDER_EMAIL_API_KEY"@);
    let sms = is_set(vars, "REMINDER_SMS_API_KEY"@);
    let cors = is_set(vars, "ALLOWED_ORIGINS"@);
    law_gdpr_checks_are_complete(admin, email, sms);
    law_soc2_checks_are_complete(admin, cors);
    law_iso27001_checks_are_complete();
    let g = gdpr_rows(admin, email, sms);
    let s = soc2_rows(admin, cors);
    let o = iso27001_rows();
    assert forall|i: int| 0 <= i < all_rows(vars).len() implies complete(
        #[trigger] all_rows(vars)[i],
    ) by {
        if i < g.len() {
            assert(all_rows(vars)[i] == g[i]);
        } else if i < g.len() + s.len() {
            assert(all_rows(vars)[i] == s[i - g.len()]);
        } else {
            assert(all_rows(vars)[i] == o[i - g.len() - s.len()]);
        }
    }
}

/// The place of a check among all checks, told by the length of its id and,
/// where others have that length, by one of its characters.
spec fn place_of_id(id: Seq<char>) -> int {
    if id.len() == 17 {
        3
    } else if id.len() == 21 {
        if id[5] == 'r' {
            4
        } else if id[5] == 'd' {
            5
        } else {
            11
        }
    } else if id.len() == 22 {
        if id[5] == 'd' {
            0
        } else if id[5] == 'p' {
            6
        } else {
            20
        }
    } else if id.len() == 23 {
        if id[5] == 'p' {
            1
        } else {
            2
        }
    } else if id.len() == 26 {
        if id[7] == '6' {
            8
        } else {
            14
        }
    } else if id.len() == 27 {
        if id[5] == 's' {
            7
        } else {
            15
        }
    } else if id.len() == 28 {
        if id[7] == '6' {
            10
        } else if id[7] == '7' {
            12
        } else {
            13
        }
    } else if id.len() == 30 {
        9
    } else if id.len() == 31 {
        24
    } else if id.len() == 32 {
        17
    } else if id.len() == 33 {
        22
    } else if id.len() == 34 {
        23
    } else if id.len() == 35 {
        16
    } else if id.len() == 37 {
        if id[11] == '0' {
            18
        } else {
            19
        }
    } else if id.len() == 39 {
        21
    } else {
        -1
    }
}

/// Every check of its framework stands in its place.
proof fn lemma_gdpr_places(admin: bool, email: bool, sms: bool)
    ensures
        forall|i: int|
            0 <= i < gdpr_rows(admin, email, sms).len() ==> place_of_id((#[trigger] gdpr_rows(admin, email, sms)[i]).id) == i,
{
    let all = gdpr_rows(admin, email, sms);
    assert(place_of_id(all[0].id) == 0) by {
        reveal_strlit("gdpr.data_minimisation");
    }
    assert(place_of_id(all[1].id) == 1) by {
        reveal_strlit("gdpr.purpose_limitation");
    }
    assert(place_of_id(all[2].id) == 2) by {
        reveal_strlit("gdpr.storage_limitation");
    }
    assert(place_of_id(all[3].id) == 3) by {
        reveal_strlit("gdpr.transparency");
    }
    assert(place_of_id(all[4].id) == 4) by {
        reveal_strlit("gdpr.right_to_erasure");
    }
    assert(place_of_id(all[5].id) == 5) by {
        reveal_strlit("gdpr.data_portability");
    }
    assert(place_of_id(all[6].id) == 6) by {
        reveal_strlit("gdpr.privacy_by_design");
    }
    assert(place_of_id(all[7].id) == 7) by {
        reveal_strlit("gdpr.security_of_processing");
    }
}

/// Every check of its framework stands in its place.
proof fn lemma_soc2_places(admin: bool, cors: bool)
    ensures
        forall|i: int|
            0 <= i < soc2_rows(admin, cors).len() ==> place_of_id((#[trigger] soc2_rows(admin, cors)[i]).id) == 8 + i,
{
    let all = soc2_rows(admin, cors);
    assert(place_of_id(all[0].id) == 8) by {
        reveal_strlit("soc2.cc6_1_access_controls");
    }
    assert(place_of_id(all[1].id) == 9) by {
        reveal_strlit("soc2.cc6_2_credential_issuance");
    }
    assert(place_of_id(all[2].id) == 10) by {
        reveal_strlit("soc2.cc6_3_access_revocation");
    }
    assert(place_of_id(all[3].id) == 11) by {
        reveal_strlit("soc2.cc7_1_monitoring");
    }
    assert(place_of_id(all[4].id) == 12) by {
        reveal_strlit("soc2.cc7_2_incident_response");
    }
    assert(place_of_id(all[5].id) == 13) by {
        reveal_strlit("soc2.cc8_1_change_management");
    }
    assert(place_of_id(all[6].id) == 14) by {
        reveal_strlit("soc2.cc9_1_risk_assessment");
    }
    assert(place_of_id(all[7].id) == 15) by {
        reveal_strlit("soc2.a1_1_availability_cors");
    }
}

/// Every check of its framework stands in its place.
proof fn lemma_iso27001_places()
    ensures
        forall|i: int|
            0 <= i < iso27001_rows().len() ==> place_of_id((#[trigger] iso27001_rows()[i]).id) == 16 + i,
{
    let all = iso27001_rows();
    assert(place_of_id(all[0].id) == 16) by {
        reveal_strlit("iso27001.a9_1_access_control_policy");
    }
    assert(place_of_id(all[1].id) == 17) by {
        reveal_strlit("iso27001.a9_4_app_access_control");
    }
    assert(place_of_id(all[2].id) == 18) by {
        reveal_strlit("iso27001.a10_1_cryptographic_controls");
    }
    assert(place_of_id(all[3].id) == 19) by {
        reveal_strlit("iso27001.a12_1_operational_procedures");
    }
    assert(place_of_id(all[4].id) == 20) by {
        reveal_strlit("iso27001.a12_4_logging");
    }
    assert(place_of_id(all[5].id) == 21) by {
        reveal_strlit("iso27001.a12_6_vulnerability_management");
    }
    assert(place_of_id(all[6].id) == 22) by {
        reveal_strlit("iso27001.a14_2_secure_development");
    }
    assert(place_of_id(all[7].id) == 23) by {
        reveal_strlit("iso27001.a16_1_incident_management");
    }
    assert(place_of_id(all[8].id) == 24) by {
        reveal_strlit("iso27001.a18_1_legal_compliance");
    }
}

/// Every check stands in its place.
proof fn lemma_place_of_id(vars: Map<Seq<char>, String>, i: int)
    requires
        0 <= i < all_rows(vars).len(),
    ensures
        place_of_id(all_rows(vars)[i].id) == i,
{
    let admin = is_set(vars, "ADMIN_API_KEY"@);
    let email = is_set(vars, "REMINDER_EMAIL_API_KEY"@);
    let sms = is_set(vars, "REMINDER_SMS_API_KEY"@);
    let cors = is_set(vars, "ALLOWED_ORIGINS"@);
    lemma_gdpr_places(admin, email, sms);
    lemma_soc2_places(admin, cors);
    lemma_iso27001_places();
    let g = gdpr_rows(admin, email, sms);
    let s = soc2_rows(admin, cors);
    let o = iso27001_rows();
    if i < g.len() {
        assert(all_rows(vars)[i] == g[i]);
    } else if i < g.len() + s.len() {
        assert(all_rows(vars)[i] == s[i - g.len()]);
    } else {
        assert(all_rows(vars)[i] == o[i - g.len() - s.len()]);
    }
}

/// No two checks share an id, in any deployment.
pub proof fn law_check_ids_are_distinct(vars: Map<Seq<char>, String>, i: int, j: int)
    requires
        0 <= i < j < all_rows(vars).len(),
    ensures
        all_rows(vars)[i].id != all_rows(vars)[j].id,
{
    lemma_place_of_id(vars, i);
    lemma_place_of_id(vars, j);
}

/// The verdicts that depend on the deployment: the security of processing needs
/// all three secrets, access control the administration key, and the policy on
/// origins a list of them. A variable that is set to nothing counts as not set.
pub proof fn law_verdicts_follow_the_deployment(vars: Map<Seq<char>, String>)
    ensures
        ({
            let all = all_rows(vars);
            let admin = vars.contains_key("ADMIN_API_KEY"@) && vars["ADMIN_API_KEY"@]@.len() > 0;
            let email = vars.contains_key("REMINDER_EMAIL_API_KEY"@)
                && vars["REMINDER_EMAIL_API_KEY"@]@.len() > 0;
            let sms = vars.contains_key("REMINDER_SMS_API_KEY"@)
                && vars["REMINDER_SMS_API_KEY"@]@.len() > 0;
            let cors = vars.contains_key("ALLOWED_ORIGINS"@) && vars["ALLOWED_ORIGINS"@]@.len() > 0;
            &&& all.len() == 25
            &&& all[7].id == "gdpr.security_of_processing"@
            &&& admin && email && sms ==> all[7].status == ComplianceStatus::Pass
            &&& !admin ==> all[7].status == ComplianceStatus::Fail
            &&& !email ==> all[7].status == ComplianceStatus::Fail
            &&& !sms ==> all[7].status == ComplianceStatus::Fail
            &&& all[8].id == "soc2.cc6_1_access_controls"@
            &&& admin ==> all[8].status == ComplianceStatus::Pass
            &&& !admin ==> all[8].status == ComplianceStatus::Fail
            &&& all[15].id == "soc2.a1_1_availability_cors"@
            &&& cors ==> all[15].status == ComplianceStatus::Pass
            &&& !cors ==> all[15].status == ComplianceStatus::Warning
        }),
{
}

/// The verdicts that are the same for every deployment.
pub proof fn law_standing_verdicts(vars: Map<Seq<char>, String>)
    ensures
        ({
            let all = all_rows(vars);
            &&& all[0].status == ComplianceStatus::Pass && all[1].status == ComplianceStatus::Pass
            &&& all[2].status == ComplianceStatus::Warning && all[3].status
                == ComplianceStatus::Warning
            &&& all[4].status == ComplianceStatus::Fail && all[5].status
                == ComplianceStatus::Warning
            &&& all[6].status == ComplianceStatus::Pass
            &&& all[9].status == ComplianceStatus::Pass && all[10].status
                == ComplianceStatus::Warning
            &&& all[11].status == ComplianceStatus::Pass && all[12].status
                == ComplianceStatus::Warning
            &&& all[13].status == ComplianceStatus::Pass && all[14].status == ComplianceStatus::Pass
            &&& all[16].status == ComplianceStatus::Pass && all[17].status == ComplianceStatus::Pass
            &&& all[18].status == ComplianceStatus::Pass && all[19].status
                == ComplianceStatus::Warning
            &&& all[20].status == ComplianceStatus::Pass && all[21].status
                == ComplianceStatus::Warning
            &&& all[22].status == ComplianceStatus::Pass && all[23].status
                == ComplianceStatus::Warning
            &&& all[24].status == ComplianceStatus::NotApplicable
            &&& all[4].id == "gdpr.right_to_erasure"@
        }),
{
}

/// Eight checks are on the protection of data, eight on the trust criteria and
/// nine on the management of security, in that order.
pub proof fn law_checks_belong_to_their_framework(vars: Map<Seq<char>, String>, i: int)
    requires
        0 <= i < 25,
    ensures
        i < 8 ==> all_rows(vars)[i].framework == "GDPR"@,
        8 <= i < 16 ==> all_rows(vars)[i].framework == "SOC2"@,
        16 <= i ==> all_rows(vars)[i].framework == "ISO27001"@,
{
    let g = gdpr_rows(
        is_set(vars, "ADMIN_API_KEY"@),
        is_set(vars, "REMINDER_EMAIL_API_KEY"@),
        is_set(vars, "REMINDER_SMS_API_KEY"@),
    );
    let s = soc2_rows(is_set(vars, "ADMIN_API_KEY"@), is_set(vars, "ALLOWED_ORIGINS"@));
    assert(g.len() == 8 && s.len() == 8 && iso27001_rows().len() == 9);
    assert(forall|j: int| 0 <= j < 8 ==> (#[trigger] g[j]).framework == "GDPR"@);
    assert(forall|j: int| 0 <= j < 8 ==> (#[trigger] s[j]).framework == "SOC2"@);
    assert(forall|j: int| 0 <= j < 9 ==> (#[trigger] iso27001_rows()[j]).framework == "ISO27001"@);
}

/// Rows are counted by their status: one row more adds one to the count of its own
/// status and to no other.
pub proof fn law_report_counts_every_verdict(
    checks: Seq<CheckRow>,
    c: CheckRow,
    status: ComplianceStatus,
)
    ensures
        count_status(Seq::<CheckRow>::empty(), status) == 0,
        count_status(checks.push(c), status) == count_status(checks, status) + if c.status
            == status {
            1nat
        } else {
            0nat
        },
{
    assert(checks.push(c).drop_last() =~= checks);
}

/// The remedy for missing secrets names exactly those that are missing.
pub proof fn law_missing_secrets_are_named(admin: bool, email: bool, sms: bool)
    ensures
        missing_secrets(admin, email, sms).contains("ADMIN_API_KEY"@) <==> !admin,
        missing_secrets(admin, email, sms).contains("REMINDER_EMAIL_API_KEY"@) <==> !email,
        missing_secrets(admin, email, sms).contains("REMINDER_SMS_API_KEY"@) <==> !sms,
{
    reveal_strlit("ADMIN_API_KEY");
    reveal_strlit("REMINDER_EMAIL_API_KEY");
    reveal_strlit("REMINDER_SMS_API_KEY");
    assert("ADMIN_API_KEY"@.len() == 13 && "REMINDER_EMAIL_API_KEY"@.len() == 22
        && "REMINDER_SMS_API_KEY"@.len() == 20);
    let m = missing_secrets(admin, email, sms);
    if !admin {
        assert(m[0] == "ADMIN_API_KEY"@);
    }
    if !email {
        assert(m[if admin { 0int } else { 1int }] == "REMINDER_EMAIL_API_KEY"@);
    }
    if !sms {
        assert(m.last() == "REMINDER_SMS_API_KEY"@);
    }
}

/// A report shows the checks in their order and counts them.
pub proof fn law_report_shows_all_checks(r: ComplianceAuditReport, all: Seq<CheckRow>, i: int)
    requires
        reports(r, all),
    ensures
        r.checks@.len() == all.len(),
        r.total_checks == all.len(),
        r.passed + r.failed + r.warnings + r.not_applicable == all.len(),
        0 <= i < all.len() ==> r.checks@[i]@ == all[i],
        r.pdf_stub.member_text("format"@) == Some("pdf"@),
        r.pdf_stub.member_text("version"@) == Some("1.0"@),
        r.pdf_stub.member_text("placeholder_base64"@) == Some(""@),
{
    law_outcomes_add_up(all);
    assert(rows(r.checks@).len() == r.checks@.len());
    if 0 <= i < all.len() {
        assert(rows(r.checks@)[i] == r.checks@[i]@);
    }
}

} // verus!

use spectral::db::error::DatabaseError;
use spectral::db::google_removal::generate_removal_url;
use spectral::db::keys::{check_key, key_pragma};
use spectral::db::records::{
    flag_from_db, line_number_to_db, placeholders, record_finding, CreateDiscoveryFinding, DiscoveryFinding, FindingWrite,
    RemovalFollowup, ScanConfig, ScanSession,
};
use spectral::db::status::{
    GoogleRemovalStatus, MapBlurStatus, MapService, RemovalStatus, ScanJobStatus,
    VerificationStatus,
};

#[test]
fn test_generate_removal_url_name_only() {
    let url = generate_removal_url("John Doe", None, None);
    assert!(url.contains("John%20Doe"));
    assert!(url.starts_with("https://myactivity.google.com/results-about-you?q="));
}

#[test]
fn test_generate_removal_url_with_address() {
    let url = generate_removal_url("John Doe", Some("123 Main St"), None);
    assert!(url.contains("John%20Doe"));
    assert!(url.contains("123%20Main%20St"));
}

#[test]
fn test_generate_removal_url_with_phone() {
    let url = generate_removal_url("John Doe", None, Some("555-1234"));
    assert!(url.contains("John%20Doe"));
    assert!(url.contains("555-1234"));
}

#[test]
fn test_generate_removal_url_all_fields() {
    let url = generate_removal_url("John Doe", Some("123 Main St"), Some("555-1234"));
    assert!(url.contains("John%20Doe"));
    assert!(url.contains("123%20Main%20St"));
    assert!(url.contains("555-1234"));
}

#[test]
fn test_generate_removal_url_exact() {
    assert_eq!(
        generate_removal_url("Zoë O'Neil", Some("1 Main St"), Some("555-1234")),
        "https://myactivity.google.com/results-about-you?q=Zo%C3%AB%20O%27Neil%201%20Main%20St%20555-1234"
    );
    assert_eq!(
        generate_removal_url("a_b.c~d", None, None),
        "https://myactivity.google.com/results-about-you?q=a_b.c~d"
    );
}

#[test]
fn test_status_roundtrip() {
    let statuses = vec![
        GoogleRemovalStatus::URLGenerated,
        GoogleRemovalStatus::Submitted,
        GoogleRemovalStatus::Completed,
        GoogleRemovalStatus::Failed,
    ];

    for status in statuses {
        let str_val = status.as_str();
        let parsed = GoogleRemovalStatus::from_str(str_val).unwrap();
        assert_eq!(status.as_str(), parsed.as_str());
    }
}

#[test]
fn test_google_status_invalid() {
    assert_eq!(
        GoogleRemovalStatus::from_str("Done"),
        Err("Invalid GoogleRemovalStatus: Done".to_string())
    );
}

#[test]
fn test_verification_status_display() {
    assert_eq!(VerificationStatus::PendingVerification.to_text(), "PendingVerification");
    assert_eq!(VerificationStatus::Confirmed.to_text(), "Confirmed");
    assert_eq!(VerificationStatus::Rejected.to_text(), "Rejected");
}

#[test]
fn test_verification_status_parse() {
    assert_eq!(VerificationStatus::parse("Confirmed"), VerificationStatus::Confirmed);
    assert_eq!(VerificationStatus::parse("Rejected"), VerificationStatus::Rejected);
    assert_eq!(VerificationStatus::parse("unknown"), VerificationStatus::PendingVerification);
}

#[test]
fn test_other_statuses() {
    assert_eq!(MapService::from_str("BingMaps"), Ok(MapService::BingMaps));
    assert_eq!(MapService::from_str("bing"), Err(()));
    assert_eq!(MapService::AppleMaps.as_str(), "AppleMaps");
    for s in [RemovalStatus::Pending, RemovalStatus::Submitted, RemovalStatus::Completed, RemovalStatus::Failed] {
        assert_eq!(RemovalStatus::parse(&s.to_text()), s);
    }
    for s in [ScanJobStatus::InProgress, ScanJobStatus::Completed, ScanJobStatus::Failed, ScanJobStatus::Cancelled] {
        assert_eq!(ScanJobStatus::parse(&s.to_text()), s);
    }
}

#[test]
fn test_status_update_statements() {
    assert_eq!(
        GoogleRemovalStatus::Completed.update_sql(),
        "UPDATE google_removal_requests SET status = ?, completed_at = ?, notes = ? WHERE id = ?"
    );
    assert!(GoogleRemovalStatus::Submitted.records_time());
    assert!(!GoogleRemovalStatus::Failed.records_time());
    assert!(!GoogleRemovalStatus::URLGenerated.records_notes());
    assert_eq!(MapBlurStatus::Failed.update_sql(), None);
    assert!(MapBlurStatus::Submitted.update_sql().unwrap().contains("submitted_at = ?"));
}

#[test]
fn test_keys() {
    assert!(check_key(&vec![0u8; 32]).is_ok());
    assert!(matches!(check_key(&vec![0u8; 16]), Err(DatabaseError::InvalidKey)));
    assert_eq!(key_pragma(&vec![0xab, 0x01]), "\"x'ab01'\"");
    assert_eq!(DatabaseError::InvalidKey.message(), "invalid encryption key");
    assert_eq!(DatabaseError::Query("boom".to_string()).message(), "query failed: boom");
}

fn finding(remediated: bool, still: bool) -> DiscoveryFinding {
    DiscoveryFinding {
        id: "f1".to_string(),
        vault_id: "v".to_string(),
        source: "filesystem".to_string(),
        source_detail: "/a.txt".to_string(),
        finding_type: "pii_exposure".to_string(),
        risk_level: "medium".to_string(),
        description: "Email".to_string(),
        recommended_action: None,
        pii_type: "email".to_string(),
        remediated,
        ignored: false,
        still_present_after_remediation: still,
        found_at: "2026-01-01T00:00:00Z".to_string(),
        matched_value: None,
        line_number: Some(3),
    }
}

#[test]
fn test_reconcile_rescan() {
    let (f, update) = finding(true, false).reconcile_rescan();
    assert!(update);
    assert!(f.still_present_after_remediation);
    let (f, update) = finding(true, true).reconcile_rescan();
    assert!(!update);
    assert!(f.still_present_after_remediation);
    let (f, update) = finding(false, false).reconcile_rescan();
    assert!(!update);
    assert!(!f.still_present_after_remediation);
}

#[test]
fn test_create_discovery_finding() {
    let params = CreateDiscoveryFinding {
        vault_id: "v".to_string(),
        source: "filesystem".to_string(),
        source_detail: "/a.txt".to_string(),
        finding_type: "pii_exposure".to_string(),
        risk_level: "medium".to_string(),
        description: "Email".to_string(),
        recommended_action: Some("Delete it".to_string()),
        pii_type: "email".to_string(),
        matched_value: Some("a@b.c".to_string()),
        line_number: Some(7),
    };
    let f = DiscoveryFinding::create(params, "2026-01-01T00:00:00Z".to_string());
    assert_eq!(f.id.len(), 36);
    assert_eq!(f.line_number, Some(7));
    assert!(!f.remediated && !f.ignored && !f.still_present_after_remediation);
    assert_eq!(f.found_at, "2026-01-01T00:00:00Z");
    assert_eq!(line_number_to_db(Some(usize::MAX)), Some(0));
    assert_eq!(line_number_to_db(None), None);
    assert!(flag_from_db(2));
    assert!(!flag_from_db(0));
}

#[test]
fn test_followup_row_and_sessions() {
    let f = RemovalFollowup::from_row((
        "id".to_string(),
        "att".to_string(),
        "klaviyo".to_string(),
        "privacy@klaviyo.com".to_string(),
        "2099-01-01T00:00:00Z".to_string(),
        None,
        None,
        Some("email".to_string()),
    ));
    assert_eq!(f.recipient, "privacy@klaviyo.com");
    assert_eq!(f.method, Some("email".to_string()));
    assert!(ScanSession::is_finished_status("completed"));
    assert!(!ScanSession::is_finished_status("running"));
    let c = ScanConfig::default();
    assert!(c.scan_emails && c.scan_phones && c.scan_ssn && c.scan_addresses && c.scan_names && c.scan_dob);
    assert_eq!(placeholders(0), "");
    assert_eq!(placeholders(1), "?");
    assert_eq!(placeholders(3), "?, ?, ?");
}

#[test]
fn test_map_blur_status_text() {
    for s in [MapBlurStatus::URLGenerated, MapBlurStatus::Submitted, MapBlurStatus::Completed, MapBlurStatus::Failed] {
        assert_eq!(MapBlurStatus::from_text(s.as_str()), Some(s));
    }
    assert_eq!(MapBlurStatus::from_text("submitted"), None);
}

fn new_params() -> CreateDiscoveryFinding {
    CreateDiscoveryFinding {
        vault_id: "v".to_string(),
        source: "filesystem".to_string(),
        source_detail: "/a.txt".to_string(),
        finding_type: "pii_exposure".to_string(),
        risk_level: "medium".to_string(),
        description: "Email".to_string(),
        recommended_action: None,
        pii_type: "email".to_string(),
        matched_value: None,
        line_number: Some(3),
    }
}

#[test]
fn test_record_finding() {
    let (f, w) = record_finding(Some(finding(true, false)), new_params(), "later".to_string());
    assert!(matches!(w, FindingWrite::MarkStillPresent(ref id) if id == "f1"));
    assert!(f.still_present_after_remediation);
    assert_eq!(f.found_at, "2026-01-01T00:00:00Z");
    let (f, w) = record_finding(Some(finding(false, false)), new_params(), "later".to_string());
    assert!(matches!(w, FindingWrite::Keep));
    assert_eq!(f.id, "f1");
    let (f, w) = record_finding(None, new_params(), "now".to_string());
    assert!(matches!(w, FindingWrite::Insert));
    assert_ne!(f.id, "f1");
    assert_eq!(f.found_at, "now");
    assert_eq!(f.source_detail, "/a.txt");
    assert!(!f.remediated && !f.ignored && !f.still_present_after_remediation);
}

use spectral::discovery::filesystem::{
    is_scannable, PiiPatterns, PiiType as FsPiiType, UserPii as FsUserPii,
};
use spectral::discovery::matcher::Matcher;
use spectral::discovery::patterns::{
    find_first_valid_pair, format_address, is_valid_address_pair, mask_ssn, parse_date,
    pick_report_line, truncate,
};
use spectral::discovery::scanner::{
    accepts_file, eq_ignore_ascii_case, is_excluded_dir, is_ignored, progress_due, should_skip,
    ScanFlags,
};
use spectral::discovery::types::{AddressInfo, PiiType, ScanCommand, ScanConfig, UserPii};

#[test]
fn test_user_email_detection() {
    let user_pii = FsUserPii { emails: vec!["john@example.com".to_string()], phones: vec![], ssn: None };
    let patterns = PiiPatterns::from_user_pii(user_pii);

    assert!(patterns.has_email("contact me at john@example.com"));
    assert!(patterns.has_email("Email: JOHN@EXAMPLE.COM"));

    assert!(!patterns.has_email("Email: alice@company.com"));
    assert!(!patterns.has_email("not an email"));
}

#[test]
fn test_user_phone_detection() {
    let user_pii = FsUserPii { emails: vec![], phones: vec!["5551234567".to_string()], ssn: None };
    let patterns = PiiPatterns::from_user_pii(user_pii);

    assert!(patterns.has_phone("Call (555) 123-4567"));
    assert!(patterns.has_phone("Phone: 555-123-4567"));
    assert!(patterns.has_phone("Contact: 555.123.4567"));
    assert!(patterns.has_phone("Number: 5551234567"));

    assert!(!patterns.has_phone("Call (999) 888-7777"));
}

#[test]
fn test_user_ssn_detection() {
    let user_pii = FsUserPii { emails: vec![], phones: vec![], ssn: Some("123-45-6789".to_string()) };
    let patterns = PiiPatterns::from_user_pii(user_pii);

    assert!(patterns.has_ssn("SSN: 123-45-6789"));
    assert!(patterns.has_ssn("Social Security Number 123-45-6789"));

    assert!(!patterns.has_ssn("SSN: 987-65-4321"));
    assert!(!patterns.has_ssn("not an ssn"));
}

#[test]
fn test_find_all_user_specific() {
    let user_pii = FsUserPii {
        emails: vec!["john@example.com".to_string()],
        phones: vec!["5551234567".to_string()],
        ssn: Some("123-45-6789".to_string()),
    };
    let patterns = PiiPatterns::from_user_pii(user_pii);

    let text = "Contact: john@example.com, Phone: 555-123-4567, SSN: 123-45-6789\n\
                Other person: alice@company.com, Phone: (999) 888-7777";
    let matches = patterns.find_all(text);

    assert_eq!(matches.len(), 3);
    assert_eq!(matches[0].pii_type, FsPiiType::Email);
    assert_eq!(matches[0].matched_value, "john@example.com");
    assert_eq!(matches[0].line_number, 1);
    assert_eq!(matches[1].pii_type, FsPiiType::Phone);
    assert_eq!(matches[1].matched_value, "555-123-4567");
    assert_eq!(matches[2].pii_type, FsPiiType::Ssn);
    assert_eq!(matches[2].matched_value, "123-45-6789");
}

#[test]
fn test_try_find_all_needs_buildable_patterns() {
    let patterns = PiiPatterns::from_user_pii(FsUserPii {
        emails: vec!["john@example.com".to_string()],
        phones: vec![],
        ssn: None,
    });
    let found = patterns.try_find_all("JOHN@example.com and john@EXAMPLE.com").expect("patterns build");
    assert_eq!(found.len(), 2);
    assert_eq!(found[0].matched_value, "JOHN@example.com");
    assert_eq!(found[1].matched_value, "john@EXAMPLE.com");
    assert!(PiiPatterns::from_user_pii(FsUserPii::empty()).try_find_all("x").expect("nothing to build").is_empty());
    let short_phone = PiiPatterns::from_user_pii(FsUserPii {
        emails: vec![],
        phones: vec!["12345".to_string()],
        ssn: None,
    });
    assert!(short_phone.try_find_all("call 12345 now").is_none());
    assert!(short_phone.try_find_all("no digits here").expect("no phone found").is_empty());
}

#[test]
fn test_pii_type_description() {
    assert_eq!(FsPiiType::Email.description(), "Email address");
    assert_eq!(FsPiiType::Phone.description(), "Phone number");
    assert_eq!(FsPiiType::Ssn.description(), "Social Security Number");
}

#[test]
fn test_pii_type_risk_level() {
    assert_eq!(FsPiiType::Email.risk_level(), "medium");
    assert_eq!(FsPiiType::Phone.risk_level(), "medium");
    assert_eq!(FsPiiType::Ssn.risk_level(), "critical");
}

#[test]
fn test_is_scannable() {
    assert!(is_scannable("document.txt"));
    assert!(is_scannable("data.csv"));
    assert!(is_scannable("config.json"));
    assert!(is_scannable("README.md"));
    assert!(is_scannable("app.log"));
    assert!(!is_scannable("image.png"));
    assert!(!is_scannable("video.mp4"));
    assert!(!is_scannable("binary.exe"));
}

#[test]
fn test_is_scannable_paths() {
    assert!(is_scannable("/home/u/notes/Todo.TXT"));
    assert!(!is_scannable("/home/u/.txt"));
    assert!(!is_scannable("/home/u/data.csv/readme"));
}

#[test]
fn test_email_matching() {
    let pii = UserPii { emails: vec!["test@example.com".into()], ..Default::default() };
    let patterns = Matcher::new(&pii, &ScanConfig::default());
    let matches = patterns.find_all("Contact: test@example.com");
    assert_eq!(matches.len(), 1);
    assert_eq!(matches[0].pii_type, PiiType::Email);
}

#[test]
fn test_phone_matching() {
    let pii = UserPii { phones: vec!["555-123-4567".into()], ..Default::default() };
    let patterns = Matcher::new(&pii, &ScanConfig::default());
    let matches = patterns.find_all("Call (555) 123-4567");
    assert_eq!(matches.len(), 1);
    assert_eq!(matches[0].pii_type, PiiType::Phone);
}

#[test]
fn test_ssn_masking() {
    assert_eq!(mask_ssn("123-45-6789"), "***-**-6789");
}

#[test]
fn test_ssn_masking_short_input() {
    assert_eq!(mask_ssn("12-3"), "***-**-****");
    assert_eq!(mask_ssn("SSN 987654321"), "***-**-4321");
}

#[test]
fn test_matcher_report_order() {
    let pii = UserPii {
        emails: vec!["jane@x.com".into()],
        names: vec!["Jane Doe".into()],
        ssn: Some("123-45-6789".into()),
        date_of_birth: Some("01/02/1980".into()),
        ..Default::default()
    };
    let m = Matcher::new(&pii, &ScanConfig::default());
    assert!(!m.is_empty());
    let text = "Name: Jane Doe\nSSN 123-45-6789, born 01/02/1980, mail jane@x.com, again jane@x.com\nnothing";
    let found = m.find_all(text);
    let got: Vec<(PiiType, String, usize)> =
        found.iter().map(|f| (f.pii_type, f.matched_value.clone(), f.line_number)).collect();
    assert_eq!(
        got,
        vec![
            (PiiType::Name, "Jane Doe".to_string(), 1),
            (PiiType::DateOfBirth, "01/02/1980".to_string(), 2),
            (PiiType::Email, "jane@x.com".to_string(), 2),
            (PiiType::Ssn, "***-**-6789".to_string(), 2),
        ]
    );
    assert_eq!(found[0].line_content, "Name: Jane Doe");
}

#[test]
fn test_matcher_respects_config() {
    let pii = UserPii { emails: vec!["jane@x.com".into()], ..Default::default() };
    let mut config = ScanConfig::default();
    config.scan_emails = false;
    let m = Matcher::new(&pii, &config);
    assert!(m.is_empty());
    assert!(m.find_all("jane@x.com").is_empty());
}

#[test]
fn test_pattern_helpers() {
    assert!(is_valid_address_pair("street", "zip"));
    assert!(is_valid_address_pair("state", "city"));
    assert!(!is_valid_address_pair("state", "zip"));
    assert_eq!(pick_report_line(4, "city", 7, "street"), 7);
    assert_eq!(pick_report_line(4, "zip", 7, "city"), 7);
    assert_eq!(pick_report_line(4, "zip", 7, "state"), 4);
    let comps = [(0usize, "state"), (1, "zip"), (3, "city")];
    assert_eq!(find_first_valid_pair(&comps, 3), Some((0, "state", 3, "city")));
    assert_eq!(find_first_valid_pair(&comps, 2), Some((1, "zip", 3, "city")));
    assert_eq!(find_first_valid_pair(&comps, 1), None);
    assert_eq!(parse_date("01/02/1980"), Some((1, 2, 1980)));
    assert_eq!(parse_date("1980-01-02"), Some((1, 2, 1980)));
    assert_eq!(parse_date("01/02/03"), None);
    assert_eq!(parse_date("a/b/1999"), None);
    assert_eq!(truncate("hello", 5), "hello");
    assert_eq!(truncate("hello world", 5), "hello...");
    assert_eq!(truncate("héllo", 2), "h...");
    let addr = AddressInfo {
        street: Some("1 Main St".into()),
        city: None,
        state: Some("IL".into()),
        zip: Some("62701".into()),
    };
    assert_eq!(format_address(&addr), "1 Main St, IL, 62701");
}

#[test]
fn test_scanner_decisions() {
    assert!(eq_ignore_ascii_case("Node_Modules", "node_modules"));
    assert!(!eq_ignore_ascii_case("node", "nodes"));
    assert!(is_excluded_dir("NODE_MODULES"));
    assert!(is_excluded_dir(".Git"));
    assert!(is_excluded_dir("Program Files"));
    assert!(!is_excluded_dir("src"));
    assert!(should_skip(Some("AppData")));
    assert!(!should_skip(None));
    assert!(accepts_file("/a/b/notes.TXT", Some(10)));
    assert!(accepts_file("/a/b/run.ps1", Some(10_485_760)));
    assert!(!accepts_file("/a/b/big.txt", Some(10_485_761)));
    assert!(!accepts_file("/a/b/gone.txt", None));
    assert!(!accepts_file("/a/b/photo.png", Some(1)));
    let ignored = vec!["/a/secret.txt".to_string()];
    assert!(is_ignored(&ignored, "/a/secret.txt"));
    assert!(!is_ignored(&ignored, "/a/other.txt"));
    assert!(progress_due(200));
    assert!(!progress_due(150));
}

#[test]
fn test_scan_commands() {
    let f = ScanFlags::new();
    assert!(!f.must_wait());
    let paused = f.apply(ScanCommand::Pause);
    assert!(paused.must_wait());
    let resumed = paused.apply(ScanCommand::Continue);
    assert!(!resumed.must_wait());
    let f = ScanFlags::new().apply_all(&vec![ScanCommand::Pause, ScanCommand::Stop, ScanCommand::Continue]);
    assert!(f.stopped);
    assert!(!f.paused);
    let f = ScanFlags::new().apply_all(&vec![ScanCommand::Stop, ScanCommand::Pause]);
    assert!(f.stopped && f.paused && !f.must_wait());
}

use spectral::cookies::browser::{Browser, BrowserProfile, BrowserType, ChromiumProbe, FirefoxProbe, ProcessQuery, TargetOs};
use spectral::cookies::error::CookieError;
use spectral::cookies::matcher::{domain_matches, BrokerCookiePattern, CookieMatcher};
use spectral::cookies::remover::{CookieRemoval, CookieRemover, RemovalAction, RemovalEvent, RemovalResult};
use spectral::cookies::scanner::{same_site_from_db, CookieScanner, ScannedCookie};

const LINUX: TargetOs = TargetOs::Linux;
use spectral::cookies::{Cookie, SameSite};

fn cookie(name: &str, domain: &str) -> Cookie {
    Cookie {
        name: name.to_string(),
        value: "test".to_string(),
        domain: domain.to_string(),
        path: "/".to_string(),
        creation_time: None,
        expiry_time: None,
        last_access_time: None,
        is_secure: false,
        is_httponly: false,
        same_site: None,
    }
}

fn patterns() -> Vec<BrokerCookiePattern> {
    vec![
        BrokerCookiePattern {
            broker_id: "google-ads".to_string(),
            patterns: vec!["_ga*".to_string(), "_gid".to_string()],
            domains: vec![".google.com".to_string(), ".google-analytics.com".to_string()],
        },
        BrokerCookiePattern {
            broker_id: "facebook".to_string(),
            patterns: vec!["_fbp".to_string(), "fr".to_string()],
            domains: vec![".facebook.com".to_string()],
        },
    ]
}

#[test]
fn test_cookie_matching() {
    let matcher = CookieMatcher::new(patterns()).unwrap();

    let c = cookie("_ga_ABC123", ".google.com");
    assert_eq!(matcher.match_cookie(&c), Some("google-ads".to_string()));

    let c = cookie("_fbp", ".facebook.com");
    assert_eq!(matcher.match_cookie(&c), Some("facebook".to_string()));

    let c = cookie("session_id", ".example.com");
    assert_eq!(matcher.match_cookie(&c), None);
}

#[test]
fn test_cookie_matching_domains() {
    let matcher = CookieMatcher::new(patterns()).unwrap();
    assert_eq!(matcher.match_cookie(&cookie("_gid", "www.google.com")), Some("google-ads".to_string()));
    assert_eq!(matcher.match_cookie(&cookie("_gid", "google.com")), Some("google-ads".to_string()));
    assert_eq!(matcher.match_cookie(&cookie("_gid", "notgoogle.com")), None);
    assert_eq!(matcher.match_cookie(&cookie("_fbp", ".google.com")), None);
    assert_eq!(matcher.get_broker_ids(), vec!["google-ads".to_string(), "facebook".to_string()]);

    let domains = vec!["example.com".to_string()];
    assert!(domain_matches("example.com", &domains));
    assert!(domain_matches("ads.example.com", &domains));
    assert!(domain_matches(".example.com", &domains));
    assert!(!domain_matches("badexample.com", &domains));
}

#[test]
fn test_cookie_matcher_rejects_bad_glob() {
    let bad = vec![BrokerCookiePattern {
        broker_id: "x".to_string(),
        patterns: vec!["[unclosed".to_string()],
        domains: vec![],
    }];
    match CookieMatcher::new(bad) {
        Err(CookieError::ParseError(_)) => {}
        _ => panic!("an invalid glob was accepted"),
    }
}

#[test]
fn test_same_site() {
    assert_eq!(SameSite::NoRestriction.to_text(), "None");
    assert_eq!(SameSite::parse("Lax"), Ok(SameSite::Lax));
    assert_eq!(SameSite::parse("lax"), Err("Invalid SameSite value: lax".to_string()));
    assert_eq!(SameSite::parse("Strict"), Ok(SameSite::Strict));
    assert!(SameSite::parse("sometimes").is_err());
    for s in [SameSite::NoRestriction, SameSite::Lax, SameSite::Strict] {
        assert_eq!(SameSite::parse(&s.to_text()), Ok(s));
    }
    assert_eq!(same_site_from_db(2), Some(SameSite::Lax));
    assert_eq!(same_site_from_db(0), None);
}

#[test]
fn test_browser_type_names() {
    assert_eq!(BrowserType::Chrome.as_str(), "Chrome");
    assert!(matches!(BrowserType::from_str("FIREFOX"), Ok(BrowserType::Firefox)));
    assert!(matches!(BrowserType::from_str("netscape"), Ok(BrowserType::Other)));
}

#[test]
fn test_browser_paths() {
    assert_eq!(Browser::chrome_base_path("/home/u", LINUX), "/home/u/.config/google-chrome");
    assert_eq!(Browser::firefox_base_path("/home/u/", LINUX), "/home/u/.mozilla/firefox");
    assert_eq!(Browser::firefox_fork_base_path("/home/u", "zen", LINUX), "/home/u/.zen");
    assert_eq!(
        Browser::choose_chromium_cookie_path("/p/Default", true, true, LINUX),
        Some("/p/Default/Network/Cookies".to_string())
    );
    assert_eq!(
        Browser::choose_chromium_cookie_path("/p/Default", false, true, LINUX),
        Some("/p/Default/Cookies".to_string())
    );
    assert_eq!(Browser::choose_chromium_cookie_path("/p/Default", false, false, LINUX), None);
    assert!(Browser::is_additional_chrome_profile("Profile 2"));
    assert!(!Browser::is_additional_chrome_profile("System Profile"));
    assert!(Browser::is_default_firefox_profile("abcd.default-release"));
    assert_eq!(Browser::fork_profile_name("Zen", "main"), "Zen (main)");
    assert_eq!(Browser::firefox_forks().len(), 5);
    assert_eq!(Browser::process_name(BrowserType::Edge, LINUX), Some("msedge"));
    assert_eq!(Browser::process_name(BrowserType::Safari, LINUX), None);
}

fn profile(t: BrowserType, name: &str) -> BrowserProfile {
    BrowserProfile {
        browser_type: t,
        profile_name: name.to_string(),
        cookie_db_path: format!("/db/{name}"),
        is_default: false,
    }
}

#[test]
fn test_collect_detected() {
    let outcomes = vec![
        Ok(vec![profile(BrowserType::Chrome, "a"), profile(BrowserType::Chrome, "b")]),
        Err(CookieError::BrowserNotFound("Firefox".to_string())),
        Ok(vec![]),
        Ok(vec![profile(BrowserType::Brave, "c")]),
    ];
    let all = Browser::collect_detected(outcomes);
    let names: Vec<&str> = all.iter().map(|p| p.profile_name.as_str()).collect();
    assert_eq!(names, vec!["a", "b", "c"]);
}

#[test]
fn test_remover_settings_and_sql() {
    assert!(CookieRemover::new().creates_backup());
    assert!(!CookieRemover::without_backup().creates_backup());
    assert_eq!(CookieRemover::cookie_table(BrowserType::Firefox), Some(("moz_cookies", "host")));
    assert_eq!(CookieRemover::cookie_table(BrowserType::Safari), None);
    assert_eq!(
        CookieRemover::delete_cookie_sql("cookies", "host_key"),
        "DELETE FROM cookies WHERE name = ?1 AND host_key = ?2 AND path = ?3"
    );
    assert_eq!(CookieRemover::delete_domain_sql("moz_cookies", "host"), "DELETE FROM moz_cookies WHERE host LIKE ?1");
    assert_eq!(CookieRemover::domain_like_pattern("example.com"), "%example.com");
    match CookieRemover::unsupported_for_removal(BrowserType::Other, LINUX) {
        Some(CookieError::BrowserNotFound(m)) => assert_eq!(m, "Unsupported browser type"),
        _ => panic!("removal from an unknown browser accepted"),
    }
    match CookieRemover::browser_running_error(BrowserType::Chrome) {
        CookieError::BrowserRunning(m) => assert_eq!(m, "Chrome"),
        _ => panic!("wrong error"),
    }
}

#[test]
fn test_tally_removals() {
    let p = profile(BrowserType::Chrome, "Default");
    let cookies = vec![cookie("a", "x.com"), cookie("b", "y.com"), cookie("c", "z.com")];
    let outcomes = vec![Ok(1), Ok(0), Err("locked".to_string())];
    let r = CookieRemover::tally_removals(&p, &cookies, &outcomes);
    assert_eq!(r.cookies_removed, 1);
    assert_eq!(r.cookies_failed, 2);
    assert_eq!(
        r.errors,
        vec!["Cookie not found: b @ y.com".to_string(), "Failed to remove c @ z.com: locked".to_string()]
    );
    let with = CookieRemover::with_backup(Ok(r), Some("/tmp/backup".to_string()));
    match with {
        Ok(RemovalResult { backup_path, profile_name, .. }) => {
            assert_eq!(backup_path, Some("/tmp/backup".to_string()));
            assert_eq!(profile_name, "Default");
        }
        Err(_) => panic!("a success was turned into a failure"),
    }
    let failed = CookieRemover::with_backup(Err(CookieError::Unknown("x".to_string())), None);
    assert!(matches!(failed, Err(CookieError::Unknown(_))));
}

#[test]
fn test_build_scan_result() {
    let matcher = CookieMatcher::new(patterns()).unwrap();
    let scanner = CookieScanner::with_matcher(matcher);
    let mk = |name: &str, domain: &str, t: BrowserType| {
        let c = cookie(name, domain);
        let b = scanner.classify(&c);
        ScannedCookie {
            cookie: c,
            browser_type: t,
            profile_name: "Default".to_string(),
            cookie_db_filename: "Cookies".to_string(),
            matched_broker_id: b,
        }
    };
    let scanned = vec![
        mk("_ga", ".google.com", BrowserType::Chrome),
        mk("sid", ".example.com", BrowserType::Firefox),
        mk("_fbp", ".facebook.com", BrowserType::Chrome),
        mk("_gid", ".google.com", BrowserType::Firefox),
    ];
    let r = scanner.build_scan_result(scanned);
    assert_eq!(r.total_cookies, 4);
    assert_eq!(r.matched_cookies, 3);
    assert_eq!(r.cookies_by_browser, vec![("Chrome".to_string(), 2), ("Firefox".to_string(), 2)]);
    assert_eq!(
        r.cookies_by_broker,
        vec![("google-ads".to_string(), 2), ("facebook".to_string(), 1)]
    );
    let total: usize = r.cookies_by_broker.iter().map(|(_, n)| *n).sum();
    assert_eq!(total, r.matched_cookies);
    assert_eq!(CookieScanner::new().classify(&cookie("_ga", ".google.com")), None);
}

#[test]
fn test_cookie_error_messages() {
    assert_eq!(CookieError::BrowserNotFound("x".to_string()).message(), "Browser not found: x");
}

fn probe(name: &str, network: bool, old: bool) -> ChromiumProbe {
    ChromiumProbe {
        name: name.to_string(),
        path: format!("/c/{name}"),
        network_cookies: network,
        cookies: old,
    }
}

#[test]
fn test_chrome_profiles() {
    let found = Browser::chrome_profiles(
        Some(probe("Default", true, true)),
        vec![probe("Profile 1", false, true), probe("Crashpad", true, true), probe("Profile 2", false, false)],
        LINUX,
    );
    let got: Vec<(String, String, bool)> =
        found.iter().map(|p| (p.profile_name.clone(), p.cookie_db_path.clone(), p.is_default)).collect();
    assert_eq!(
        got,
        vec![
            ("Default".to_string(), "/c/Default/Network/Cookies".to_string(), true),
            ("Profile 1".to_string(), "/c/Profile 1/Cookies".to_string(), false),
        ]
    );
    assert!(Browser::chrome_profiles(Some(probe("Default", false, false)), vec![probe("Profile 1", true, true)], LINUX).is_empty());
    assert_eq!(Browser::chrome_profiles(None, vec![probe("Profile 1", true, true)], LINUX).len(), 1);
}

#[test]
fn test_default_and_firefox_profiles() {
    let edge = Browser::default_profile(BrowserType::Edge, Some(probe("Default", false, true)), LINUX);
    assert_eq!(edge.len(), 1);
    assert!(matches!(edge[0].browser_type, BrowserType::Edge));
    assert!(Browser::default_profile(BrowserType::Brave, None, LINUX).is_empty());

    let entries = vec![
        FirefoxProbe { name: Some("ab.default-release".to_string()), path: "/f/ab.default-release".to_string(), is_dir: true, cookies_sqlite: true },
        FirefoxProbe { name: Some("profiles.ini".to_string()), path: "/f/profiles.ini".to_string(), is_dir: false, cookies_sqlite: false },
        FirefoxProbe { name: None, path: "/f/x".to_string(), is_dir: true, cookies_sqlite: true },
        FirefoxProbe { name: Some("empty".to_string()), path: "/f/empty".to_string(), is_dir: true, cookies_sqlite: false },
    ];
    let ff = Browser::firefox_profiles(entries.clone(), None, LINUX);
    let got: Vec<(String, String, bool)> =
        ff.iter().map(|p| (p.profile_name.clone(), p.cookie_db_path.clone(), p.is_default)).collect();
    assert_eq!(
        got,
        vec![
            ("ab.default-release".to_string(), "/f/ab.default-release/cookies.sqlite".to_string(), true),
            ("Unknown".to_string(), "/f/x/cookies.sqlite".to_string(), false),
        ]
    );
    let zen = Browser::firefox_profiles(entries, Some("Zen"), LINUX);
    assert_eq!(zen[0].profile_name, "Zen (ab.default-release)");
}

#[test]
fn test_removal_with_backup_records_it() {
    let p = profile(BrowserType::Chrome, "Default");
    let cookies = vec![cookie("a", "x.com"), cookie("b", "y.com")];
    let (mut removal, action) = CookieRemoval::begin(&CookieRemover::new(), p, cookies, LINUX);
    assert!(matches!(action, RemovalAction::CheckRunning(BrowserType::Chrome)));
    match removal.advance(RemovalEvent::Running(false)) {
        RemovalAction::BackUp(path) => assert_eq!(path, "/db/Default"),
        _ => panic!("no backup asked for"),
    }
    match removal.advance(RemovalEvent::BackedUp(Ok("/backups/Cookies.backup".to_string()))) {
        RemovalAction::DeleteEach(sql) => {
            assert_eq!(sql, "DELETE FROM cookies WHERE name = ?1 AND host_key = ?2 AND path = ?3")
        }
        _ => panic!("no deletion asked for"),
    }
    match removal.advance(RemovalEvent::Deleted(Ok(vec![Ok(2), Ok(0)]))) {
        RemovalAction::Finish(Ok(r)) => {
            assert_eq!(r.backup_path, Some("/backups/Cookies.backup".to_string()));
            assert_eq!(r.cookies_removed, 2);
            assert_eq!(r.cookies_failed, 1);
            assert_eq!(r.errors, vec!["Cookie not found: b @ y.com".to_string()]);
        }
        _ => panic!("the removal did not finish"),
    }
}

#[test]
fn test_removal_without_backup() {
    let p = profile(BrowserType::Firefox, "dev");
    let (mut removal, _) = CookieRemoval::begin(&CookieRemover::without_backup(), p, vec![cookie("a", "x.com")], LINUX);
    match removal.advance(RemovalEvent::Running(false)) {
        RemovalAction::DeleteEach(sql) => {
            assert_eq!(sql, "DELETE FROM moz_cookies WHERE name = ?1 AND host = ?2 AND path = ?3")
        }
        _ => panic!("a backup was asked for"),
    }
    match removal.advance(RemovalEvent::Deleted(Ok(vec![Ok(1)]))) {
        RemovalAction::Finish(Ok(r)) => {
            assert_eq!(r.backup_path, None);
            assert_eq!(r.cookies_removed, 1);
        }
        _ => panic!("the removal did not finish"),
    }
}

#[test]
fn test_removal_stops_early() {
    let (mut removal, _) = CookieRemoval::begin(&CookieRemover::default(), profile(BrowserType::Edge, "e"), vec![], LINUX);
    match removal.advance(RemovalEvent::Running(true)) {
        RemovalAction::Finish(Err(CookieError::BrowserRunning(m))) => assert_eq!(m, "Edge"),
        _ => panic!("a running browser was not refused"),
    }
    let (mut removal, _) = CookieRemoval::begin(&CookieRemover::new(), profile(BrowserType::Brave, "b"), vec![], LINUX);
    removal.advance(RemovalEvent::Running(false));
    match removal.advance(RemovalEvent::BackedUp(Err(CookieError::BackupFailed("disk full".to_string())))) {
        RemovalAction::Finish(Err(CookieError::BackupFailed(m))) => assert_eq!(m, "disk full"),
        _ => panic!("a failed backup was not passed on"),
    }
    let (mut removal, _) =
        CookieRemoval::begin(&CookieRemover::without_backup(), profile(BrowserType::Safari, "s"), vec![], LINUX);
    match removal.advance(RemovalEvent::Running(false)) {
        RemovalAction::Finish(Err(CookieError::BrowserNotFound(m))) => assert_eq!(m, "Safari only supported on macOS"),
        _ => panic!("removal from Safari accepted"),
    }
    let (mut removal, _) =
        CookieRemoval::begin(&CookieRemover::without_backup(), profile(BrowserType::Chrome, "c"), vec![], LINUX);
    removal.advance(RemovalEvent::Running(false));
    match removal.advance(RemovalEvent::Deleted(Err(CookieError::DatabaseError("locked".to_string())))) {
        RemovalAction::Finish(Err(CookieError::DatabaseError(m))) => assert_eq!(m, "locked"),
        _ => panic!("a database error was not passed on"),
    }
}

#[test]
fn test_cookie_matcher_glob_sets() {
    let brokers = vec![BrokerCookiePattern {
        broker_id: "ads".to_string(),
        patterns: vec!["id_{a,b}".to_string(), "x?z".to_string()],
        domains: vec!["ads.com".to_string()],
    }];
    let matcher = CookieMatcher::new(brokers).unwrap();
    assert_eq!(matcher.match_cookie(&cookie("id_b", "ads.com")), Some("ads".to_string()));
    assert_eq!(matcher.match_cookie(&cookie("xyz", "www.ads.com")), Some("ads".to_string()));
    assert_eq!(matcher.match_cookie(&cookie("id_c", "ads.com")), None);
    let bad = vec![BrokerCookiePattern {
        broker_id: "bad".to_string(),
        patterns: vec!["ok*".to_string(), "{unclosed".to_string()],
        domains: vec![],
    }];
    assert!(matches!(CookieMatcher::new(bad), Err(CookieError::ParseError(_))));
}

#[test]
fn test_layouts_per_system() {
    let mac = TargetOs::MacOs;
    let win = TargetOs::Windows;
    assert_eq!(Browser::chrome_base_path("/Users/u", mac), "/Users/u/Library/Application Support/Google/Chrome");
    assert_eq!(
        Browser::chrome_base_path("C:\\Users\\u", win),
        "C:\\Users\\u\\AppData/Local/Google/Chrome/User Data"
    );
    assert_eq!(
        Browser::firefox_base_path("C:\\Users\\u\\", win),
        "C:\\Users\\u\\AppData/Roaming/Mozilla/Firefox/Profiles"
    );
    assert_eq!(Browser::edge_base_path("/home/u", LINUX), "/home/u/.config/microsoft-edge");
    assert_eq!(Browser::edge_base_path("/Users/u", mac), "/Users/u/Library/Application Support/Microsoft Edge");
    assert_eq!(
        Browser::brave_base_path("/home/u", LINUX),
        "/home/u/.config/BraveSoftware/Brave-Browser"
    );
    assert_eq!(
        Browser::firefox_fork_base_path("/Users/u", "zen", mac),
        "/Users/u/Library/Application Support/zen"
    );
    assert_eq!(Browser::firefox_fork_base_path("C:", "zen", win), "C:AppData/Roaming/zen");
    assert_eq!(
        Browser::choose_chromium_cookie_path("C:\\p\\Default", true, false, win),
        Some("C:\\p\\Default\\Network\\Cookies".to_string())
    );
    assert_eq!(
        Browser::safari_cookie_path("/Users/u", mac),
        Some("/Users/u/Library/Cookies/Cookies.binarycookies".to_string())
    );
    assert_eq!(Browser::safari_cookie_path("/home/u", LINUX), None);
    let safari = Browser::safari_profiles("/Users/u/Library/Cookies/Cookies.binarycookies".to_string(), true).unwrap();
    assert!(matches!(safari[0].browser_type, BrowserType::Safari) && safari[0].is_default);
    match Browser::safari_profiles("x".to_string(), false) {
        Err(CookieError::BrowserNotFound(m)) => assert_eq!(m, "Safari"),
        _ => panic!("a missing Safari cookie file was accepted"),
    }
    assert_eq!(Browser::process_name(BrowserType::Chrome, mac), Some("Google Chrome"));
    assert_eq!(Browser::process_name(BrowserType::Safari, mac), Some("Safari"));
    assert_eq!(Browser::process_name(BrowserType::Brave, win), Some("brave.exe"));
    assert_eq!(Browser::process_name(BrowserType::Safari, win), None);
    assert_eq!(Browser::process_query(win), ProcessQuery::Tasklist);
    assert_eq!(Browser::process_query(mac), ProcessQuery::Pgrep);
    assert_eq!(Browser::tasklist_filter("chrome.exe"), "IMAGENAME eq chrome.exe");
    assert!(Browser::tasklist_shows("chrome.exe   1234 Console", "chrome.exe"));
    assert!(!Browser::tasklist_shows("INFO: No tasks are running", "chrome.exe"));
    match CookieRemover::unsupported_for_removal(BrowserType::Safari, mac) {
        Some(CookieError::ParseError(m)) => assert_eq!(m, "Safari cookie removal not yet implemented"),
        _ => panic!("wrong error for Safari on macOS"),
    }
    match CookieScanner::unsupported_for_scan(BrowserType::Safari, LINUX) {
        Some(CookieError::BrowserNotFound(m)) => assert_eq!(m, "Safari only supported on macOS"),
        _ => panic!("wrong error for Safari elsewhere"),
    }
    assert!(matches!(
        CookieScanner::unsupported_for_scan(BrowserType::Safari, mac),
        Some(CookieError::ParseError(_))
    ));
    assert!(CookieScanner::unsupported_for_scan(BrowserType::Firefox, win).is_none());
}

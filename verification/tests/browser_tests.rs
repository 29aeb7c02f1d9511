use spectral::browser::actions::{domain_from_parse, extract_domain};
use spectral::browser::engine::{handle_browser_launch_error, is_wsl2_release, launch_args, RateLimiter};
use spectral::browser::error::BrowserError;
use spectral::browser::fingerprint::FingerprintConfig;

#[test]
fn error_test_error_display() {
    let err = BrowserError::NavigationError("page not found".to_string());
    assert_eq!(err.message(), "navigation failed: page not found");
}

#[test]
fn test_rate_limit_error() {
    let err = BrowserError::RateLimitExceeded("example.com".to_string());
    assert!(err.message().contains("example.com"));
}

#[test]
fn test_randomized_fingerprint() {
    let config = FingerprintConfig::randomized();
    assert!(!config.user_agent.is_empty());
    assert!(config.viewport_width > 0);
    assert!(config.viewport_height > 0);
    assert!(!config.timezone.is_empty());
}

#[test]
fn test_fingerprint_variation() {
    let _config1 = FingerprintConfig::randomized();
    let _config2 = FingerprintConfig::randomized();

    let configs: Vec<_> = (0..10).map(|_| FingerprintConfig::randomized()).collect();

    let first_ua = &configs[0].user_agent;
    let all_same = configs.iter().all(|c| &c.user_agent == first_ua);
    assert!(!all_same, "Expected variation in user agents");
}

#[test]
fn test_fingerprint_choices() {
    let f = FingerprintConfig::from_choice(2, 1);
    assert!(f.user_agent.contains("X11; Linux x86_64"));
    assert_eq!((f.viewport_width, f.viewport_height), (1366, 768));
    assert_eq!(f.timezone, "America/New_York");
    for _ in 0..20 {
        let r = FingerprintConfig::randomized();
        assert!([(1920, 1080), (1366, 768), (1536, 864), (1440, 900)]
            .contains(&(r.viewport_width, r.viewport_height)));
    }
}

#[test]
fn test_extract_domain() {
    assert_eq!(extract_domain("https://example.com/path").unwrap(), "example.com");
    assert_eq!(
        extract_domain("http://subdomain.example.com:8080/path").unwrap(),
        "subdomain.example.com"
    );
}

#[test]
fn test_extract_domain_invalid() {
    assert!(extract_domain("not-a-url").is_err());
}

#[test]
fn test_extract_domain_messages() {
    match domain_from_parse(Ok(None)) {
        Err(BrowserError::NavigationError(m)) => assert_eq!(m, "No host in URL"),
        _ => panic!("a URL without host gave a domain"),
    }
    match domain_from_parse(Err("relative URL without a base".to_string())) {
        Err(BrowserError::NavigationError(m)) => {
            assert_eq!(m, "Invalid URL: relative URL without a base")
        }
        _ => panic!("a parse error gave a domain"),
    }
    assert!(matches!(extract_domain("mailto:someone@example.com"), Err(BrowserError::NavigationError(_))));
}

#[test]
fn test_rate_limiter() {
    let mut limiter = RateLimiter::new(100);

    assert!(limiter.check_and_update("example.com", 1_000).is_ok());
    assert!(limiter.check_and_update("example.com", 1_000).is_err());
    assert!(limiter.check_and_update("example.com", 1_150).is_ok());
}

#[test]
fn test_rate_limiter_different_domains() {
    let mut limiter = RateLimiter::new(100);

    assert!(limiter.check_and_update("example.com", 5_000).is_ok());
    assert!(limiter.check_and_update("other.com", 5_000).is_ok());
}

#[test]
fn test_rate_limiter_refusal_keeps_last_access() {
    let mut limiter = RateLimiter::new(100);
    assert!(limiter.check_and_update("example.com", 0).is_ok());
    match limiter.check_and_update("example.com", 99) {
        Err(BrowserError::RateLimitExceeded(d)) => assert_eq!(d, "example.com"),
        _ => panic!("too early an access was let through"),
    }
    assert!(limiter.check_and_update("example.com", 100).is_ok());
}

#[test]
fn test_launch_error_help() {
    match handle_browser_launch_error("Could not auto detect a chrome executable".to_string()) {
        BrowserError::ChromiumError(m) => {
            assert!(m.starts_with("Chrome/Chromium not found. Please install:"));
            assert!(m.ends_with("\nOriginal error: Could not auto detect a chrome executable"));
        }
        _ => panic!("wrong error kind"),
    }
    match handle_browser_launch_error("ExitStatus(21)".to_string()) {
        BrowserError::ChromiumError(m) => {
            assert!(m.starts_with("Chrome failed to launch (exit status 21)."))
        }
        _ => panic!("wrong error kind"),
    }
    match handle_browser_launch_error("boom".to_string()) {
        BrowserError::ChromiumError(m) => assert_eq!(m, "boom"),
        _ => panic!("wrong error kind"),
    }
}

#[test]
fn test_wsl_and_launch_args() {
    assert!(is_wsl2_release("Linux version 5.15.90.1-microsoft-standard-WSL2"));
    assert!(is_wsl2_release("Linux version 4.4.0-MICROSOFT"));
    assert!(!is_wsl2_release("Linux version 6.1.0-18-amd64 (debian-kernel@lists.debian.org)"));
    assert_eq!(launch_args(false).len(), 6);
    let wsl = launch_args(true);
    assert_eq!(wsl.len(), 10);
    assert_eq!(wsl[0], "--headless");
    assert_eq!(wsl[6], "--single-process");
}

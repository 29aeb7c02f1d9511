//! Configuration sections with their defaults, and the rules by which
//! environment values override them.

use vstd::prelude::*;
use crate::text::{parse_u32, parse_u32_spec, str_eq};

verus! {

/// General application settings.
#[derive(Debug, Clone)]
pub struct GeneralConfig {
    /// UI theme: "light", "dark", or "system"
    pub theme: String,
    /// Whether to check for updates on startup
    pub check_updates: bool,
    /// Whether to send anonymous usage statistics
    pub telemetry: bool,
}

impl Default for GeneralConfig {
    fn default() -> (r: Self)
        ensures
            r.theme@ == "system"@,
            r.check_updates,
            !r.telemetry,
    {
        GeneralConfig { theme: "system".to_string(), check_updates: true, telemetry: false }
    }
}

/// Vault and encryption settings.
#[derive(Debug, Clone)]
pub struct VaultConfig {
    /// Auto-lock timeout in minutes (0 = never)
    pub auto_lock_minutes: u32,
    /// Argon2 memory cost in KB
    pub argon2_memory_kb: u32,
    /// Argon2 iteration count
    pub argon2_iterations: u32,
}

impl Default for VaultConfig {
    fn default() -> (r: Self)
        ensures
            r.auto_lock_minutes == 15,
            r.argon2_memory_kb == 262144,
            r.argon2_iterations == 4,
    {
        VaultConfig { auto_lock_minutes: 15, argon2_memory_kb: 262144, argon2_iterations: 4 }
    }
}

/// Scanning behavior settings.
#[derive(Debug, Clone)]
pub struct ScanningConfig {
    /// Number of concurrent scans allowed
    pub concurrent_scans: u32,
    /// Delay between scans in milliseconds
    pub delay_between_scans_ms: u64,
    /// Whether to respect robots.txt
    pub respect_robots_txt: bool,
    /// Request timeout in seconds
    pub timeout_secs: u64,
    /// User agent string
    pub user_agent: String,
}

impl Default for ScanningConfig {
    fn default() -> (r: Self)
        ensures
            r.concurrent_scans == 3,
            r.delay_between_scans_ms == 2000,
            r.respect_robots_txt,
            r.timeout_secs == 30,
            r.user_agent@ == "Spectral/0.1.0 (+https://github.com/spectral-privacy/spectral)"@,
    {
        ScanningConfig {
            concurrent_scans: 3,
            delay_between_scans_ms: 2000,
            respect_robots_txt: true,
            timeout_secs: 30,
            user_agent: "Spectral/0.1.0 (+https://github.com/spectral-privacy/spectral)".to_string(),
        }
    }
}

/// Browser automation settings.
#[derive(Debug, Clone)]
pub struct BrowserConfig {
    /// Run browser in headless mode
    pub headless: bool,
    /// Browser window width
    pub window_width: u32,
    /// Browser window height
    pub window_height: u32,
    /// Navigation timeout in seconds
    pub navigation_timeout_secs: u64,
}

impl Default for BrowserConfig {
    fn default() -> (r: Self)
        ensures
            r.headless,
            r.window_width == 1920,
            r.window_height == 1080,
            r.navigation_timeout_secs == 30,
    {
        BrowserConfig {
            headless: true,
            window_width: 1920,
            window_height: 1080,
            navigation_timeout_secs: 30,
        }
    }
}

/// Notification settings.
#[derive(Debug, Clone)]
pub struct NotificationConfig {
    /// Enable desktop notifications
    pub enabled: bool,
    /// Notify on scan completion
    pub notify_scan_complete: bool,
    /// Notify when PII is found
    pub notify_pii_found: bool,
    /// Notify on removal confirmation
    pub notify_removal_confirmed: bool,
}

impl Default for NotificationConfig {
    fn default() -> (r: Self)
        ensures
            r.enabled && r.notify_scan_complete && r.notify_pii_found
                && r.notify_removal_confirmed,
    {
        NotificationConfig {
            enabled: true,
            notify_scan_complete: true,
            notify_pii_found: true,
            notify_removal_confirmed: true,
        }
    }
}

/// What `str::parse::<bool>` yields: exactly `"true"` or `"false"`.
pub open spec fn parse_bool_spec(s: Seq<char>) -> Option<bool> {
    if s == "true"@ {
        Some(true)
    } else if s == "false"@ {
        Some(false)
    } else {
        None
    }
}

/// Parses a boolean the way `str::parse::<bool>` does.
pub fn parse_bool(s: &str) -> (r: Option<bool>)
    ensures
        r == parse_bool_spec(s@),
{
    if str_eq(s, "true") {
        Some(true)
    } else if str_eq(s, "false") {
        Some(false)
    } else {
        None
    }
}

/// Applies a `SPECTRAL_AUTO_LOCK_MINUTES` value: a number replaces the
/// auto-lock timeout, anything else leaves the settings as they were.
pub fn override_auto_lock_minutes(vault: &mut VaultConfig, value: &str)
    ensures
        final(vault).argon2_memory_kb == old(vault).argon2_memory_kb,
        final(vault).argon2_iterations == old(vault).argon2_iterations,
        final(vault).auto_lock_minutes == (match parse_u32_spec(value@) {
            Some(m) => m,
            None => old(vault).auto_lock_minutes,
        }),
{
    if let Some(minutes) = parse_u32(value) {
        vault.auto_lock_minutes = minutes;
    }
}

/// Applies a `SPECTRAL_HEADLESS` value: `true` or `false` replaces the
/// headless flag, anything else leaves the settings as they were.
pub fn override_headless(browser: &mut BrowserConfig, value: &str)
    ensures
        final(browser).window_width == old(browser).window_width,
        final(browser).window_height == old(browser).window_height,
        final(browser).navigation_timeout_secs == old(browser).navigation_timeout_secs,
        final(browser).headless == (match parse_bool_spec(value@) {
            Some(b) => b,
            None => old(browser).headless,
        }),
{
    if let Some(h) = parse_bool(value) {
        browser.headless = h;
    }
}

} // verus!

use spectral::auth::{AuthError, AuthState};
use spectral::shared::capabilities::{CapabilityRegistry, FeatureId};
use spectral::shared::config::{
    override_auto_lock_minutes, override_headless, parse_bool, BrowserConfig, GeneralConfig,
    NotificationConfig, ScanningConfig, VaultConfig,
};
use spectral::shared::error::{ConfigError, SpectralError};
use spectral::shared::types::{BrokerId, PiiField, ProfileId};

#[test]
fn test_default_registry() {
    let registry = CapabilityRegistry::new();

    assert!(registry.is_feature_available(FeatureId::ManualScanning));
    assert!(registry.is_feature_available(FeatureId::EncryptedVault));

    assert!(!registry.is_feature_available(FeatureId::LlmChat));
    assert!(!registry.is_feature_available(FeatureId::LlmGuidedBrowsing));
}

#[test]
fn test_enable_disable_feature() {
    let mut registry = CapabilityRegistry::new();

    assert!(!registry.is_feature_available(FeatureId::BrowserAutomation));

    registry.enable_feature(FeatureId::BrowserAutomation);
    assert!(registry.is_feature_available(FeatureId::BrowserAutomation));

    registry.disable_feature(FeatureId::BrowserAutomation);
    assert!(!registry.is_feature_available(FeatureId::BrowserAutomation));
}

#[test]
fn test_llm_features() {
    let mut registry = CapabilityRegistry::new();
    assert!(!registry.has_llm_capabilities());

    registry.enable_llm_features();
    assert!(registry.has_llm_capabilities());
    assert!(registry.is_feature_available(FeatureId::LlmChat));
    assert!(registry.is_feature_available(FeatureId::LlmGuidedBrowsing));

    registry.disable_llm_features();
    assert!(!registry.has_llm_capabilities());
}

#[test]
fn test_feature_metadata() {
    assert_eq!(FeatureId::LlmChat.display_name(), "LLM Chat Interface");
    assert!(!FeatureId::LlmChat.description().is_empty());
    assert!(FeatureId::LlmChat.requires_llm());
    assert!(!FeatureId::ManualScanning.requires_llm());
}

#[test]
fn test_all_features() {
    let features = CapabilityRegistry::all_features();
    assert!(!features.is_empty());
    assert!(features.contains(&FeatureId::LlmChat));
    assert!(features.contains(&FeatureId::ManualScanning));
}

#[test]
fn test_enabled_features_list() {
    let mut registry = CapabilityRegistry::new();
    registry.enable_feature(FeatureId::BrowserAutomation);

    let enabled = registry.enabled_features();
    assert!(enabled.contains(&FeatureId::ManualScanning));
    assert!(enabled.contains(&FeatureId::EncryptedVault));
    assert!(enabled.contains(&FeatureId::BrowserAutomation));
}

#[test]
fn test_enabling_twice_keeps_one_entry() {
    let mut registry = CapabilityRegistry::new();
    let before = registry.enabled_features().len();
    registry.enable_feature(FeatureId::BrowserAutomation);
    registry.enable_feature(FeatureId::BrowserAutomation);
    assert_eq!(registry.enabled_features().len(), before + 1);
    registry.disable_feature(FeatureId::BrowserAutomation);
    assert_eq!(registry.enabled_features().len(), before);
}

#[test]
fn test_llm_features_are_exactly_those_requiring_llm() {
    let llm = FeatureId::llm_features();
    for f in CapabilityRegistry::all_features() {
        assert_eq!(llm.contains(&f), f.requires_llm());
    }
    assert_eq!(llm.len(), 4);
}

#[test]
fn test_profile_id_valid() {
    let id = "550e8400-e29b-41d4-a716-446655440000";
    let profile_id = ProfileId::new(id).expect("valid profile ID");
    assert_eq!(profile_id.as_str(), id);
}

#[test]
fn test_profile_id_invalid() {
    let invalid_ids = vec![
        "not-a-uuid",
        "550e8400-e29b-51d4-a716-446655440000",
        "550e8400-e29b-41d4-x716-446655440000",
        "",
    ];

    for id in invalid_ids {
        assert!(ProfileId::new(id).is_err());
    }
}

#[test]
fn test_profile_id_generate() {
    let id1 = ProfileId::generate();
    let id2 = ProfileId::generate();
    assert_ne!(id1, id2);
}

#[test]
fn test_profile_id_generated_is_valid() {
    let id = ProfileId::generate();
    assert!(ProfileId::new(id.as_str()).is_ok());
    assert_eq!(id.as_str().len(), 36);
    assert_eq!(id.as_str().as_bytes()[14], b'4');
}

#[test]
fn test_profile_id_error_message() {
    match ProfileId::new("nope") {
        Err(e) => assert_eq!(
            e.message(),
            "validation error: invalid profile ID: must be a valid UUID v4, got 'nope'"
        ),
        Ok(_) => panic!("accepted an invalid id"),
    }
}

#[test]
fn test_broker_id_valid() {
    let valid_ids = vec![
        "spokeo",
        "been-verified",
        "fast-people-search",
        "whitepages-premium",
        "abc",
    ];

    for id in valid_ids {
        assert!(BrokerId::new(id).is_ok(), "Failed for: {id}");
    }
}

#[test]
fn test_broker_id_invalid() {
    let too_long = "a".repeat(51);
    let invalid_ids = vec![
        "AB",
        "Spokeo",
        "been_verified",
        "fast people",
        "-spokeo",
        "spokeo-",
        too_long.as_str(),
    ];

    for id in invalid_ids {
        assert!(BrokerId::new(id).is_err(), "Should fail for: {id}");
    }
}

#[test]
fn test_broker_id_error_messages() {
    match BrokerId::new("ab") {
        Err(e) => assert_eq!(
            e.message(),
            "validation error: invalid broker ID: must be 3-50 characters, got 2 characters"
        ),
        Ok(_) => panic!("accepted a short id"),
    }
    match BrokerId::new("Spokeo") {
        Err(e) => assert_eq!(
            e.message(),
            "validation error: invalid broker ID: must be lowercase alphanumeric with hyphens, got 'Spokeo'"
        ),
        Ok(_) => panic!("accepted an uppercase id"),
    }
    assert!(BrokerId::new(&"a".repeat(50)).is_ok());
}

#[test]
fn test_pii_field_display() {
    assert_eq!(PiiField::FullName.to_text(), "Full Name");
    assert_eq!(PiiField::Email.to_text(), "Email Address");
}

#[test]
fn test_pii_field_sensitivity() {
    assert_eq!(PiiField::Ssn.sensitivity_level(), 3);
    assert_eq!(PiiField::Email.sensitivity_level(), 2);
    assert_eq!(PiiField::City.sensitivity_level(), 1);
}

#[test]
fn test_pii_field_low_sensitivity() {
    assert_eq!(PiiField::Other.sensitivity_level(), 0);
    assert_eq!(PiiField::DateOfBirth.sensitivity_level(), 3);
    assert_eq!(PiiField::ZipCode.display_name(), "ZIP/Postal Code");
}

#[test]
fn error_test_error_display_core() {
    let err = SpectralError::Validation("invalid email".to_string());
    assert_eq!(err.message(), "validation error: invalid email");

    let err = ConfigError::NoConfigDir;
    assert_eq!(
        err.message(),
        "could not determine config directory (XDG base directories not available)"
    );
}

#[test]
fn test_error_from_config() {
    let config_err = ConfigError::NoConfigDir;
    let spectral_err: SpectralError = config_err.into();
    assert!(matches!(spectral_err, SpectralError::Config(_)));
}

#[test]
fn test_error_from_io() {
    let io_err = std::io::Error::new(std::io::ErrorKind::NotFound, "test");
    let spectral_err: SpectralError = io_err.into();
    assert!(matches!(spectral_err, SpectralError::Io(_)));
}

#[test]
fn test_config_error_messages() {
    let err = ConfigError::InvalidValue { field: "theme".to_string(), reason: "unknown".to_string() };
    assert_eq!(err.message(), "invalid config value for theme: unknown");
    let err = ConfigError::NotFound { path: "/x/config.toml".to_string() };
    assert_eq!(err.message(), "config file not found at /x/config.toml");
    let err = SpectralError::Config(ConfigError::NoConfigDir);
    assert_eq!(
        err.message(),
        "configuration error: could not determine config directory (XDG base directories not available)"
    );
}

#[test]
fn test_section_defaults() {
    assert_eq!(GeneralConfig::default().theme, "system");
    assert_eq!(VaultConfig::default().auto_lock_minutes, 15);
    assert_eq!(ScanningConfig::default().concurrent_scans, 3);
    assert!(BrowserConfig::default().headless);
    assert!(NotificationConfig::default().enabled);
}

#[test]
fn test_env_value_overrides() {
    let mut vault = VaultConfig::default();
    override_auto_lock_minutes(&mut vault, "30");
    assert_eq!(vault.auto_lock_minutes, 30);
    override_auto_lock_minutes(&mut vault, "soon");
    assert_eq!(vault.auto_lock_minutes, 30);
    override_auto_lock_minutes(&mut vault, "-1");
    assert_eq!(vault.auto_lock_minutes, 30);

    let mut browser = BrowserConfig::default();
    override_headless(&mut browser, "false");
    assert!(!browser.headless);
    override_headless(&mut browser, "yes");
    assert!(!browser.headless);
    assert_eq!(parse_bool("true"), Some(true));
    assert_eq!(parse_bool("TRUE"), None);
}

#[test]
fn test_auth_initial_state() {
    let auth = AuthState::new();
    assert!(!auth.is_authenticated());
    assert_eq!(auth.failed_attempts(), 0);
}

#[test]
fn test_auth_lock() {
    let mut auth = AuthState::new();
    auth.lock();
    assert!(!auth.is_authenticated());
    assert_eq!(auth.failed_attempts(), 0);
}

#[test]
fn test_auth_error_messages() {
    assert_eq!(AuthError::InvalidPin.message(), "invalid PIN");
    assert_eq!(AuthError::NotAuthenticated.message(), "not authenticated");
    assert_eq!(
        AuthError::RateLimited(std::time::Duration::from_secs(300)).message(),
        "too many failed attempts, locked for 300s"
    );
    assert_eq!(
        AuthError::RateLimited(std::time::Duration::from_millis(1500)).message(),
        "too many failed attempts, locked for 1.5s"
    );
}

use chrono::NaiveDate;
use spectral::broker::definition::{
    BrokerCategory, BrokerDefinition, BrokerMetadata, ConfirmationType, FormSelectors,
    RemovalDifficulty, RemovalMethod, SearchMethod,
};
use spectral::broker::error::BrokerError;
use spectral::broker::loader::{definition_file_name, is_definition_file, BrokerLoader};
use spectral::broker::registry::BrokerRegistry;
use spectral::broker::removal::{ManualSolver, RemovalOutcome};
use spectral::broker::web_form::{FormStep, WebFormSubmission};
use spectral::browser::error::BrowserError;
use spectral::shared::types::{BrokerId, PiiField};

fn selectors() -> FormSelectors {
    FormSelectors {
        listing_url_input: Some("#listing-url".to_string()),
        email_input: Some("input[name='email']".to_string()),
        first_name_input: None,
        last_name_input: None,
        submit_button: "button[type='submit']".to_string(),
        captcha_frame: None,
        success_indicator: Some(".success".to_string()),
    }
}

fn create_test_definition(
    id: &str,
    category: BrokerCategory,
    difficulty: RemovalDifficulty,
) -> BrokerDefinition {
    let fields = vec![("email".to_string(), "{user_email}".to_string())];

    BrokerDefinition {
        broker: BrokerMetadata {
            id: BrokerId::new(id).expect("valid broker ID"),
            name: format!("Test {id}"),
            url: "https://test.com".to_string(),
            domain: "test.com".to_string(),
            category,
            difficulty,
            typical_removal_days: 7,
            recheck_interval_days: 30,
            last_verified: NaiveDate::from_ymd_opt(2025, 5, 1).expect("valid date"),
        },
        search: SearchMethod::UrlTemplate {
            template: "https://test.com/{first}-{last}".to_string(),
            requires_fields: vec![PiiField::FirstName, PiiField::LastName],
        },
        removal: RemovalMethod::WebForm {
            url: "https://test.com/optout".to_string(),
            fields,
            form_selectors: selectors(),
            confirmation: ConfirmationType::EmailVerification,
            notes: String::new(),
        },
    }
}

#[test]
fn test_broker_category_display() {
    assert_eq!(BrokerCategory::PeopleSearch.display_name(), "People Search");
    assert_eq!(BrokerCategory::BackgroundCheck.display_name(), "Background Check");
}

#[test]
fn test_removal_difficulty_ordering() {
    assert!(RemovalDifficulty::Easy < RemovalDifficulty::Medium);
    assert!(RemovalDifficulty::Medium < RemovalDifficulty::Hard);
    assert!(RemovalDifficulty::Easy.rank() < RemovalDifficulty::Hard.rank());
}

#[test]
fn test_search_method_validation() {
    let broker_id = BrokerId::new("test-broker").expect("valid broker ID");

    let method = SearchMethod::UrlTemplate {
        template: "https://example.com/{first}-{last}".to_string(),
        requires_fields: vec![PiiField::FirstName, PiiField::LastName],
    };
    assert!(method.validate(&broker_id).is_ok());

    let method = SearchMethod::UrlTemplate {
        template: String::new(),
        requires_fields: vec![PiiField::FirstName],
    };
    assert!(method.validate(&broker_id).is_err());

    let method = SearchMethod::UrlTemplate {
        template: "https://example.com/{first}-{last}".to_string(),
        requires_fields: vec![],
    };
    assert!(method.validate(&broker_id).is_err());
}

#[test]
fn test_search_method_validation_messages() {
    let broker_id = BrokerId::new("test-broker").expect("valid broker ID");
    let method = SearchMethod::UrlTemplate {
        template: "https://example.com/search".to_string(),
        requires_fields: vec![],
    };
    match method.validate(&broker_id) {
        Err(BrokerError::ValidationError { broker_id, reason }) => {
            assert_eq!(broker_id, "test-broker");
            assert_eq!(reason, "UrlTemplate requires at least one PII field");
        }
        _ => panic!("a template without fields was accepted"),
    }
    let method = SearchMethod::Manual { url: String::new(), instructions: "x".to_string() };
    assert!(method.validate(&broker_id).is_err());
}

#[test]
fn test_removal_method_validation() {
    let broker_id = BrokerId::new("test-broker").expect("valid broker ID");

    let method = RemovalMethod::WebForm {
        url: "https://example.com/optout".to_string(),
        fields: vec![("email".to_string(), "{user_email}".to_string())],
        form_selectors: selectors(),
        confirmation: ConfirmationType::EmailVerification,
        notes: String::new(),
    };
    assert!(method.validate(&broker_id).is_ok());

    let method = RemovalMethod::WebForm {
        url: String::new(),
        fields: vec![("email".to_string(), "{user_email}".to_string())],
        form_selectors: selectors(),
        confirmation: ConfirmationType::EmailVerification,
        notes: String::new(),
    };
    assert!(method.validate(&broker_id).is_err());

    let method = RemovalMethod::Email {
        email: "privacy@example.com".to_string(),
        subject: "Removal Request".to_string(),
        body: "Please remove my data".to_string(),
        response_days: 7,
        notes: String::new(),
    };
    assert!(method.validate(&broker_id).is_ok());

    let method = RemovalMethod::Email {
        email: "privacy@example.com".to_string(),
        subject: "Removal Request".to_string(),
        body: "Please remove my data".to_string(),
        response_days: 0,
        notes: String::new(),
    };
    assert!(method.validate(&broker_id).is_err());
}

#[test]
fn test_manual_and_phone_removal_validation() {
    let broker_id = BrokerId::new("test-broker").expect("valid broker ID");
    assert!(RemovalMethod::Manual { instructions: String::new() }.validate(&broker_id).is_err());
    assert!(RemovalMethod::Manual { instructions: "Call them".to_string() }.validate(&broker_id).is_ok());
    let phone = RemovalMethod::Phone { phone: "555-0100".to_string(), instructions: String::new() };
    assert!(phone.validate(&broker_id).is_err());
    let method = RemovalMethod::Email {
        email: "privacy@example.com".to_string(),
        subject: "Removal Request".to_string(),
        body: "Please remove my data".to_string(),
        response_days: 91,
        notes: String::new(),
    };
    match method.validate(&broker_id) {
        Err(BrokerError::ValidationError { reason, .. }) => {
            assert_eq!(reason, "response_days must be 1-90, got 91")
        }
        _ => panic!("91 response days accepted"),
    }
}

#[test]
fn test_broker_definition_validation() {
    let definition =
        create_test_definition("test-broker", BrokerCategory::PeopleSearch, RemovalDifficulty::Easy);
    let mut definition = definition;
    definition.broker.name = "Test Broker".to_string();

    assert!(definition.validate().is_ok());

    let mut invalid_def = definition.clone();
    invalid_def.broker.typical_removal_days = 0;
    assert!(invalid_def.validate().is_err());

    let mut invalid_def = definition.clone();
    invalid_def.broker.recheck_interval_days = 500;
    assert!(invalid_def.validate().is_err());

    let mut invalid_def = definition;
    invalid_def.broker.name = String::new();
    assert!(invalid_def.validate().is_err());
}

#[test]
fn test_loader_new_with_existing_dir() {
    let loader = BrokerLoader::new(".");
    assert!(loader.is_ok());
    assert_eq!(loader.unwrap().definitions_dir(), ".");
}

#[test]
fn test_loader_new_with_nonexistent_dir() {
    let loader = BrokerLoader::new("/nonexistent/path/to/definitions");
    assert!(loader.is_err());
}

#[test]
fn test_loader_from_probe() {
    assert!(BrokerLoader::from_probe("/defs", true, true).is_ok());
    match BrokerLoader::from_probe("/defs", true, false) {
        Err(BrokerError::DirectoryNotFound { path }) => assert_eq!(path, "/defs"),
        _ => panic!("a file was accepted as the definitions directory"),
    }
    assert!(BrokerLoader::from_probe("/defs", false, false).is_err());
}

#[test]
fn test_definition_files() {
    assert!(is_definition_file("spokeo.toml"));
    assert!(!is_definition_file("README.toml"));
    assert!(!is_definition_file("notes.md"));
    let id = BrokerId::new("spokeo").expect("valid broker ID");
    assert_eq!(definition_file_name(&id), "spokeo.toml");
}

#[test]
fn test_registry_new() {
    let registry = BrokerRegistry::new();
    assert_eq!(registry.count(), 0);
}

#[test]
fn test_registry_insert_and_get() {
    let mut registry = BrokerRegistry::new();
    let definition =
        create_test_definition("test-broker", BrokerCategory::PeopleSearch, RemovalDifficulty::Easy);
    let broker_id = definition.id().clone();

    registry.insert(definition).expect("insert definition");

    let retrieved = registry.get(&broker_id).expect("get definition");
    assert_eq!(retrieved.id(), &broker_id);
    assert_eq!(retrieved.name(), "Test test-broker");
}

#[test]
fn test_registry_get_nonexistent() {
    let registry = BrokerRegistry::new();
    let broker_id = BrokerId::new("nonexistent").expect("valid broker ID");

    let result = registry.get(&broker_id);
    assert!(result.is_err());
    assert!(matches!(result.unwrap_err(), BrokerError::NotFound { .. }));
}

#[test]
fn test_registry_contains() {
    let mut registry = BrokerRegistry::new();
    let definition =
        create_test_definition("test-broker", BrokerCategory::PeopleSearch, RemovalDifficulty::Easy);
    let broker_id = definition.id().clone();

    assert!(!registry.contains(&broker_id));

    registry.insert(definition).expect("insert definition");

    assert!(registry.contains(&broker_id));
}

#[test]
fn test_registry_remove() {
    let mut registry = BrokerRegistry::new();
    let definition =
        create_test_definition("test-broker", BrokerCategory::PeopleSearch, RemovalDifficulty::Easy);
    let broker_id = definition.id().clone();

    registry.insert(definition).expect("insert definition");
    assert!(registry.contains(&broker_id));

    let removed = registry.remove(&broker_id);
    assert!(removed);
    assert!(!registry.contains(&broker_id));

    let removed = registry.remove(&broker_id);
    assert!(!removed);
}

fn three_brokers(d2: RemovalDifficulty, c2: BrokerCategory) -> BrokerRegistry {
    let mut registry = BrokerRegistry::new();
    registry
        .insert(create_test_definition("broker-1", BrokerCategory::PeopleSearch, RemovalDifficulty::Easy))
        .expect("insert broker 1");
    registry
        .insert(create_test_definition("broker-2", c2, d2))
        .expect("insert broker 2");
    registry
        .insert(create_test_definition("broker-3", BrokerCategory::PeopleSearch, RemovalDifficulty::Hard))
        .expect("insert broker 3");
    registry
}

#[test]
fn test_registry_get_all() {
    let registry = three_brokers(RemovalDifficulty::Medium, BrokerCategory::BackgroundCheck);
    let all = registry.get_all();
    assert_eq!(all.len(), 3);
}

#[test]
fn test_registry_get_by_category() {
    let registry = three_brokers(RemovalDifficulty::Medium, BrokerCategory::BackgroundCheck);

    let people_search = registry.get_by_category(BrokerCategory::PeopleSearch);
    assert_eq!(people_search.len(), 2);

    let background_check = registry.get_by_category(BrokerCategory::BackgroundCheck);
    assert_eq!(background_check.len(), 1);
}

#[test]
fn test_registry_get_by_difficulty() {
    let registry = three_brokers(RemovalDifficulty::Easy, BrokerCategory::BackgroundCheck);

    let easy = registry.get_by_difficulty(RemovalDifficulty::Easy);
    assert_eq!(easy.len(), 2);

    let hard = registry.get_by_difficulty(RemovalDifficulty::Hard);
    assert_eq!(hard.len(), 1);

    let medium = registry.get_by_difficulty(RemovalDifficulty::Medium);
    assert_eq!(medium.len(), 0);
}

#[test]
fn test_registry_get_by_category_and_difficulty() {
    let mut registry = BrokerRegistry::new();
    registry
        .insert(create_test_definition("broker-1", BrokerCategory::PeopleSearch, RemovalDifficulty::Easy))
        .expect("insert broker 1");
    registry
        .insert(create_test_definition("broker-2", BrokerCategory::PeopleSearch, RemovalDifficulty::Hard))
        .expect("insert broker 2");
    registry
        .insert(create_test_definition("broker-3", BrokerCategory::BackgroundCheck, RemovalDifficulty::Easy))
        .expect("insert broker 3");

    let results = registry
        .get_by_category_and_difficulty(BrokerCategory::PeopleSearch, RemovalDifficulty::Easy);
    assert_eq!(results.len(), 1);
    assert_eq!(results[0].id().as_str(), "broker-1");
}

fn count_of(counts: &[(BrokerCategory, usize)], c: BrokerCategory) -> Option<usize> {
    counts.iter().find(|(k, _)| *k == c).map(|(_, n)| *n)
}

#[test]
fn test_registry_count_by_category() {
    let mut registry = BrokerRegistry::new();
    registry
        .insert(create_test_definition("broker-1", BrokerCategory::PeopleSearch, RemovalDifficulty::Easy))
        .expect("insert broker 1");
    registry
        .insert(create_test_definition("broker-2", BrokerCategory::PeopleSearch, RemovalDifficulty::Hard))
        .expect("insert broker 2");
    registry
        .insert(create_test_definition("broker-3", BrokerCategory::BackgroundCheck, RemovalDifficulty::Easy))
        .expect("insert broker 3");

    let counts = registry.count_by_category();
    assert_eq!(count_of(&counts, BrokerCategory::PeopleSearch), Some(2));
    assert_eq!(count_of(&counts, BrokerCategory::BackgroundCheck), Some(1));
    assert_eq!(count_of(&counts, BrokerCategory::Marketing), None);
}

#[test]
fn test_registry_get_all_ids() {
    let mut registry = BrokerRegistry::new();
    registry
        .insert(create_test_definition("broker-1", BrokerCategory::PeopleSearch, RemovalDifficulty::Easy))
        .expect("insert broker 1");
    registry
        .insert(create_test_definition("broker-2", BrokerCategory::BackgroundCheck, RemovalDifficulty::Medium))
        .expect("insert broker 2");

    let ids = registry.get_all_ids();
    assert_eq!(ids.len(), 2);

    let id_strings: Vec<String> = ids.iter().map(|i| i.as_str().to_string()).collect();
    assert!(id_strings.contains(&"broker-1".to_string()));
    assert!(id_strings.contains(&"broker-2".to_string()));
}

#[test]
fn test_registry_insert_rejects_invalid_and_replaces() {
    let mut registry = BrokerRegistry::new();
    let mut bad = create_test_definition("broker-1", BrokerCategory::PeopleSearch, RemovalDifficulty::Easy);
    bad.broker.typical_removal_days = 0;
    assert!(matches!(registry.insert(bad), Err(BrokerError::ValidationError { .. })));
    assert_eq!(registry.count(), 0);

    registry
        .insert(create_test_definition("broker-1", BrokerCategory::PeopleSearch, RemovalDifficulty::Easy))
        .expect("insert");
    registry
        .insert(create_test_definition("broker-1", BrokerCategory::Marketing, RemovalDifficulty::Hard))
        .expect("replace");
    assert_eq!(registry.count(), 1);
    let id = BrokerId::new("broker-1").expect("valid broker ID");
    assert_eq!(registry.get(&id).expect("get").category(), BrokerCategory::Marketing);
}

#[test]
fn test_registry_reload_replaces_everything() {
    let mut registry = three_brokers(RemovalDifficulty::Medium, BrokerCategory::BackgroundCheck);
    registry.reload_with(vec![create_test_definition(
        "broker-9",
        BrokerCategory::Other,
        RemovalDifficulty::Easy,
    )]);
    assert_eq!(registry.count(), 1);
    assert!(registry.contains(&BrokerId::new("broker-9").expect("valid broker ID")));
}

#[test]
fn test_requires_user_action() {
    let outcome = RemovalOutcome::RequiresCaptcha { captcha_url: "https://example.com".to_string() };
    assert!(outcome.requires_user_action());

    let outcome = RemovalOutcome::Submitted;
    assert!(!outcome.requires_user_action());
}

#[test]
fn test_is_failure() {
    let outcome = RemovalOutcome::Failed { reason: "Timeout".to_string(), error_details: None };
    assert!(outcome.is_failure());

    let outcome = RemovalOutcome::Submitted;
    assert!(!outcome.is_failure());
}

#[test]
fn test_is_success() {
    let outcome = RemovalOutcome::Submitted;
    assert!(outcome.is_success());

    let outcome = RemovalOutcome::Failed { reason: "Error".to_string(), error_details: None };
    assert!(!outcome.is_success());
}

#[test]
fn test_manual_solver_returns_false() {
    assert!(!ManualSolver.solve("#captcha"));
}

#[test]
fn test_error_messages() {
    let e = BrokerError::NotFound { broker_id: "spokeo".to_string() };
    assert_eq!(e.message(), "broker definition not found: spokeo");
    let e = BrokerError::ValidationError { broker_id: "spokeo".to_string(), reason: "bad".to_string() };
    assert_eq!(e.message(), "invalid broker definition for spokeo: bad");
}

fn field_values() -> Vec<(String, String)> {
    vec![
        ("first_name".to_string(), "Jane".to_string()),
        ("email".to_string(), "jane@example.com".to_string()),
        ("listing_url".to_string(), "https://test.com/jane".to_string()),
        ("nickname".to_string(), "JJ".to_string()),
    ]
}

#[test]
fn test_web_form_plan() {
    let def = create_test_definition("broker-1", BrokerCategory::PeopleSearch, RemovalDifficulty::Easy);
    let mut s = WebFormSubmission::begin(&def, field_values()).expect("a web form");
    let mut seen = Vec::new();
    while let Some(step) = s.current() {
        seen.push(match step {
            FormStep::Navigate { url } => format!("navigate {url}"),
            FormStep::DetectCaptcha { selector, .. } => format!("captcha {selector}"),
            FormStep::Fill { field, selector, value } => format!("fill {field} {selector} {value}"),
            FormStep::Click { selector } => format!("click {selector}"),
            FormStep::Settle { secs } => format!("settle {secs}"),
            FormStep::AwaitConfirmation { selector, timeout_ms } => format!("await {selector} {timeout_ms}"),
        });
        let done = s.advance(Ok(()));
        if let Some(outcome) = done {
            match outcome {
                Ok(RemovalOutcome::RequiresEmailVerification { email, sent_to }) => {
                    assert_eq!(email, "jane@example.com");
                    assert_eq!(sent_to, "jane@example.com");
                }
                _ => panic!("unexpected outcome"),
            }
        }
    }
    assert_eq!(
        seen,
        vec![
            "navigate https://test.com/optout".to_string(),
            "fill email input[name='email'] jane@example.com".to_string(),
            "fill listing_url #listing-url https://test.com/jane".to_string(),
            "click button[type='submit']".to_string(),
            "settle 2".to_string(),
            "await .success 5000".to_string(),
        ]
    );
}

#[test]
fn test_web_form_failures() {
    let def = create_test_definition("broker-1", BrokerCategory::PeopleSearch, RemovalDifficulty::Easy);
    let mut s = WebFormSubmission::begin(&def, field_values()).expect("a web form");
    match s.advance(Err(BrowserError::NavigationError("offline".to_string()))) {
        Some(Err(BrokerError::RemovalError { broker_id, reason })) => {
            assert_eq!(broker_id, "broker-1");
            assert_eq!(reason, "Navigation failed: navigation failed: offline");
        }
        _ => panic!("navigation failure not reported"),
    }
    assert!(s.current().is_none());

    let mut s = WebFormSubmission::begin(&def, field_values()).expect("a web form");
    assert!(s.advance(Ok(())).is_none());
    match s.advance(Err(BrowserError::SelectorNotFound("x".to_string()))) {
        Some(Err(BrokerError::RemovalError { reason, .. })) => {
            assert_eq!(reason, "Failed to fill field email: selector not found: x")
        }
        _ => panic!("fill failure not reported"),
    }

    let mut s = WebFormSubmission::begin(&def, vec![]).expect("a web form");
    for _ in 0..3 {
        assert!(s.advance(Ok(())).is_none());
    }
    match s.advance(Err(BrowserError::Timeout("t".to_string()))) {
        Some(Ok(RemovalOutcome::Failed { reason, error_details })) => {
            assert_eq!(reason, "Success confirmation not detected");
            assert!(error_details.is_none());
        }
        _ => panic!("missing confirmation not reported"),
    }
}

#[test]
fn test_web_form_captcha_and_plain_submit() {
    let mut def = create_test_definition("broker-1", BrokerCategory::PeopleSearch, RemovalDifficulty::Easy);
    def.removal = RemovalMethod::WebForm {
        url: "https://test.com/optout".to_string(),
        fields: vec![],
        form_selectors: FormSelectors {
            listing_url_input: None,
            email_input: None,
            first_name_input: None,
            last_name_input: None,
            submit_button: "#go".to_string(),
            captcha_frame: Some("#captcha".to_string()),
            success_indicator: None,
        },
        confirmation: ConfirmationType::Automatic,
        notes: String::new(),
    };
    let mut s = WebFormSubmission::begin(&def, vec![]).expect("a web form");
    assert!(s.advance(Ok(())).is_none());
    match s.advance(Ok(())) {
        Some(Ok(RemovalOutcome::RequiresCaptcha { captcha_url })) => {
            assert_eq!(captcha_url, "https://test.com/optout")
        }
        _ => panic!("captcha not reported"),
    }

    let mut s = WebFormSubmission::begin(&def, vec![]).expect("a web form");
    assert!(s.advance(Ok(())).is_none());
    assert!(s.advance(Err(BrowserError::Timeout("no captcha".to_string()))).is_none());
    assert!(s.advance(Ok(())).is_none());
    assert!(matches!(s.advance(Ok(())), Some(Ok(RemovalOutcome::Submitted))));
}

#[test]
fn test_web_form_needs_web_form_removal() {
    let mut def = create_test_definition("broker-1", BrokerCategory::PeopleSearch, RemovalDifficulty::Easy);
    def.removal = RemovalMethod::Manual { instructions: "Call".to_string() };
    match WebFormSubmission::begin(&def, vec![]) {
        Err(BrokerError::RemovalError { broker_id, reason }) => {
            assert_eq!(broker_id, "broker-1");
            assert_eq!(reason, "Not a web-form removal method");
        }
        _ => panic!("a manual removal was planned as a web form"),
    }
}

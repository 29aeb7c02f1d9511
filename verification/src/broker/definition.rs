//! Broker definition types and their validation.

use vstd::prelude::*;
use crate::shared::types::{BrokerId, PiiField};
use crate::broker::error::BrokerError;
use crate::text::{concat_strs, u64_to_string, decimal};

verus! {

/// chrono's calendar date, carried through unchanged.
#[verifier::external_type_specification]
#[verifier::external_body]
pub struct ExNaiveDate(chrono::NaiveDate);

/// A form field mapping: the form field's name and the template of its value.
pub type FieldMapping = (String, String);

/// Complete broker definition.
#[derive(Debug)]
pub struct BrokerDefinition {
    /// Core broker metadata
    pub broker: BrokerMetadata,
    /// Search configuration
    pub search: SearchMethod,
    /// Removal/opt-out configuration
    pub removal: RemovalMethod,
}

/// Core broker metadata.
#[derive(Debug)]
pub struct BrokerMetadata {
    /// Unique broker identifier (e.g., "spokeo", "beenverified")
    pub id: BrokerId,
    /// Human-readable broker name
    pub name: String,
    /// Broker website URL
    pub url: String,
    /// Broker domain (e.g., "spokeo.com")
    pub domain: String,
    /// Broker category
    pub category: BrokerCategory,
    /// Difficulty level for removal
    pub difficulty: RemovalDifficulty,
    /// Typical number of days for removal to complete
    pub typical_removal_days: u32,
    /// Days between rechecks after removal
    pub recheck_interval_days: u32,
    /// Date when this definition was last verified
    pub last_verified: chrono::NaiveDate,
}

/// Categories of data brokers.
#[derive(Debug, Clone, Copy, PartialEq, Eq, Hash, Structural)]
pub enum BrokerCategory {
    /// People search engines (Spokeo, `BeenVerified`, etc.)
    PeopleSearch,
    /// Background check services
    BackgroundCheck,
    /// Data aggregators
    DataAggregator,
    /// Financial/credit data
    Financial,
    /// Government records
    GovernmentRecords,
    /// Marketing data brokers
    Marketing,
    /// Social media aggregators
    SocialMedia,
    /// Other/uncategorized
    Other,
}

/// Human-readable name of a broker category.
pub open spec fn category_display_name(c: BrokerCategory) -> &'static str {
    match c {
        BrokerCategory::PeopleSearch => "People Search",
        BrokerCategory::BackgroundCheck => "Background Check",
        BrokerCategory::DataAggregator => "Data Aggregator",
        BrokerCategory::Financial => "Financial",
        BrokerCategory::GovernmentRecords => "Government Records",
        BrokerCategory::Marketing => "Marketing",
        BrokerCategory::SocialMedia => "Social Media",
        BrokerCategory::Other => "Other",
    }
}

impl BrokerCategory {
    /// A human-readable display name.
    pub fn display_name(&self) -> (r: &'static str)
        ensures
            r == category_display_name(*self),
    {
        match self {
            BrokerCategory::PeopleSearch => "People Search",
            BrokerCategory::BackgroundCheck => "Background Check",
            BrokerCategory::DataAggregator => "Data Aggregator",
            BrokerCategory::Financial => "Financial",
            BrokerCategory::GovernmentRecords => "Government Records",
            BrokerCategory::Marketing => "Marketing",
            BrokerCategory::SocialMedia => "Social Media",
            BrokerCategory::Other => "Other",
        }
    }
}

/// Difficulty level for removal from a broker, ordered from easiest.
#[derive(Debug, Clone, Copy, PartialEq, Eq, PartialOrd, Ord, Hash, Structural)]
pub enum RemovalDifficulty {
    /// Simple web form, quick response
    Easy,
    /// Requires email verification or multiple steps
    Medium,
    /// Requires manual intervention, phone calls, or legal action
    Hard,
}

/// Position of a difficulty in the order `Easy < Medium < Hard`.
pub open spec fn difficulty_rank(d: RemovalDifficulty) -> nat {
    match d {
        RemovalDifficulty::Easy => 0,
        RemovalDifficulty::Medium => 1,
        RemovalDifficulty::Hard => 2,
    }
}

impl RemovalDifficulty {
    /// Position of this difficulty in the order `Easy < Medium < Hard`.
    pub fn rank(&self) -> (r: u8)
        ensures
            r == difficulty_rank(*self),
    {
        match self {
            RemovalDifficulty::Easy => 0,
            RemovalDifficulty::Medium => 1,
            RemovalDifficulty::Hard => 2,
        }
    }
}

/// Methods for searching a broker site.
#[derive(Debug)]
pub enum SearchMethod {
    /// URL template with variable substitution
    UrlTemplate {
        /// URL template with placeholders (e.g., `https://example.com/{first}-{last}/{state}`)
        template: String,
        /// PII fields required for search
        requires_fields: Vec<PiiField>,
    },
    /// Web form that needs to be filled out
    WebForm {
        /// URL of the search form
        url: String,
        /// Form field mappings
        fields: Vec<FieldMapping>,
        /// PII fields required for search
        requires_fields: Vec<PiiField>,
    },
    /// Requires manual search (no automation possible)
    Manual {
        /// URL to start manual search
        url: String,
        /// Instructions for manual search
        instructions: String,
    },
}

/// CSS selectors for web form elements.
#[derive(Debug)]
pub struct FormSelectors {
    /// Selector for listing URL input
    pub listing_url_input: Option<String>,
    /// Selector for email input
    pub email_input: Option<String>,
    /// Selector for first name input
    pub first_name_input: Option<String>,
    /// Selector for last name input
    pub last_name_input: Option<String>,
    /// Selector for submit button
    pub submit_button: String,
    /// Selector for CAPTCHA iframe or container
    pub captcha_frame: Option<String>,
    /// Selector for success confirmation message
    pub success_indicator: Option<String>,
}

/// Methods for removal/opt-out from a broker.
#[derive(Debug)]
pub enum RemovalMethod {
    /// Web form submission
    WebForm {
        /// URL of the opt-out form
        url: String,
        /// Form field mappings (e.g., "`listing_url`" -> "`{found_listing_url}`")
        fields: Vec<FieldMapping>,
        /// CSS selectors for form elements
        form_selectors: FormSelectors,
        /// Confirmation method
        confirmation: ConfirmationType,
        /// Additional notes or instructions
        notes: String,
    },
    /// Email-based removal
    Email {
        /// Email address for removal requests
        email: String,
        /// Email subject template
        subject: String,
        /// Email body template
        body: String,
        /// Expected response time in days
        response_days: u32,
        /// Additional notes
        notes: String,
    },
    /// Phone-based removal
    Phone {
        /// Phone number to call
        phone: String,
        /// Instructions for phone call
        instructions: String,
    },
    /// Manual process with instructions
    Manual {
        /// Instructions for manual removal
        instructions: String,
    },
}

/// How removal confirmation is handled.
#[derive(Debug, Clone, Copy, PartialEq, Eq, Structural)]
pub enum ConfirmationType {
    /// Requires email verification via link
    EmailVerification,
    /// Automatic confirmation (no follow-up needed)
    Automatic,
    /// Manual verification required (check back later)
    Manual,
}

/// The first problem in a search method's configuration, if any.
pub open spec fn search_problem(m: SearchMethod) -> Option<Seq<char>> {
    match m {
        SearchMethod::UrlTemplate { template, requires_fields } => if template@.len() == 0 {
            Some("URL template cannot be empty"@)
        } else if requires_fields@.len() == 0 {
            Some("UrlTemplate requires at least one PII field"@)
        } else {
            None
        },
        SearchMethod::WebForm { url, fields, requires_fields } => if url@.len() == 0 {
            Some("WebForm URL cannot be empty"@)
        } else if fields@.len() == 0 {
            Some("WebForm requires at least one field mapping"@)
        } else if requires_fields@.len() == 0 {
            Some("WebForm requires at least one PII field"@)
        } else {
            None
        },
        SearchMethod::Manual { url, instructions } => if url@.len() == 0 {
            Some("Manual search URL cannot be empty"@)
        } else if instructions@.len() == 0 {
            Some("Manual search instructions cannot be empty"@)
        } else {
            None
        },
    }
}

/// The first problem in a removal method's configuration, if any.
pub open spec fn removal_problem(m: RemovalMethod) -> Option<Seq<char>> {
    match m {
        RemovalMethod::WebForm { url, fields, form_selectors, .. } => if url@.len() == 0 {
            Some("removal.url cannot be empty for web-form method"@)
        } else if fields@.len() == 0 {
            Some("removal.fields cannot be empty for web-form method"@)
        } else if form_selectors.submit_button@.len() == 0 {
            Some("removal.form_selectors.submit_button is required"@)
        } else {
            None
        },
        RemovalMethod::Email { email, subject, body, response_days, .. } => if email@.len() == 0 {
            Some("Email removal requires email address"@)
        } else if subject@.len() == 0 {
            Some("Email removal requires subject template"@)
        } else if body@.len() == 0 {
            Some("Email removal requires body template"@)
        } else if response_days == 0 || response_days > 90 {
            Some("response_days must be 1-90, got "@ + decimal(response_days as nat))
        } else {
            None
        },
        RemovalMethod::Phone { phone, instructions } => if phone@.len() == 0 {
            Some("Phone removal requires phone number"@)
        } else if instructions@.len() == 0 {
            Some("Phone removal requires instructions"@)
        } else {
            None
        },
        RemovalMethod::Manual { instructions } => if instructions@.len() == 0 {
            Some("Manual removal requires instructions"@)
        } else {
            None
        },
    }
}

/// The first problem in a whole definition, checked in order: name, URL,
/// typical removal days, recheck interval, search method, removal method.
pub open spec fn definition_problem(d: BrokerDefinition) -> Option<Seq<char>> {
    if d.broker.name@.len() == 0 {
        Some("broker name cannot be empty"@)
    } else if d.broker.url@.len() == 0 {
        Some("broker URL cannot be empty"@)
    } else if d.broker.typical_removal_days == 0 || d.broker.typical_removal_days > 365 {
        Some("typical_removal_days must be 1-365, got "@ + decimal(d.broker.typical_removal_days as nat))
    } else if d.broker.recheck_interval_days == 0 || d.broker.recheck_interval_days > 365 {
        Some("recheck_interval_days must be 1-365, got "@ + decimal(d.broker.recheck_interval_days as nat))
    } else if search_problem(d.search) is Some {
        search_problem(d.search)
    } else {
        removal_problem(d.removal)
    }
}

/// `r` is what validation yields for broker `id` when the first problem is
/// `problem`: success without a problem, else a validation error naming the
/// broker and the problem.
pub open spec fn validation_outcome(id: Seq<char>, problem: Option<Seq<char>>, r: Result<(), BrokerError>) -> bool {
    match problem {
        None => r is Ok,
        Some(reason) => r matches Err(BrokerError::ValidationError { broker_id, reason: got })
            && broker_id@ == id && got@ == reason,
    }
}

/// A validation error for `broker_id` with the given reason.
fn invalid(broker_id: &BrokerId, reason: String) -> (r: Result<(), BrokerError>)
    ensures
        r matches Err(BrokerError::ValidationError { broker_id: b, reason: got }) && b@
            == broker_id@ && got@ == reason@,
{
    Err(BrokerError::ValidationError { broker_id: broker_id.as_str().to_string(), reason })
}

impl SearchMethod {
    /// Validates the search method configuration.
    pub fn validate(&self, broker_id: &BrokerId) -> (r: Result<(), BrokerError>)
        ensures
            validation_outcome(broker_id@, search_problem(*self), r),
    {
        match self {
            SearchMethod::UrlTemplate { template, requires_fields } => {
                if template.as_str().is_empty() {
                    return invalid(broker_id, "URL template cannot be empty".to_string());
                }
                if requires_fields.len() == 0 {
                    return invalid(
                        broker_id,
                        "UrlTemplate requires at least one PII field".to_string(),
                    );
                }
            },
            SearchMethod::WebForm { url, fields, requires_fields } => {
                if url.as_str().is_empty() {
                    return invalid(broker_id, "WebForm URL cannot be empty".to_string());
                }
                if fields.len() == 0 {
                    return invalid(
                        broker_id,
                        "WebForm requires at least one field mapping".to_string(),
                    );
                }
                if requires_fields.len() == 0 {
                    return invalid(broker_id, "WebForm requires at least one PII field".to_string());
                }
            },
            SearchMethod::Manual { url, instructions } => {
                if url.as_str().is_empty() {
                    return invalid(broker_id, "Manual search URL cannot be empty".to_string());
                }
                if instructions.as_str().is_empty() {
                    return invalid(
                        broker_id,
                        "Manual search instructions cannot be empty".to_string(),
                    );
                }
            },
        }
        Ok(())
    }
}

impl RemovalMethod {
    /// Validates the removal method configuration.
    pub fn validate(&self, broker_id: &BrokerId) -> (r: Result<(), BrokerError>)
        ensures
            validation_outcome(broker_id@, removal_problem(*self), r),
    {
        match self {
            RemovalMethod::WebForm { url, fields, form_selectors, .. } => Self::validate_web_form(
                broker_id,
                url.as_str(),
                fields,
                form_selectors,
            ),
            RemovalMethod::Email { email, subject, body, response_days, .. } => Self::validate_email(
                broker_id,
                email.as_str(),
                subject.as_str(),
                body.as_str(),
                *response_days,
            ),
            RemovalMethod::Phone { phone, instructions } => Self::validate_phone(
                broker_id,
                phone.as_str(),
                instructions.as_str(),
            ),
            RemovalMethod::Manual { instructions } => Self::validate_manual(
                broker_id,
                instructions.as_str(),
            ),
        }
    }

    fn validate_web_form(
        broker_id: &BrokerId,
        url: &str,
        fields: &Vec<FieldMapping>,
        form_selectors: &FormSelectors,
    ) -> (r: Result<(), BrokerError>)
        ensures
            validation_outcome(
                broker_id@,
                if url@.len() == 0 {
                    Some("removal.url cannot be empty for web-form method"@)
                } else if fields@.len() == 0 {
                    Some("removal.fields cannot be empty for web-form method"@)
                } else if form_selectors.submit_button@.len() == 0 {
                    Some("removal.form_selectors.submit_button is required"@)
                } else {
                    None
                },
                r,
            ),
    {
        if url.is_empty() {
            return invalid(broker_id, "removal.url cannot be empty for web-form method".to_string());
        }
        if fields.len() == 0 {
            return invalid(
                broker_id,
                "removal.fields cannot be empty for web-form method".to_string(),
            );
        }
        if form_selectors.submit_button.as_str().is_empty() {
            return invalid(
                broker_id,
                "removal.form_selectors.submit_button is required".to_string(),
            );
        }
        Ok(())
    }

    fn validate_email(
        broker_id: &BrokerId,
        email: &str,
        subject: &str,
        body: &str,
        response_days: u32,
    ) -> (r: Result<(), BrokerError>)
        ensures
            validation_outcome(
                broker_id@,
                if email@.len() == 0 {
                    Some("Email removal requires email address"@)
                } else if subject@.len() == 0 {
                    Some("Email removal requires subject template"@)
                } else if body@.len() == 0 {
                    Some("Email removal requires body template"@)
                } else if response_days == 0 || response_days > 90 {
                    Some("response_days must be 1-90, got "@ + decimal(response_days as nat))
                } else {
                    None
                },
                r,
            ),
    {
        if email.is_empty() {
            return invalid(broker_id, "Email removal requires email address".to_string());
        }
        if subject.is_empty() {
            return invalid(broker_id, "Email removal requires subject template".to_string());
        }
        if body.is_empty() {
            return invalid(broker_id, "Email removal requires body template".to_string());
        }
        if response_days == 0 || response_days > 90 {
            let n = u64_to_string(response_days as u64);
            return invalid(
                broker_id,
                concat_strs("response_days must be 1-90, got ", n.as_str()),
            );
        }
        Ok(())
    }

    fn validate_phone(broker_id: &BrokerId, phone: &str, instructions: &str) -> (r: Result<
        (),
        BrokerError,
    >)
        ensures
            validation_outcome(
                broker_id@,
                if phone@.len() == 0 {
                    Some("Phone removal requires phone number"@)
                } else if instructions@.len() == 0 {
                    Some("Phone removal requires instructions"@)
                } else {
                    None
                },
                r,
            ),
    {
        if phone.is_empty() {
            return invalid(broker_id, "Phone removal requires phone number".to_string());
        }
        if instructions.is_empty() {
            return invalid(broker_id, "Phone removal requires instructions".to_string());
        }
        Ok(())
    }

    fn validate_manual(broker_id: &BrokerId, instructions: &str) -> (r: Result<(), BrokerError>)
        ensures
            validation_outcome(
                broker_id@,
                if instructions@.len() == 0 {
                    Some("Manual removal requires instructions"@)
                } else {
                    None
                },
                r,
            ),
    {
        if instructions.is_empty() {
            return invalid(broker_id, "Manual removal requires instructions".to_string());
        }
        Ok(())
    }
}

impl BrokerDefinition {
    /// The broker ID.
    pub fn id(&self) -> (r: &BrokerId)
        ensures
            r == &self.broker.id,
    {
        &self.broker.id
    }

    /// The broker name.
    pub fn name(&self) -> (r: &str)
        ensures
            r@ == self.broker.name@,
    {
        self.broker.name.as_str()
    }

    /// The broker category.
    pub fn category(&self) -> (r: BrokerCategory)
        ensures
            r == self.broker.category,
    {
        self.broker.category
    }

    /// Validates the definition for completeness and correctness: metadata
    /// first, then the search method, then the removal method.
    pub fn validate(&self) -> (r: Result<(), BrokerError>)
        ensures
            validation_outcome(self.broker.id@, definition_problem(*self), r),
    {
        let id = &self.broker.id;
        if self.broker.name.as_str().is_empty() {
            return invalid(id, "broker name cannot be empty".to_string());
        }
        if self.broker.url.as_str().is_empty() {
            return invalid(id, "broker URL cannot be empty".to_string());
        }
        let typical = self.broker.typical_removal_days;
        if typical == 0 || typical > 365 {
            let n = u64_to_string(typical as u64);
            return invalid(id, concat_strs("typical_removal_days must be 1-365, got ", n.as_str()));
        }
        let recheck = self.broker.recheck_interval_days;
        if recheck == 0 || recheck > 365 {
            let n = u64_to_string(recheck as u64);
            return invalid(id, concat_strs("recheck_interval_days must be 1-365, got ", n.as_str()));
        }
        let s = self.search.validate(id);
        if s.is_err() {
            return s;
        }
        self.removal.validate(id)
    }
}

/// Two search methods are the same variant with equal contents.
pub open spec fn search_eq(a: SearchMethod, b: SearchMethod) -> bool {
    match (a, b) {
        (
            SearchMethod::UrlTemplate { template: t1, requires_fields: f1 },
            SearchMethod::UrlTemplate { template: t2, requires_fields: f2 },
        ) => t1 == t2 && f1@ == f2@,
        (
            SearchMethod::WebForm { url: u1, fields: m1, requires_fields: f1 },
            SearchMethod::WebForm { url: u2, fields: m2, requires_fields: f2 },
        ) => u1 == u2 && m1@ == m2@ && f1@ == f2@,
        (
            SearchMethod::Manual { url: u1, instructions: i1 },
            SearchMethod::Manual { url: u2, instructions: i2 },
        ) => u1 == u2 && i1 == i2,
        _ => false,
    }
}

/// Two removal methods are the same variant with equal contents.
pub open spec fn removal_eq(a: RemovalMethod, b: RemovalMethod) -> bool {
    match (a, b) {
        (
            RemovalMethod::WebForm {
                url: u1,
                fields: m1,
                form_selectors: s1,
                confirmation: c1,
                notes: n1,
            },
            RemovalMethod::WebForm {
                url: u2,
                fields: m2,
                form_selectors: s2,
                confirmation: c2,
                notes: n2,
            },
        ) => u1 == u2 && m1@ == m2@ && s1 == s2 && c1 == c2 && n1 == n2,
        (
            RemovalMethod::Email {
                email: e1,
                subject: s1,
                body: b1,
                response_days: d1,
                notes: n1,
            },
            RemovalMethod::Email {
                email: e2,
                subject: s2,
                body: b2,
                response_days: d2,
                notes: n2,
            },
        ) => e1 == e2 && s1 == s2 && b1 == b2 && d1 == d2 && n1 == n2,
        (
            RemovalMethod::Phone { phone: p1, instructions: i1 },
            RemovalMethod::Phone { phone: p2, instructions: i2 },
        ) => p1 == p2 && i1 == i2,
        (
            RemovalMethod::Manual { instructions: i1 },
            RemovalMethod::Manual { instructions: i2 },
        ) => i1 == i2,
        _ => false,
    }
}

/// The broker's metadata is complete: a name, a URL, and removal and
/// recheck times of 1 to 365 days.
pub open spec fn metadata_valid(d: BrokerDefinition) -> bool {
    &&& d.broker.name@.len() > 0
    &&& d.broker.url@.len() > 0
    &&& 1 <= d.broker.typical_removal_days <= 365
    &&& 1 <= d.broker.recheck_interval_days <= 365
}

/// A definition passes validation exactly when its metadata, its search
/// method and its removal method all pass; a definition whose metadata and
/// search pass validates exactly as its removal method does.
pub proof fn law_definition_validates_all_parts(d: BrokerDefinition)
    ensures
        definition_problem(d) is None <==> (metadata_valid(d) && search_problem(d.search) is None
            && removal_problem(d.removal) is None),
        metadata_valid(d) && search_problem(d.search) is None ==> definition_problem(d) == removal_problem(
            d.removal,
        ),
        removal_problem(d.removal) is Some ==> definition_problem(d) is Some,
{
}

/// A web-form removal needs the form's URL: without one the removal
/// method, and so any definition using it, is refused, with that reason
/// when the rest is valid.
pub proof fn law_web_form_needs_url(d: BrokerDefinition)
    requires
        d.removal matches RemovalMethod::WebForm { url, .. } && url@.len() == 0,
        metadata_valid(d),
        search_problem(d.search) is None,
    ensures
        definition_problem(d) == Some("removal.url cannot be empty for web-form method"@),
{
}

/// Two definitions are equal part by part (lists compared by contents).
pub open spec fn definition_eq(a: BrokerDefinition, b: BrokerDefinition) -> bool {
    &&& a.broker == b.broker
    &&& search_eq(a.search, b.search)
    &&& removal_eq(a.removal, b.removal)
}

/// A copy of a definition (equal part by part, as `clone` gives) has the
/// same first problem, so it validates exactly as the original.
pub proof fn law_copies_validate_alike(a: BrokerDefinition, b: BrokerDefinition)
    requires
        definition_eq(a, b),
    ensures
        definition_problem(a) == definition_problem(b),
{
}

/// Copies a list of form field mappings.
fn clone_fields(v: &Vec<FieldMapping>) -> (r: Vec<FieldMapping>)
    ensures
        r@ == v@,
{
    let mut r: Vec<FieldMapping> = Vec::new();
    let mut i: usize = 0;
    while i < v.len()
        invariant
            i <= v@.len(),
            r@ == v@.take(i as int),
        decreases v@.len() - i,
    {
        let (a, b) = &v[i];
        r.push((a.clone(), b.clone()));
        i += 1;
        assert(r@ =~= v@.take(i as int));
    }
    assert(v@.take(v@.len() as int) =~= v@);
    r
}

/// Copies a list of PII fields.
fn clone_pii_fields(v: &Vec<PiiField>) -> (r: Vec<PiiField>)
    ensures
        r@ == v@,
{
    let mut r: Vec<PiiField> = Vec::new();
    let mut i: usize = 0;
    while i < v.len()
        invariant
            i <= v@.len(),
            r@ == v@.take(i as int),
        decreases v@.len() - i,
    {
        r.push(v[i]);
        i += 1;
        assert(r@ =~= v@.take(i as int));
    }
    assert(v@.take(v@.len() as int) =~= v@);
    r
}

/// Copies an optional string.
fn clone_opt(o: &Option<String>) -> (r: Option<String>)
    ensures
        r == *o,
{
    match o {
        Some(s) => Some(s.clone()),
        None => None,
    }
}

impl Clone for FormSelectors {
    fn clone(&self) -> (r: Self)
        ensures
            r == *self,
    {
        FormSelectors {
            listing_url_input: clone_opt(&self.listing_url_input),
            email_input: clone_opt(&self.email_input),
            first_name_input: clone_opt(&self.first_name_input),
            last_name_input: clone_opt(&self.last_name_input),
            submit_button: self.submit_button.clone(),
            captcha_frame: clone_opt(&self.captcha_frame),
            success_indicator: clone_opt(&self.success_indicator),
        }
    }
}

impl Clone for SearchMethod {
    fn clone(&self) -> (r: Self)
        ensures
            search_eq(r, *self),
    {
        match self {
            SearchMethod::UrlTemplate { template, requires_fields } => SearchMethod::UrlTemplate {
                template: template.clone(),
                requires_fields: clone_pii_fields(requires_fields),
            },
            SearchMethod::WebForm { url, fields, requires_fields } => SearchMethod::WebForm {
                url: url.clone(),
                fields: clone_fields(fields),
                requires_fields: clone_pii_fields(requires_fields),
            },
            SearchMethod::Manual { url, instructions } => SearchMethod::Manual {
                url: url.clone(),
                instructions: instructions.clone(),
            },
        }
    }
}

impl Clone for RemovalMethod {
    fn clone(&self) -> (r: Self)
        ensures
            removal_eq(r, *self),
    {
        match self {
            RemovalMethod::WebForm { url, fields, form_selectors, confirmation, notes } => {
                RemovalMethod::WebForm {
                    url: url.clone(),
                    fields: clone_fields(fields),
                    form_selectors: form_selectors.clone(),
                    confirmation: *confirmation,
                    notes: notes.clone(),
                }
            },
            RemovalMethod::Email { email, subject, body, response_days, notes } => {
                RemovalMethod::Email {
                    email: email.clone(),
                    subject: subject.clone(),
                    body: body.clone(),
                    response_days: *response_days,
                    notes: notes.clone(),
                }
            },
            RemovalMethod::Phone { phone, instructions } => RemovalMethod::Phone {
                phone: phone.clone(),
                instructions: instructions.clone(),
            },
            RemovalMethod::Manual { instructions } => RemovalMethod::Manual {
                instructions: instructions.clone(),
            },
        }
    }
}

impl Clone for BrokerMetadata {
    fn clone(&self) -> (r: Self)
        ensures
            r == *self,
    {
        BrokerMetadata {
            id: self.id.clone(),
            name: self.name.clone(),
            url: self.url.clone(),
            domain: self.domain.clone(),
            category: self.category,
            difficulty: self.difficulty,
            typical_removal_days: self.typical_removal_days,
            recheck_interval_days: self.recheck_interval_days,
            last_verified: self.last_verified,
        }
    }
}

impl Clone for BrokerDefinition {
    fn clone(&self) -> (r: Self)
        ensures
            definition_eq(r, *self),
    {
        BrokerDefinition {
            broker: self.broker.clone(),
            search: self.search.clone(),
            removal: self.removal.clone(),
        }
    }
}

} // verus!

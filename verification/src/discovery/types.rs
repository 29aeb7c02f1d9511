//! Shared types for scanning local text for the user's own PII.

use vstd::prelude::*;

verus! {

/// Which kinds of PII a scan looks for.
#[derive(Debug, Clone)]
pub struct ScanConfig {
    /// Scan for email addresses
    pub scan_emails: bool,
    /// Scan for phone numbers
    pub scan_phones: bool,
    /// Scan for SSNs
    pub scan_ssn: bool,
    /// Scan for physical addresses
    pub scan_addresses: bool,
    /// Scan for names
    pub scan_names: bool,
    /// Scan for dates of birth
    pub scan_dob: bool,
    /// Optional custom directories to scan
    pub custom_directories: Option<Vec<String>>,
}

impl Default for ScanConfig {
    fn default() -> (r: Self)
        ensures
            r.scan_emails && r.scan_phones && r.scan_ssn,
            r.scan_addresses && r.scan_names && r.scan_dob,
            r.custom_directories is None,
    {
        ScanConfig {
            scan_emails: true,
            scan_phones: true,
            scan_ssn: true,
            scan_addresses: true,
            scan_names: true,
            scan_dob: true,
            custom_directories: None,
        }
    }
}

/// The user's personally identifiable information.
#[derive(Debug, Clone)]
pub struct UserPii {
    /// Email addresses
    pub emails: Vec<String>,
    /// Phone numbers
    pub phones: Vec<String>,
    /// Social Security Number
    pub ssn: Option<String>,
    /// Physical addresses
    pub addresses: Vec<AddressInfo>,
    /// Names (full, first, last, nicknames)
    pub names: Vec<String>,
    /// Date of birth
    pub date_of_birth: Option<String>,
}

impl Default for UserPii {
    fn default() -> (r: Self)
        ensures
            r.emails@.len() == 0,
            r.phones@.len() == 0,
            r.ssn is None,
            r.addresses@.len() == 0,
            r.names@.len() == 0,
            r.date_of_birth is None,
    {
        UserPii {
            emails: Vec::new(),
            phones: Vec::new(),
            ssn: None,
            addresses: Vec::new(),
            names: Vec::new(),
            date_of_birth: None,
        }
    }
}

/// A physical address.
#[derive(Debug)]
pub struct AddressInfo {
    /// Street address
    pub street: Option<String>,
    /// City
    pub city: Option<String>,
    /// State
    pub state: Option<String>,
    /// ZIP code
    pub zip: Option<String>,
}

/// Copies an optional string.
fn copy_opt(o: &Option<String>) -> (r: Option<String>)
    ensures
        r == *o,
{
    match o {
        Some(s) => Some(s.clone()),
        None => None,
    }
}

impl Clone for AddressInfo {
    fn clone(&self) -> (r: Self)
        ensures
            r == *self,
    {
        AddressInfo {
            street: copy_opt(&self.street),
            city: copy_opt(&self.city),
            state: copy_opt(&self.state),
            zip: copy_opt(&self.zip),
        }
    }
}

/// Kinds of personally identifiable information.
#[derive(Debug, Clone, Copy, PartialEq, Eq, Structural)]
pub enum PiiType {
    /// Email address
    Email,
    /// Phone number
    Phone,
    /// Social Security Number
    Ssn,
    /// Physical address
    Address,
    /// Personal name
    Name,
    /// Date of birth
    DateOfBirth,
}

/// Identifier of a PII kind.
pub open spec fn pii_type_name(t: PiiType) -> &'static str {
    match t {
        PiiType::Email => "email",
        PiiType::Phone => "phone",
        PiiType::Ssn => "ssn",
        PiiType::Address => "address",
        PiiType::Name => "name",
        PiiType::DateOfBirth => "dob",
    }
}

/// Human-readable description of a PII kind.
pub open spec fn pii_type_description(t: PiiType) -> &'static str {
    match t {
        PiiType::Email => "Email Address",
        PiiType::Phone => "Phone Number",
        PiiType::Ssn => "Social Security Number",
        PiiType::Address => "Physical Address",
        PiiType::Name => "Personal Name",
        PiiType::DateOfBirth => "Date of Birth",
    }
}

/// Risk level of a PII kind.
pub open spec fn pii_type_risk(t: PiiType) -> &'static str {
    match t {
        PiiType::Ssn => "critical",
        PiiType::DateOfBirth => "high",
        PiiType::Address | PiiType::Phone | PiiType::Email => "medium",
        PiiType::Name => "low",
    }
}

/// Position of a PII kind when kinds are ordered by their identifiers
/// ("address" < "dob" < "email" < "name" < "phone" < "ssn").
pub open spec fn pii_type_rank(t: PiiType) -> nat {
    match t {
        PiiType::Address => 0,
        PiiType::DateOfBirth => 1,
        PiiType::Email => 2,
        PiiType::Name => 3,
        PiiType::Phone => 4,
        PiiType::Ssn => 5,
    }
}

impl PiiType {
    /// Identifier of this kind.
    pub fn as_str(&self) -> (r: &'static str)
        ensures
            r == pii_type_name(*self),
    {
        match self {
            PiiType::Email => "email",
            PiiType::Phone => "phone",
            PiiType::Ssn => "ssn",
            PiiType::Address => "address",
            PiiType::Name => "name",
            PiiType::DateOfBirth => "dob",
        }
    }

    /// Human-readable description.
    pub fn description(&self) -> (r: &'static str)
        ensures
            r == pii_type_description(*self),
    {
        match self {
            PiiType::Email => "Email Address",
            PiiType::Phone => "Phone Number",
            PiiType::Ssn => "Social Security Number",
            PiiType::Address => "Physical Address",
            PiiType::Name => "Personal Name",
            PiiType::DateOfBirth => "Date of Birth",
        }
    }

    /// Risk level of this kind of PII.
    pub fn risk_level(&self) -> (r: &'static str)
        ensures
            r == pii_type_risk(*self),
    {
        match self {
            PiiType::Ssn => "critical",
            PiiType::DateOfBirth => "high",
            PiiType::Address | PiiType::Phone | PiiType::Email => "medium",
            PiiType::Name => "low",
        }
    }

    /// Position of this kind in the order of identifiers.
    pub fn rank(&self) -> (r: u8)
        ensures
            r == pii_type_rank(*self),
    {
        match self {
            PiiType::Address => 0,
            PiiType::DateOfBirth => 1,
            PiiType::Email => 2,
            PiiType::Name => 3,
            PiiType::Phone => 4,
            PiiType::Ssn => 5,
        }
    }
}

/// A single PII match found in a text.
#[derive(Debug, Clone)]
pub struct PiiMatch {
    /// Type of PII found
    pub pii_type: PiiType,
    /// The matched value
    pub matched_value: String,
    /// Line number where found (1-based)
    pub line_number: usize,
    /// Content of the line
    pub line_content: String,
}

/// Results from scanning a single file.
#[derive(Debug, Clone)]
pub struct FileScanResult {
    /// File path
    pub path: String,
    /// All matches found in this file
    pub matches: Vec<PiiMatch>,
}

/// Progress update during a scan.
#[derive(Debug, Clone)]
pub struct ScanProgress {
    /// Total files scanned so far
    pub files_scanned: usize,
    /// Files that had findings
    pub files_with_findings: usize,
    /// Current directory being scanned
    pub current_directory: String,
    /// Whether the scan is complete
    pub is_complete: bool,
    /// Whether the scan was stopped
    pub was_stopped: bool,
}

/// Commands that can be sent to a running scan.
#[derive(Debug, Clone, Copy, PartialEq, Eq, Structural)]
pub enum ScanCommand {
    /// Continue scanning
    Continue,
    /// Pause the scan
    Pause,
    /// Stop the scan
    Stop,
}

/// Maximum file size to scan (10MB).
pub const MAX_FILE_SIZE: u64 = 10485760;

/// Maximum directory depth to traverse.
pub const MAX_SCAN_DEPTH: usize = 15;

} // verus!

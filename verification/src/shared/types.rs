//! Identifiers and PII categories shared across the application.

use vstd::prelude::*;
use vstd::string::StringSliceAdditionalSpecFns;
use crate::text::{to_chars, concat_strs, u64_to_string, decimal};
use crate::shared::error::SpectralError;

verus! {

/// A lowercase hexadecimal digit.
pub open spec fn is_lower_hex(c: char) -> bool {
    ('0' <= c && c <= '9') || ('a' <= c && c <= 'f')
}

/// A lowercase ASCII letter or a digit.
pub open spec fn is_lower_alnum(c: char) -> bool {
    ('0' <= c && c <= '9') || ('a' <= c && c <= 'z')
}

/// Positions of the hyphens in a hyphenated UUID.
pub open spec fn is_uuid_hyphen_pos(i: int) -> bool {
    i == 8 || i == 13 || i == 18 || i == 23
}

/// `s` is a lowercase hyphenated UUID of version 4 with the RFC 4122 variant:
/// `xxxxxxxx-xxxx-4xxx-[89ab]xxx-xxxxxxxxxxxx` over lowercase hex digits.
pub open spec fn is_uuid_v4(s: Seq<char>) -> bool {
    &&& s.len() == 36
    &&& forall|i: int| 0 <= i < 36 && is_uuid_hyphen_pos(i) ==> #[trigger] s[i] == '-'
    &&& forall|i: int| 0 <= i < 36 && !is_uuid_hyphen_pos(i) ==> is_lower_hex(#[trigger] s[i])
    &&& s[14] == '4'
    &&& (s[19] == '8' || s[19] == '9' || s[19] == 'a' || s[19] == 'b')
}

/// The shape of a broker identifier: a lowercase letter or digit, then 1 to
/// 48 lowercase letters, digits or hyphens, then a lowercase letter or digit.
pub open spec fn is_broker_id_shape(s: Seq<char>) -> bool {
    &&& 3 <= s.len() <= 50
    &&& is_lower_alnum(s[0])
    &&& is_lower_alnum(s.last())
    &&& forall|i: int| 0 < i < s.len() - 1 ==> is_lower_alnum(#[trigger] s[i]) || s[i] == '-'
}

/// Newtype for profile identifiers: a UUID v4 in lowercase hyphenated form.
#[derive(Debug, Clone, PartialEq, Eq, Hash)]
pub struct ProfileId(String);

impl View for ProfileId {
    type V = Seq<char>;

    closed spec fn view(&self) -> Seq<char> {
        self.0@
    }
}

/// The message of the error for a string that is not a UUID v4.
pub open spec fn invalid_profile_id_message(id: Seq<char>) -> Seq<char> {
    "invalid profile ID: must be a valid UUID v4, got '"@ + id + "'"@
}

/// The random part of a v4 UUID (uuid's `Uuid::new_v4`), rendered in its
/// hyphenated lowercase form (`Display`). The source masks the version nibble
/// to 4 and the variant bits to `10`, so the text always has the v4 shape;
/// which UUID comes out rests on chance and is not stated.
#[verifier::external_body]
pub(crate) fn new_v4_string() -> (s: String)
    ensures
        is_uuid_v4(s@),
{
    uuid::Uuid::new_v4().to_string()
}

/// Checks the UUID v4 shape character by character.
fn check_uuid_v4(id: &str) -> (r: bool)
    ensures
        r == is_uuid_v4(id@),
{
    let c = to_chars(id);
    if c.len() != 36 {
        return false;
    }
    let mut i: usize = 0;
    while i < 36
        invariant
            c@ == id@,
            c@.len() == 36,
            i <= 36,
            forall|j: int| 0 <= j < i && is_uuid_hyphen_pos(j) ==> #[trigger] c@[j] == '-',
            forall|j: int| 0 <= j < i && !is_uuid_hyphen_pos(j) ==> is_lower_hex(#[trigger] c@[j]),
        decreases 36 - i,
    {
        let ch = c[i];
        if i == 8 || i == 13 || i == 18 || i == 23 {
            if ch != '-' {
                return false;
            }
        } else {
            if !(('0' <= ch && ch <= '9') || ('a' <= ch && ch <= 'f')) {
                return false;
            }
        }
        i += 1;
    }
    c[14] == '4' && (c[19] == '8' || c[19] == '9' || c[19] == 'a' || c[19] == 'b')
}

impl ProfileId {
    /// Creates a `ProfileId` from a string, which must be a UUID v4 in
    /// lowercase hyphenated form.
    pub fn new(id: &str) -> (r: Result<Self, SpectralError>)
        ensures
            is_uuid_v4(id@) ==> (r matches Ok(p) && p@ == id@),
            !is_uuid_v4(id@) ==> (r matches Err(SpectralError::Validation(m)) && m@
                == invalid_profile_id_message(id@)),
    {
        if check_uuid_v4(id) {
            Ok(ProfileId(id.to_string()))
        } else {
            let a = concat_strs("invalid profile ID: must be a valid UUID v4, got '", id);
            let m = concat_strs(a.as_str(), "'");
            Err(SpectralError::Validation(m))
        }
    }

    /// Creates a new random `ProfileId` (UUID v4).
    pub fn generate() -> (r: Self)
        ensures
            is_uuid_v4(r@),
    {
        ProfileId(new_v4_string())
    }

    /// The inner string value.
    pub fn as_str(&self) -> (r: &str)
        ensures
            r@ == self@,
    {
        self.0.as_str()
    }
}

/// Newtype for broker identifiers: lowercase alphanumeric with hyphens,
/// 3-50 characters, not starting or ending with a hyphen.
#[derive(Debug, PartialEq, Eq, Hash)]
pub struct BrokerId(String);

impl Clone for BrokerId {
    fn clone(&self) -> (r: Self)
        ensures
            r == *self,
    {
        BrokerId(self.0.clone())
    }
}

impl View for BrokerId {
    type V = Seq<char>;

    closed spec fn view(&self) -> Seq<char> {
        self.0@
    }
}

/// The message of the error for an identifier whose byte length is not 3-50.
pub open spec fn broker_id_length_message(len: nat) -> Seq<char> {
    "invalid broker ID: must be 3-50 characters, got "@ + decimal(len) + " characters"@
}

/// The message of the error for an identifier of the wrong shape.
pub open spec fn broker_id_shape_message(id: Seq<char>) -> Seq<char> {
    "invalid broker ID: must be lowercase alphanumeric with hyphens, got '"@ + id + "'"@
}

/// What `BrokerId::new` yields for an identifier with characters `id` and a
/// UTF-8 encoding of `nbytes` bytes: the byte length must lie in 3..=50, then
/// the characters must have the broker identifier shape.
pub open spec fn broker_id_result(id: Seq<char>, nbytes: nat, r: Result<BrokerId, SpectralError>) -> bool {
    if nbytes < 3 || nbytes > 50 {
        r matches Err(SpectralError::Validation(m)) && m@ == broker_id_length_message(nbytes)
    } else if !is_broker_id_shape(id) {
        r matches Err(SpectralError::Validation(m)) && m@ == broker_id_shape_message(id)
    } else {
        r matches Ok(b) && b@ == id
    }
}

/// Checks the broker identifier shape character by character.
fn check_broker_id_shape(id: &str) -> (r: bool)
    ensures
        r == is_broker_id_shape(id@),
{
    let c = to_chars(id);
    let n = c.len();
    if n < 3 || n > 50 {
        return false;
    }
    let first = c[0];
    let last = c[n - 1];
    if !(('0' <= first && first <= '9') || ('a' <= first && first <= 'z')) {
        return false;
    }
    if !(('0' <= last && last <= '9') || ('a' <= last && last <= 'z')) {
        return false;
    }
    let mut i: usize = 1;
    while i < n - 1
        invariant
            c@ == id@,
            n == c@.len(),
            3 <= n <= 50,
            1 <= i <= n - 1,
            forall|j: int| 0 < j < i ==> is_lower_alnum(#[trigger] c@[j]) || c@[j] == '-',
        decreases n - i,
    {
        let ch = c[i];
        if !(('0' <= ch && ch <= '9') || ('a' <= ch && ch <= 'z') || ch == '-') {
            return false;
        }
        i += 1;
    }
    true
}

impl BrokerId {
    /// Creates a `BrokerId`, checking its length in bytes (3-50) and then its
    /// shape.
    pub fn new(id: &str) -> (r: Result<Self, SpectralError>)
        ensures
            broker_id_result(id@, id.len() as nat, r),
    {
        let len = id.len();
        if len < 3 || len > 50 {
            let a = concat_strs(
                "invalid broker ID: must be 3-50 characters, got ",
                u64_to_string(len as u64).as_str(),
            );
            let m = concat_strs(a.as_str(), " characters");
            return Err(SpectralError::Validation(m));
        }
        if check_broker_id_shape(id) {
            let r = BrokerId(id.to_string());
            assert(r@ == id@);
            Ok(r)
        } else {
            let a = concat_strs(
                "invalid broker ID: must be lowercase alphanumeric with hyphens, got '",
                id,
            );
            let m = concat_strs(a.as_str(), "'");
            Err(SpectralError::Validation(m))
        }
    }

    /// The inner string value.
    pub fn as_str(&self) -> (r: &str)
        ensures
            r@ == self@,
    {
        self.0.as_str()
    }
}

/// Categories of personally identifiable information.
#[derive(Debug, Clone, Copy, PartialEq, Eq, Hash, Structural)]
pub enum PiiField {
    /// Full legal name
    FullName,
    /// First name
    FirstName,
    /// Middle name
    MiddleName,
    /// Last name
    LastName,
    /// Email address
    Email,
    /// Phone number
    Phone,
    /// Street address
    Address,
    /// City
    City,
    /// State/province
    State,
    /// ZIP/postal code
    ZipCode,
    /// Country
    Country,
    /// Date of birth
    DateOfBirth,
    /// Age
    Age,
    /// Social Security Number
    Ssn,
    /// Employer/company
    Employer,
    /// Job title
    JobTitle,
    /// Educational institution
    Education,
    /// Social media username
    SocialMedia,
    /// IP address
    IpAddress,
    /// Photo/image
    Photo,
    /// Relatives/associates
    Relatives,
    /// Previous addresses
    PreviousAddress,
    /// Other/custom field
    Other,
}

/// Human-readable name of a PII field.
pub open spec fn pii_field_display_name(f: PiiField) -> &'static str {
    match f {
        PiiField::FullName => "Full Name",
        PiiField::FirstName => "First Name",
        PiiField::MiddleName => "Middle Name",
        PiiField::LastName => "Last Name",
        PiiField::Email => "Email Address",
        PiiField::Phone => "Phone Number",
        PiiField::Address => "Street Address",
        PiiField::City => "City",
        PiiField::State => "State/Province",
        PiiField::ZipCode => "ZIP/Postal Code",
        PiiField::Country => "Country",
        PiiField::DateOfBirth => "Date of Birth",
        PiiField::Age => "Age",
        PiiField::Ssn => "Social Security Number",
        PiiField::Employer => "Employer",
        PiiField::JobTitle => "Job Title",
        PiiField::Education => "Education",
        PiiField::SocialMedia => "Social Media",
        PiiField::IpAddress => "IP Address",
        PiiField::Photo => "Photo",
        PiiField::Relatives => "Relatives",
        PiiField::PreviousAddress => "Previous Address",
        PiiField::Other => "Other",
    }
}

/// Sensitivity of a PII field, 0-3 (higher is more sensitive).
pub open spec fn pii_field_sensitivity(f: PiiField) -> u8 {
    match f {
        PiiField::Ssn | PiiField::DateOfBirth => 3,
        PiiField::FullName | PiiField::Email | PiiField::Phone | PiiField::Address
        | PiiField::Photo => 2,
        PiiField::FirstName | PiiField::LastName | PiiField::City | PiiField::State
        | PiiField::Employer => 1,
        _ => 0,
    }
}

impl PiiField {
    /// A human-readable display name for the PII field.
    pub fn display_name(&self) -> (r: &'static str)
        ensures
            r == pii_field_display_name(*self),
    {
        match self {
            PiiField::FullName => "Full Name",
            PiiField::FirstName => "First Name",
            PiiField::MiddleName => "Middle Name",
            PiiField::LastName => "Last Name",
            PiiField::Email => "Email Address",
            PiiField::Phone => "Phone Number",
            PiiField::Address => "Street Address",
            PiiField::City => "City",
            PiiField::State => "State/Province",
            PiiField::ZipCode => "ZIP/Postal Code",
            PiiField::Country => "Country",
            PiiField::DateOfBirth => "Date of Birth",
            PiiField::Age => "Age",
            PiiField::Ssn => "Social Security Number",
            PiiField::Employer => "Employer",
            PiiField::JobTitle => "Job Title",
            PiiField::Education => "Education",
            PiiField::SocialMedia => "Social Media",
            PiiField::IpAddress => "IP Address",
            PiiField::Photo => "Photo",
            PiiField::Relatives => "Relatives",
            PiiField::PreviousAddress => "Previous Address",
            PiiField::Other => "Other",
        }
    }

    /// The text shown for the field (its display name).
    pub fn to_text(&self) -> (r: String)
        ensures
            r@ == pii_field_display_name(*self)@,
    {
        self.display_name().to_string()
    }

    /// The sensitivity level (0-3, higher is more sensitive).
    pub fn sensitivity_level(&self) -> (r: u8)
        ensures
            r == pii_field_sensitivity(*self),
            r <= 3,
    {
        match self {
            PiiField::Ssn | PiiField::DateOfBirth => 3,
            PiiField::FullName | PiiField::Email | PiiField::Phone | PiiField::Address
            | PiiField::Photo => 2,
            PiiField::FirstName | PiiField::LastName | PiiField::City | PiiField::State
            | PiiField::Employer => 1,
            _ => 0,
        }
    }
}

} // verus!

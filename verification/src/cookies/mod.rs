//! Browser cookies: their data, which broker a cookie belongs to, where the
//! browsers keep their cookie databases, and the tallies of scans and
//! removals.

pub mod browser;
pub mod error;
pub mod matcher;
pub mod remover;
pub mod scanner;

use vstd::prelude::*;
use crate::text::{str_eq, concat_strs};

verus! {

/// A browser cookie.
#[derive(Debug, Clone)]
pub struct Cookie {
    /// Cookie name
    pub name: String,
    /// Cookie value
    pub value: String,
    /// Domain the cookie belongs to
    pub domain: String,
    /// Path the cookie applies to
    pub path: String,
    /// Creation time
    pub creation_time: Option<i64>,
    /// Expiry time
    pub expiry_time: Option<i64>,
    /// Last access time
    pub last_access_time: Option<i64>,
    /// Sent only over HTTPS
    pub is_secure: bool,
    /// Hidden from scripts
    pub is_httponly: bool,
    /// SameSite attribute
    pub same_site: Option<SameSite>,
}

/// SameSite cookie attribute.
#[derive(Debug, Clone, Copy, PartialEq, Eq, Structural)]
pub enum SameSite {
    /// Sent with cross-site requests
    NoRestriction,
    /// Sent with top-level cross-site navigations
    Lax,
    /// Never sent cross-site
    Strict,
}

/// The text of a SameSite value.
pub open spec fn same_site_text(s: SameSite) -> Seq<char> {
    match s {
        SameSite::NoRestriction => "None"@,
        SameSite::Lax => "Lax"@,
        SameSite::Strict => "Strict"@,
    }
}

/// What parsing yields: one of the three exact names, else an error naming
/// the value.
pub open spec fn same_site_parse(s: Seq<char>) -> Result<SameSite, Seq<char>> {
    if s == "None"@ {
        Ok(SameSite::NoRestriction)
    } else if s == "Lax"@ {
        Ok(SameSite::Lax)
    } else if s == "Strict"@ {
        Ok(SameSite::Strict)
    } else {
        Err("Invalid SameSite value: "@ + s)
    }
}

impl SameSite {
    /// The text of the value (as displayed).
    pub fn to_text(&self) -> (r: String)
        ensures
            r@ == same_site_text(*self),
    {
        match self {
            SameSite::NoRestriction => "None".to_string(),
            SameSite::Lax => "Lax".to_string(),
            SameSite::Strict => "Strict".to_string(),
        }
    }

    /// Parses a SameSite value from its exact name.
    pub fn parse(s: &str) -> (r: Result<SameSite, String>)
        ensures
            match (r, same_site_parse(s@)) {
                (Ok(a), Ok(b)) => a == b,
                (Err(e), Err(t)) => e@ == t,
                _ => false,
            },
    {
        if str_eq(s, "None") {
            Ok(SameSite::NoRestriction)
        } else if str_eq(s, "Lax") {
            Ok(SameSite::Lax)
        } else if str_eq(s, "Strict") {
            Ok(SameSite::Strict)
        } else {
            Err(concat_strs("Invalid SameSite value: ", s))
        }
    }
}

/// Parsing the text of a SameSite value gives the value back.
pub proof fn law_same_site_roundtrip(s: SameSite)
    ensures
        same_site_parse(same_site_text(s)) == Ok::<SameSite, Seq<char>>(s),
{
    reveal_strlit("None");
    reveal_strlit("Lax");
    reveal_strlit("Strict");
    assert("None"@.len() == 4 && "Lax"@.len() == 3 && "Strict"@.len() == 6);
    assert("Lax"@ != "None"@);
    assert("Strict"@ != "None"@ && "Strict"@ != "Lax"@);
}

} // verus!

//! Errors of cookie operations.

use vstd::prelude::*;
use crate::text::concat_strs;

verus! {

/// rusqlite's error, carried through unchanged.
#[verifier::external_type_specification]
#[verifier::external_body]
pub struct ExSqliteError(rusqlite::Error);

/// sqlx's error, carried through unchanged.
#[verifier::external_type_specification]
#[verifier::external_body]
pub struct ExSqlxError(sqlx::Error);

/// serde_json's error, carried through unchanged.
#[verifier::external_type_specification]
#[verifier::external_body]
pub struct ExJsonError(serde_json::Error);

/// Errors of cookie operations.
#[derive(Debug)]
pub enum CookieError {
    /// Browser not found
    BrowserNotFound(String),
    /// Browser database locked
    BrowserLocked(String),
    /// Failed to read cookie database
    DatabaseError(String),
    /// Failed to parse cookie
    ParseError(String),
    /// Permission denied
    PermissionDenied(String),
    /// Encryption error
    EncryptionError(String),
    /// IO error
    IoError(std::io::Error),
    /// SQLite error
    SqliteError(rusqlite::Error),
    /// SQLx error
    SqlxError(sqlx::Error),
    /// JSON error
    JsonError(serde_json::Error),
    /// Invalid cookie format
    InvalidFormat(String),
    /// Backup failed
    BackupFailed(String),
    /// Restore failed
    RestoreFailed(String),
    /// The browser is running
    BrowserRunning(String),
    /// Unknown error
    Unknown(String),
}

/// The prefix of each cookie error's message and, for errors carrying plain
/// text, that text.
pub open spec fn cookie_error_parts(e: CookieError) -> (Seq<char>, Option<Seq<char>>) {
    match e {
        CookieError::BrowserNotFound(s) => ("Browser not found: "@, Some(s@)),
        CookieError::BrowserLocked(s) => ("Browser database locked: "@, Some(s@)),
        CookieError::DatabaseError(s) => ("Failed to read cookie database: "@, Some(s@)),
        CookieError::ParseError(s) => ("Failed to parse cookie: "@, Some(s@)),
        CookieError::PermissionDenied(s) => ("Permission denied: "@, Some(s@)),
        CookieError::EncryptionError(s) => ("Encryption error: "@, Some(s@)),
        CookieError::IoError(_) => ("IO error: "@, None),
        CookieError::SqliteError(_) => ("SQLite error: "@, None),
        CookieError::SqlxError(_) => ("SQLx error: "@, None),
        CookieError::JsonError(_) => ("JSON error: "@, None),
        CookieError::InvalidFormat(s) => ("Invalid cookie format: "@, Some(s@)),
        CookieError::BackupFailed(s) => ("Backup failed: "@, Some(s@)),
        CookieError::RestoreFailed(s) => ("Restore failed: "@, Some(s@)),
        CookieError::BrowserRunning(s) => ("Browser running: Cannot modify cookies while "@, Some(
            s@ + " is running"@,
        )),
        CookieError::Unknown(s) => ("Unknown error: "@, Some(s@)),
    }
}

impl CookieError {
    /// The error message, as displayed to users.
    pub fn message(&self) -> (r: String)
        ensures
            ({
                let (prefix, text) = cookie_error_parts(*self);
                &&& r@.len() >= prefix.len()
                &&& r@.take(prefix.len() as int) == prefix
                &&& text matches Some(t) ==> r@ == prefix + t
            }),
    {
        let r = match self {
            CookieError::BrowserNotFound(s) => concat_strs("Browser not found: ", s.as_str()),
            CookieError::BrowserLocked(s) => concat_strs("Browser database locked: ", s.as_str()),
            CookieError::DatabaseError(s) => concat_strs(
                "Failed to read cookie database: ",
                s.as_str(),
            ),
            CookieError::ParseError(s) => concat_strs("Failed to parse cookie: ", s.as_str()),
            CookieError::PermissionDenied(s) => concat_strs("Permission denied: ", s.as_str()),
            CookieError::EncryptionError(s) => concat_strs("Encryption error: ", s.as_str()),
            CookieError::IoError(e) => {
                let t = e.to_string();
                concat_strs("IO error: ", t.as_str())
            },
            CookieError::SqliteError(e) => {
                let t = e.to_string();
                concat_strs("SQLite error: ", t.as_str())
            },
            CookieError::SqlxError(e) => {
                let t = e.to_string();
                concat_strs("SQLx error: ", t.as_str())
            },
            CookieError::JsonError(e) => {
                let t = e.to_string();
                concat_strs("JSON error: ", t.as_str())
            },
            CookieError::InvalidFormat(s) => concat_strs("Invalid cookie format: ", s.as_str()),
            CookieError::BackupFailed(s) => concat_strs("Backup failed: ", s.as_str()),
            CookieError::RestoreFailed(s) => concat_strs("Restore failed: ", s.as_str()),
            CookieError::BrowserRunning(s) => {
                let a = concat_strs("Browser running: Cannot modify cookies while ", s.as_str());
                concat_strs(a.as_str(), " is running")
            },
            CookieError::Unknown(s) => concat_strs("Unknown error: ", s.as_str()),
        };
        proof {
            let (p, _) = cookie_error_parts(*self);
            assert(r@.take(p.len() as int) =~= p);
        }
        r
    }
}

} // verus!

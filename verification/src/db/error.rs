//! Errors of database operations.

use vstd::prelude::*;
use crate::text::concat_strs;

verus! {

/// Database-specific errors.
#[derive(Debug)]
pub enum DatabaseError {
    /// Failed to open or create database connection.
    Open(String),
    /// Failed to configure database encryption.
    Encryption(String),
    /// Migration execution failed.
    Migration(String),
    /// Query execution failed.
    Query(String),
    /// Connection pool exhausted or unavailable.
    PoolExhausted,
    /// Requested record was not found.
    NotFound,
    /// Database record with provided identifier not found.
    NotFoundWithMessage(String),
    /// Failed to decode database value.
    Decode(String),
    /// Invalid encryption key provided.
    InvalidKey,
    /// Serialization/deserialization failed.
    SerializationError(String),
    /// Underlying `SQLx` error.
    Sqlx(sqlx::Error),
    /// I/O error during database operations.
    Io(std::io::Error),
}

/// The prefix of each database error's message and, for errors carrying
/// plain text or none, the whole text after it.
pub open spec fn database_error_parts(e: DatabaseError) -> (Seq<char>, Option<Seq<char>>) {
    match e {
        DatabaseError::Open(s) => ("failed to open database: "@, Some(s@)),
        DatabaseError::Encryption(s) => ("encryption configuration failed: "@, Some(s@)),
        DatabaseError::Migration(s) => ("migration failed: "@, Some(s@)),
        DatabaseError::Query(s) => ("query failed: "@, Some(s@)),
        DatabaseError::PoolExhausted => ("connection pool exhausted"@, Some(Seq::empty())),
        DatabaseError::NotFound => ("record not found"@, Some(Seq::empty())),
        DatabaseError::NotFoundWithMessage(s) => (Seq::empty(), Some(s@)),
        DatabaseError::Decode(s) => ("decode error: "@, Some(s@)),
        DatabaseError::InvalidKey => ("invalid encryption key"@, Some(Seq::empty())),
        DatabaseError::SerializationError(s) => ("serialization error: "@, Some(s@)),
        DatabaseError::Sqlx(_) => ("database error: "@, None),
        DatabaseError::Io(_) => ("I/O error: "@, None),
    }
}

impl DatabaseError {
    /// The error message, as displayed to users.
    pub fn message(&self) -> (r: String)
        ensures
            ({
                let (prefix, text) = database_error_parts(*self);
                &&& r@.len() >= prefix.len()
                &&& r@.take(prefix.len() as int) == prefix
                &&& text matches Some(t) ==> r@ == prefix + t
            }),
    {
        let r = match self {
            DatabaseError::Open(s) => concat_strs("failed to open database: ", s.as_str()),
            DatabaseError::Encryption(s) => concat_strs("encryption configuration failed: ", s.as_str()),
            DatabaseError::Migration(s) => concat_strs("migration failed: ", s.as_str()),
            DatabaseError::Query(s) => concat_strs("query failed: ", s.as_str()),
            DatabaseError::PoolExhausted => concat_strs("connection pool exhausted", ""),
            DatabaseError::NotFound => concat_strs("record not found", ""),
            DatabaseError::NotFoundWithMessage(s) => concat_strs("", s.as_str()),
            DatabaseError::Decode(s) => concat_strs("decode error: ", s.as_str()),
            DatabaseError::InvalidKey => concat_strs("invalid encryption key", ""),
            DatabaseError::SerializationError(s) => concat_strs("serialization error: ", s.as_str()),
            DatabaseError::Sqlx(e) => {
                let t = e.to_string();
                concat_strs("database error: ", t.as_str())
            },
            DatabaseError::Io(e) => {
                let t = e.to_string();
                concat_strs("I/O error: ", t.as_str())
            },
        };
        proof {
            reveal_strlit("");
            let (p, _) = database_error_parts(*self);
            assert(r@.take(p.len() as int) =~= p);
        }
        r
    }
}

} // verus!

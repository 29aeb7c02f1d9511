//! Errors of the broker subsystem.

use vstd::prelude::*;
use crate::shared::error::SpectralError;
use crate::text::concat_strs;

verus! {

/// Errors that can occur in broker operations.
#[derive(Debug)]
pub enum BrokerError {
    /// Broker definition not found
    NotFound {
        /// The broker ID that was not found
        broker_id: String,
    },
    /// Failed to load broker definition from file
    LoadError {
        /// Path to the definition file
        path: String,
        /// Underlying error
        source: std::io::Error,
    },
    /// Failed to parse broker definition TOML
    ParseError {
        /// Path to the definition file
        path: String,
        /// TOML parse error
        source: toml::de::Error,
    },
    /// Invalid broker definition (validation failed)
    ValidationError {
        /// Broker ID being validated
        broker_id: String,
        /// Reason for validation failure
        reason: String,
    },
    /// Broker definition directory not found
    DirectoryNotFound {
        /// Expected directory path
        path: String,
    },
    /// I/O error while accessing broker definitions
    Io(std::io::Error),
    /// Invalid broker ID format
    InvalidId(SpectralError),
    /// A removal request could not be carried out
    RemovalError {
        /// The broker the request was for
        broker_id: String,
        /// What went wrong
        reason: String,
    },
}

/// The message of a broker error whose payload is plain text; `None` for the
/// variants that carry another error.
pub open spec fn broker_error_text(e: BrokerError) -> Option<Seq<char>> {
    match e {
        BrokerError::NotFound { broker_id } => Some(
            "broker definition not found: "@ + broker_id@,
        ),
        BrokerError::ValidationError { broker_id, reason } => Some(
            "invalid broker definition for "@ + broker_id@ + ": "@ + reason@,
        ),
        BrokerError::DirectoryNotFound { path } => Some(
            "broker definitions directory not found at "@ + path@,
        ),
        BrokerError::RemovalError { broker_id, reason } => Some(
            "removal failed for "@ + broker_id@ + ": "@ + reason@,
        ),
        _ => None,
    }
}

/// The prefix that each broker error's message starts with.
pub open spec fn broker_error_prefix(e: BrokerError) -> Seq<char> {
    match e {
        BrokerError::NotFound { .. } => "broker definition not found: "@,
        BrokerError::LoadError { path, .. } => "failed to load broker definition from "@ + path@
            + ": "@,
        BrokerError::ParseError { path, .. } => "failed to parse broker definition TOML in "@
            + path@ + ": "@,
        BrokerError::ValidationError { broker_id, .. } => "invalid broker definition for "@
            + broker_id@ + ": "@,
        BrokerError::DirectoryNotFound { .. } => "broker definitions directory not found at "@,
        BrokerError::Io(_) => "I/O error: "@,
        BrokerError::InvalidId(_) => "invalid broker ID: "@,
        BrokerError::RemovalError { broker_id, .. } => "removal failed for "@ + broker_id@
            + ": "@,
    }
}

impl BrokerError {
    /// The error message, as displayed to users.
    pub fn message(&self) -> (r: String)
        ensures
            broker_error_text(*self) matches Some(t) ==> r@ == t,
            r@.len() >= broker_error_prefix(*self).len(),
            r@.take(broker_error_prefix(*self).len() as int) == broker_error_prefix(*self),
    {
        let r = match self {
            BrokerError::NotFound { broker_id } => concat_strs(
                "broker definition not found: ",
                broker_id.as_str(),
            ),
            BrokerError::LoadError { path, source } => {
                let a = concat_strs("failed to load broker definition from ", path.as_str());
                let b = concat_strs(a.as_str(), ": ");
                let t = source.to_string();
                concat_strs(b.as_str(), t.as_str())
            },
            BrokerError::ParseError { path, source } => {
                let a = concat_strs("failed to parse broker definition TOML in ", path.as_str());
                let b = concat_strs(a.as_str(), ": ");
                let t = source.to_string();
                concat_strs(b.as_str(), t.as_str())
            },
            BrokerError::ValidationError { broker_id, reason } => {
                let a = concat_strs("invalid broker definition for ", broker_id.as_str());
                let b = concat_strs(a.as_str(), ": ");
                concat_strs(b.as_str(), reason.as_str())
            },
            BrokerError::DirectoryNotFound { path } => concat_strs(
                "broker definitions directory not found at ",
                path.as_str(),
            ),
            BrokerError::Io(e) => {
                let t = e.to_string();
                concat_strs("I/O error: ", t.as_str())
            },
            BrokerError::InvalidId(e) => {
                let t = e.message();
                concat_strs("invalid broker ID: ", t.as_str())
            },
            BrokerError::RemovalError { broker_id, reason } => {
                let a = concat_strs("removal failed for ", broker_id.as_str());
                let b = concat_strs(a.as_str(), ": ");
                concat_strs(b.as_str(), reason.as_str())
            },
        };
        proof {
            let p = broker_error_prefix(*self);
            assert(r@.take(p.len() as int) =~= p);
        }
        r
    }
}

impl From<SpectralError> for BrokerError {
    fn from(e: SpectralError) -> (r: Self) {
        BrokerError::InvalidId(e)
    }
}

impl vstd::std_specs::convert::FromSpecImpl<SpectralError> for BrokerError {
    open spec fn obeys_from_spec() -> bool {
        true
    }

    open spec fn from_spec(e: SpectralError) -> Self {
        BrokerError::InvalidId(e)
    }
}

impl From<std::io::Error> for BrokerError {
    fn from(e: std::io::Error) -> (r: Self) {
        BrokerError::Io(e)
    }
}

impl vstd::std_specs::convert::FromSpecImpl<std::io::Error> for BrokerError {
    open spec fn obeys_from_spec() -> bool {
        true
    }

    open spec fn from_spec(e: std::io::Error) -> Self {
        BrokerError::Io(e)
    }
}

} // verus!

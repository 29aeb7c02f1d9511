//! Central error types.

use vstd::prelude::*;
use crate::text::concat_strs;

verus! {

/// std's I/O error, carried through unchanged.
#[verifier::external_type_specification]
#[verifier::external_body]
pub struct ExIoError(std::io::Error);

/// toml's deserialization error, carried through unchanged.
#[verifier::external_type_specification]
#[verifier::external_body]
pub struct ExTomlDeError(toml::de::Error);

/// toml's serialization error, carried through unchanged.
#[verifier::external_type_specification]
#[verifier::external_body]
pub struct ExTomlSerError(toml::ser::Error);

/// Central error type for all Spectral operations.
#[derive(Debug)]
pub enum SpectralError {
    /// Configuration errors (file loading, parsing, validation)
    Config(ConfigError),
    /// Vault errors (encryption, decryption, locking)
    Vault(String),
    /// Database errors (connection, queries, migrations)
    Database(String),
    /// Broker errors (definitions, scanning, parsing)
    Broker(String),
    /// LLM errors (provider connection, completions, routing)
    Llm(String),
    /// Browser automation errors (navigation, element not found)
    Browser(String),
    /// Network errors (HTTP requests, DNS)
    Network(String),
    /// Permission errors (action not allowed)
    PermissionDenied(String),
    /// Validation errors (invalid input, constraints)
    Validation(String),
    /// I/O errors
    Io(std::io::Error),
    /// Generic internal errors
    Internal(String),
}

/// Configuration-specific errors.
#[derive(Debug)]
pub enum ConfigError {
    /// Failed to determine config directory path
    NoConfigDir,
    /// Config file not found (may be first run)
    NotFound {
        /// Path where config was expected
        path: String,
    },
    /// Failed to parse TOML
    ParseError(toml::de::Error),
    /// Failed to serialize config
    SerializeError(toml::ser::Error),
    /// I/O error reading/writing config
    Io(std::io::Error),
    /// Invalid configuration value
    InvalidValue {
        /// Field name
        field: String,
        /// Reason for invalidity
        reason: String,
    },
}

/// The message of a configuration error whose payload is plain text; `None`
/// for the variants that carry an outside error.
pub open spec fn config_error_text(e: ConfigError) -> Option<Seq<char>> {
    match e {
        ConfigError::NoConfigDir => Some(
            "could not determine config directory (XDG base directories not available)"@,
        ),
        ConfigError::NotFound { path } => Some("config file not found at "@ + path@),
        ConfigError::InvalidValue { field, reason } => Some(
            "invalid config value for "@ + field@ + ": "@ + reason@,
        ),
        _ => None,
    }
}

/// The prefix that the message of each configuration error starts with.
pub open spec fn config_error_prefix(e: ConfigError) -> Seq<char> {
    match e {
        ConfigError::NoConfigDir => "could not determine config directory"@,
        ConfigError::NotFound { .. } => "config file not found at "@,
        ConfigError::ParseError(_) => "failed to parse config TOML: "@,
        ConfigError::SerializeError(_) => "failed to serialize config: "@,
        ConfigError::Io(_) => "I/O error: "@,
        ConfigError::InvalidValue { .. } => "invalid config value for "@,
    }
}

impl ConfigError {
    /// The error message, as displayed to users.
    pub fn message(&self) -> (r: String)
        ensures
            config_error_text(*self) matches Some(t) ==> r@ == t,
            r@.len() >= config_error_prefix(*self).len(),
            r@.take(config_error_prefix(*self).len() as int) == config_error_prefix(*self),
    {
        proof {
            reveal_strlit("could not determine config directory (XDG base directories not available)");
            reveal_strlit("could not determine config directory");
            reveal_strlit("config file not found at ");
            reveal_strlit("failed to parse config TOML: ");
            reveal_strlit("failed to serialize config: ");
            reveal_strlit("I/O error: ");
            reveal_strlit("invalid config value for ");
            reveal_strlit(": ");
        }
        let r = match self {
            ConfigError::NoConfigDir => "could not determine config directory (XDG base directories not available)".to_string(),
            ConfigError::NotFound { path } => concat_strs("config file not found at ", path.as_str()),
            ConfigError::ParseError(e) => {
                let t = e.to_string();
                concat_strs("failed to parse config TOML: ", t.as_str())
            },
            ConfigError::SerializeError(e) => {
                let t = e.to_string();
                concat_strs("failed to serialize config: ", t.as_str())
            },
            ConfigError::Io(e) => {
                let t = e.to_string();
                concat_strs("I/O error: ", t.as_str())
            },
            ConfigError::InvalidValue { field, reason } => {
                let a = concat_strs("invalid config value for ", field.as_str());
                let b = concat_strs(a.as_str(), ": ");
                concat_strs(b.as_str(), reason.as_str())
            },
        };
        proof {
            let p = config_error_prefix(*self);
            assert(r@.take(p.len() as int) =~= p);
        }
        r
    }
}

/// The prefix of each error's message and, for errors carrying plain text,
/// that text.
pub open spec fn spectral_error_parts(e: SpectralError) -> (Seq<char>, Option<Seq<char>>) {
    match e {
        SpectralError::Config(_) => ("configuration error: "@, None),
        SpectralError::Vault(s) => ("vault error: "@, Some(s@)),
        SpectralError::Database(s) => ("database error: "@, Some(s@)),
        SpectralError::Broker(s) => ("broker error: "@, Some(s@)),
        SpectralError::Llm(s) => ("LLM error: "@, Some(s@)),
        SpectralError::Browser(s) => ("browser error: "@, Some(s@)),
        SpectralError::Network(s) => ("network error: "@, Some(s@)),
        SpectralError::PermissionDenied(s) => ("permission denied: "@, Some(s@)),
        SpectralError::Validation(s) => ("validation error: "@, Some(s@)),
        SpectralError::Io(_) => ("I/O error: "@, None),
        SpectralError::Internal(s) => ("internal error: "@, Some(s@)),
    }
}

impl SpectralError {
    /// The error message, as displayed to users.
    pub fn message(&self) -> (r: String)
        ensures
            ({
                let (prefix, text) = spectral_error_parts(*self);
                &&& r@.len() >= prefix.len()
                &&& r@.take(prefix.len() as int) == prefix
                &&& text matches Some(t) ==> r@ == prefix + t
            }),
            *self matches SpectralError::Config(c) ==> config_error_text(c) matches Some(t) ==> r@
                == "configuration error: "@ + t,
    {
        proof {
            reveal_strlit("configuration error: ");
            reveal_strlit("vault error: ");
            reveal_strlit("database error: ");
            reveal_strlit("broker error: ");
            reveal_strlit("LLM error: ");
            reveal_strlit("browser error: ");
            reveal_strlit("network error: ");
            reveal_strlit("permission denied: ");
            reveal_strlit("validation error: ");
            reveal_strlit("I/O error: ");
            reveal_strlit("internal error: ");
        }
        let r = match self {
            SpectralError::Config(c) => {
                let t = c.message();
                concat_strs("configuration error: ", t.as_str())
            },
            SpectralError::Vault(s) => concat_strs("vault error: ", s.as_str()),
            SpectralError::Database(s) => concat_strs("database error: ", s.as_str()),
            SpectralError::Broker(s) => concat_strs("broker error: ", s.as_str()),
            SpectralError::Llm(s) => concat_strs("LLM error: ", s.as_str()),
            SpectralError::Browser(s) => concat_strs("browser error: ", s.as_str()),
            SpectralError::Network(s) => concat_strs("network error: ", s.as_str()),
            SpectralError::PermissionDenied(s) => concat_strs("permission denied: ", s.as_str()),
            SpectralError::Validation(s) => concat_strs("validation error: ", s.as_str()),
            SpectralError::Io(e) => {
                let t = e.to_string();
                concat_strs("I/O error: ", t.as_str())
            },
            SpectralError::Internal(s) => concat_strs("internal error: ", s.as_str()),
        };
        proof {
            let (p, _) = spectral_error_parts(*self);
            assert(r@.take(p.len() as int) =~= p);
        }
        r
    }
}

impl From<ConfigError> for SpectralError {
    fn from(e: ConfigError) -> (r: Self) {
        SpectralError::Config(e)
    }
}

impl vstd::std_specs::convert::FromSpecImpl<ConfigError> for SpectralError {
    open spec fn obeys_from_spec() -> bool {
        true
    }

    open spec fn from_spec(e: ConfigError) -> Self {
        SpectralError::Config(e)
    }
}

impl From<std::io::Error> for SpectralError {
    fn from(e: std::io::Error) -> (r: Self) {
        SpectralError::Io(e)
    }
}

impl vstd::std_specs::convert::FromSpecImpl<std::io::Error> for SpectralError {
    open spec fn obeys_from_spec() -> bool {
        true
    }

    open spec fn from_spec(e: std::io::Error) -> Self {
        SpectralError::Io(e)
    }
}

} // verus!

//! Browser automation support: errors, domain extraction, fingerprints,
//! per-domain rate limiting and the reading of launch failures.

pub mod actions;
pub mod engine;
pub mod error;
pub mod fingerprint;

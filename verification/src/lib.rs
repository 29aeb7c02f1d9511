//! Spectral: verified core logic of a personal-data privacy assistant.
//!
//! The library covers broker definitions and their validation, feature
//! capabilities, identifiers, PII detection helpers, cookie matching,
//! browser rate limiting and database record helpers.

pub mod text;
pub mod auth;
mod probe;
pub mod shared;
pub mod discovery;
pub mod broker;
pub mod browser;
pub mod cookies;
pub mod db;

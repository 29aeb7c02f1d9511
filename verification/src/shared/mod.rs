//! Shared types, errors, configuration defaults and feature capabilities.

pub mod capabilities;
pub mod config;
pub mod error;
pub mod types;

//! Broker definitions: their types and validation, an in-memory registry,
//! the loader's decisions and removal outcomes.

pub mod definition;
pub mod error;
pub mod loader;
pub mod registry;
pub mod removal;
pub mod web_form;

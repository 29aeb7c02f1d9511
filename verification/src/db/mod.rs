//! Database records: statuses and how they are stored as text, the Google
//! removal link, the encryption key's pragma, and the record types.

pub mod error;
pub mod google_removal;
pub mod keys;
pub mod records;
pub mod status;

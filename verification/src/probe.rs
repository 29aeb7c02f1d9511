//! Questions to the file system whose answers depend on what is on disk.

use vstd::prelude::*;

verus! {

/// Whether something exists at `path` (std's `Path::exists`). What is on
/// disk is not stated.
#[verifier::external_body]
pub(crate) fn path_exists(path: &str) -> (r: bool) {
    std::path::Path::new(path).exists()
}

/// Whether `path` is a directory (std's `Path::is_dir`). What is on disk is
/// not stated.
#[verifier::external_body]
pub(crate) fn path_is_dir(path: &str) -> (r: bool) {
    std::path::Path::new(path).is_dir()
}

} // verus!

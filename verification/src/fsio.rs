//! Trusted, minimal views of single paths on the filesystem.
//!
//! Each function wraps one metadata query of the standard library. Nothing
//! can be promised about the results: the filesystem changes underneath the
//! program, so the callers state what holds of whatever comes back.

use vstd::prelude::*;

verus! {

/// Relies on `std::path::Path::exists`: true when the path can be resolved
/// to an existing filesystem object.
#[verifier::external_body]
pub(crate) fn path_exists(path: &str) -> bool {
    std::path::Path::new(path).exists()
}

/// Relies on `std::path::Path::is_file`: true when the path resolves to a
/// regular file.
#[verifier::external_body]
pub(crate) fn path_is_file(path: &str) -> bool {
    std::path::Path::new(path).is_file()
}

/// Relies on `std::path::Path::is_dir`: true when the path resolves to a
/// directory.
#[verifier::external_body]
pub(crate) fn path_is_dir(path: &str) -> bool {
    std::path::Path::new(path).is_dir()
}

/// Relies on `std::path::Path::metadata`: the length recorded in the path's
/// metadata, or the error's message when the metadata cannot be read.
#[verifier::external_body]
pub(crate) fn file_length(path: &str) -> Result<u64, String> {
    match std::path::Path::new(path).metadata() {
        Ok(m) => Ok(m.len()),
        Err(e) => Err(e.to_string()),
    }
}

/// Relies on `std::path::Path::metadata` and `Permissions::readonly`: `Some(w)`
/// where `w` is true when some write bit of the path's permissions is set,
/// `None` when the metadata cannot be read.
#[verifier::external_body]
pub(crate) fn path_writable(path: &str) -> Option<bool> {
    match std::path::Path::new(path).metadata() {
        Ok(m) => Some(!m.permissions().readonly()),
        Err(_) => None,
    }
}

} // verus!

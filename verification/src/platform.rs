//! Safe file deletion with permission pre-checks.
//!
//! Deletability is decided from the path's own metadata before any removal is
//! attempted, a vanished path is reported as such rather than crashing, and
//! every failure carries the offending path and a human-readable cause.

use vstd::prelude::*;
use vstd::string::StringExecFns;
use crate::fsio;

verus! {

/// Why a deletion failed.
#[derive(Debug)]
pub enum DeleteError {
    /// The path no longer exists; re-validated at delete time.
    NotFound(String),
    /// The pre-check found the path not deletable; no removal was attempted.
    PermissionDenied(String),
    /// The removal call itself failed; carries the path and the cause.
    Io(String),
}

impl DeleteError {
    /// The human-readable text carried by this error.
    pub open spec fn text(&self) -> Seq<char> {
        match self {
            DeleteError::NotFound(m) => m@,
            DeleteError::PermissionDenied(m) => m@,
            DeleteError::Io(m) => m@,
        }
    }

    /// Returns the carried message.
    pub fn message(&self) -> (r: String)
        ensures
            r@ == self.text(),
    {
        match self {
            DeleteError::NotFound(m) => m.clone(),
            DeleteError::PermissionDenied(m) => m.clone(),
            DeleteError::Io(m) => m.clone(),
        }
    }
}

/// The text reported when the path to delete no longer exists.
pub open spec fn delete_not_found_text(path: Seq<char>) -> Seq<char> {
    "Path '"@ + path + "' does not exist"@
}

/// The text reported when the pre-check denies deletion.
pub open spec fn permission_denied_text(path: Seq<char>) -> Seq<char> {
    "Insufficient permissions to delete '"@ + path + "'"@
}

/// The prefix of the text reported when the removal call fails; the system's
/// own message follows it.
pub open spec fn removal_failed_prefix(path: Seq<char>, is_directory: bool) -> Seq<char> {
    (if is_directory {
        "Failed to delete directory '"@
    } else {
        "Failed to delete file '"@
    }) + path + "': "@
}

fn msg_delete_not_found(path: &str) -> (m: String)
    ensures
        m@ == delete_not_found_text(path@),
{
    let mut m = String::from_str("Path '");
    m.append(path);
    m.append("' does not exist");
    m
}

fn msg_permission_denied(path: &str) -> (m: String)
    ensures
        m@ == permission_denied_text(path@),
{
    let mut m = String::from_str("Insufficient permissions to delete '");
    m.append(path);
    m.append("'");
    m
}

fn msg_removal_failed(path: &str, is_directory: bool, cause: &String) -> (m: String)
    ensures
        m@ == removal_failed_prefix(path@, is_directory) + cause@,
{
    let mut m = if is_directory {
        String::from_str("Failed to delete directory '")
    } else {
        String::from_str("Failed to delete file '")
    };
    m.append(path);
    m.append("': ");
    m.append(cause.as_str());
    m
}

/// Relies on `fs_err::remove_file`: removes the file at `path`, or returns
/// the error's message (which names the path and the cause).
#[verifier::external_body]
fn remove_file_now(path: &str) -> Result<(), String> {
    match fs_err::remove_file(path) {
        Ok(()) => Ok(()),
        Err(e) => Err(e.to_string()),
    }
}

/// Relies on `fs_err::remove_dir_all`: removes the directory at `path` and
/// everything under it, or returns the error's message (which names the path
/// and the cause).
#[verifier::external_body]
fn remove_dir_all_now(path: &str) -> Result<(), String> {
    match fs_err::remove_dir_all(path) {
        Ok(()) => Ok(()),
        Err(e) => Err(e.to_string()),
    }
}

/// A path is deletable when it exists and its metadata shows it writable.
pub open spec fn deletable(exists: bool, writable: Option<bool>) -> bool {
    exists && writable == Option::Some(true)
}

/// A classified operating-system error, modelled as the part of
/// `std::io::Error` that the message choice depends on.
pub enum IoErrorKind {
    /// The operation lacked the necessary privileges.
    PermissionDenied,
    /// The filesystem object was not found.
    NotFound,
    /// A directory could not be deleted because it still has contents.
    DirectoryNotEmpty,
    /// Any other error, with its own message.
    Other(String),
}

/// The user-facing message for each kind of operating-system error.
pub open spec fn friendly_text(kind: &IoErrorKind) -> Seq<char> {
    match kind {
        IoErrorKind::PermissionDenied => "Permission denied. You may need administrator privileges."@,
        IoErrorKind::NotFound => "File or directory not found."@,
        IoErrorKind::DirectoryNotEmpty => "Directory is not empty and cannot be deleted."@,
        IoErrorKind::Other(m) => "Operation failed: "@ + m@,
    }
}

/// File operations that behave the same on every supported platform.
pub struct PlatformUtils;

impl PlatformUtils {
    /// Decides deletability from a path's observed state: the path must exist
    /// and its own metadata must show it writable.
    pub fn deletable_from(exists: bool, writable: Option<bool>) -> (r: bool)
        ensures
            r == deletable(exists, writable),
    {
        exists && match writable {
            Option::Some(w) => w,
            Option::None => false,
        }
    }

    /// Checks whether `path` may be deleted: it exists and no read-only
    /// attribute blocks writing. A pre-check only; the filesystem may still
    /// change before a removal.
    pub fn can_delete(path: &str) -> bool {
        if !fsio::path_exists(path) {
            return false;
        }
        let writable = fsio::path_writable(path);
        Self::deletable_from(true, writable)
    }

    /// Deletes a file or a directory after re-validating it.
    ///
    /// The path's existence is checked again at delete time, so a path
    /// removed concurrently since it was selected fails with `NotFound`. A
    /// path the pre-check finds undeletable fails with `PermissionDenied`
    /// and no removal is attempted. Otherwise the removal is performed —
    /// recursive for a directory, single for a file — and its own error, if
    /// any, is wrapped with the path.
    pub fn safe_delete(path: &str, is_directory: bool) -> (r: Result<(), DeleteError>)
        ensures
            r matches Err(DeleteError::NotFound(m)) ==> m@ == delete_not_found_text(path@),
            r matches Err(DeleteError::PermissionDenied(m)) ==> m@ == permission_denied_text(
                path@,
            ),
            r matches Err(DeleteError::Io(m)) ==> removal_failed_prefix(path@,
                is_directory,
            ).is_prefix_of(m@),
    {
        if !fsio::path_exists(path) {
            return Err(DeleteError::NotFound(msg_delete_not_found(path)));
        }
        if !Self::can_delete(path) {
            return Err(DeleteError::PermissionDenied(msg_permission_denied(path)));
        }
        let removed = if is_directory {
            remove_dir_all_now(path)
        } else {
            remove_file_now(path)
        };
        match removed {
            Ok(()) => Ok(()),
            Err(cause) => Err(DeleteError::Io(msg_removal_failed(path, is_directory, &cause))),
        }
    }

    /// The user-facing message for a classified operating-system error.
    pub fn friendly_error_message(kind: &IoErrorKind) -> (r: String)
        ensures
            r@ == friendly_text(kind),
    {
        match kind {
            IoErrorKind::PermissionDenied => String::from_str(
                "Permission denied. You may need administrator privileges.",
            ),
            IoErrorKind::NotFound => String::from_str("File or directory not found."),
            IoErrorKind::DirectoryNotEmpty => String::from_str(
                "Directory is not empty and cannot be deleted.",
            ),
            IoErrorKind::Other(m) => {
                let mut r = String::from_str("Operation failed: ");
                r.append(m.as_str());
                r
            },
        }
    }
}

} // verus!

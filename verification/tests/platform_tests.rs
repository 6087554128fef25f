use disk_cleaner::platform::{DeleteError, IoErrorKind, PlatformUtils};
use std::path::{Path, PathBuf};
use tempfile::{Builder, TempDir};

fn make_file(dir: &Path, name: &str) -> PathBuf {
    let f = Builder::new()
        .prefix(name)
        .rand_bytes(0)
        .tempfile_in(dir)
        .unwrap();
    let (_, path) = f.keep().unwrap();
    path
}

fn make_dir(dir: &Path, name: &str) -> PathBuf {
    Builder::new()
        .prefix(name)
        .rand_bytes(0)
        .tempdir_in(dir)
        .unwrap()
        .keep()
}

#[test]
fn test_can_delete_existing_file() {
    let temp_dir = TempDir::new().unwrap();
    let file_path = make_file(temp_dir.path(), "test.txt");

    assert!(PlatformUtils::can_delete(file_path.to_str().unwrap()));
}

#[test]
fn test_can_delete_nonexistent_file() {
    let temp_dir = TempDir::new().unwrap();
    let file_path = temp_dir.path().join("nonexistent.txt");

    assert!(!PlatformUtils::can_delete(file_path.to_str().unwrap()));
}

#[test]
fn test_safe_delete_file() {
    let temp_dir = TempDir::new().unwrap();
    let file_path = make_file(temp_dir.path(), "test.txt");

    assert!(file_path.exists());
    PlatformUtils::safe_delete(file_path.to_str().unwrap(), false).unwrap();
    assert!(!file_path.exists());
}

#[test]
fn test_safe_delete_directory() {
    let temp_dir = TempDir::new().unwrap();
    let dir_path = make_dir(temp_dir.path(), "test_dir");

    assert!(dir_path.exists());
    PlatformUtils::safe_delete(dir_path.to_str().unwrap(), true).unwrap();
    assert!(!dir_path.exists());
}

#[test]
fn test_safe_delete_vanished_path() {
    // A path that disappeared between selection and deletion fails with
    // NotFound and a message naming the path, not a crash.
    let temp_dir = TempDir::new().unwrap();
    let f = Builder::new()
        .prefix("gone.txt")
        .rand_bytes(0)
        .tempfile_in(temp_dir.path())
        .unwrap();
    let file_path = f.path().to_path_buf();
    assert!(file_path.exists());
    drop(f); // removes the file: it vanishes after selection

    let result = PlatformUtils::safe_delete(file_path.to_str().unwrap(), false);
    match result {
        Err(DeleteError::NotFound(m)) => {
            assert!(m.contains("gone.txt"));
            assert!(m.contains("does not exist"));
        }
        _ => panic!("expected NotFound"),
    }
}

#[test]
fn test_readonly_file_blocks_deletion() {
    // A file whose write permission is cleared is reported undeletable, and
    // safe_delete refuses with PermissionDenied without touching it.
    let temp_dir = TempDir::new().unwrap();
    let f = Builder::new()
        .prefix("readonly.txt")
        .rand_bytes(0)
        .tempfile_in(temp_dir.path())
        .unwrap();
    let (file, file_path) = f.keep().unwrap();

    let mut perms = file.metadata().unwrap().permissions();
    perms.set_readonly(true);
    file.set_permissions(perms).unwrap();

    let path_str = file_path.to_str().unwrap();
    assert!(!PlatformUtils::can_delete(path_str));

    let result = PlatformUtils::safe_delete(path_str, false);
    match result {
        Err(DeleteError::PermissionDenied(m)) => {
            assert!(m.contains("Insufficient permissions"));
            assert!(m.contains("readonly.txt"));
        }
        _ => panic!("expected PermissionDenied"),
    }
    assert!(file_path.exists());

    // restore the write permission so the directory can be cleaned up
    let mut perms = file.metadata().unwrap().permissions();
    perms.set_readonly(false);
    file.set_permissions(perms).unwrap();
}

#[test]
fn test_safe_delete_type_mismatch_reports_io_error() {
    // Removing a directory with the single-file removal call fails in the
    // operating system; the error is wrapped with the path and the cause.
    let temp_dir = TempDir::new().unwrap();
    let dir_path = make_dir(temp_dir.path(), "treated_as_file");

    let result = PlatformUtils::safe_delete(dir_path.to_str().unwrap(), false);
    match result {
        Err(DeleteError::Io(m)) => {
            assert!(m.starts_with("Failed to delete file '"));
            assert!(m.contains("treated_as_file"));
        }
        _ => panic!("expected Io"),
    }
    assert!(dir_path.exists());
}

#[test]
fn test_friendly_error_messages() {
    let perm_error = IoErrorKind::PermissionDenied;
    assert!(PlatformUtils::friendly_error_message(&perm_error).contains("Permission denied"));

    let not_found_error = IoErrorKind::NotFound;
    assert!(PlatformUtils::friendly_error_message(&not_found_error).contains("not found"));
}

#[test]
fn test_friendly_error_message_texts() {
    assert_eq!(
        PlatformUtils::friendly_error_message(&IoErrorKind::PermissionDenied),
        "Permission denied. You may need administrator privileges."
    );
    assert_eq!(
        PlatformUtils::friendly_error_message(&IoErrorKind::NotFound),
        "File or directory not found."
    );
    assert_eq!(
        PlatformUtils::friendly_error_message(&IoErrorKind::DirectoryNotEmpty),
        "Directory is not empty and cannot be deleted."
    );
    assert_eq!(
        PlatformUtils::friendly_error_message(&IoErrorKind::Other(String::from("disk full"))),
        "Operation failed: disk full"
    );
}

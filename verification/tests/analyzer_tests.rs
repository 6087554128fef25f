use disk_cleaner::analyzer::{DirectoryEntry, DiskAnalyzer};
use std::io::Write;
use std::path::{Path, PathBuf};
use tempfile::{Builder, TempDir};

fn make_file(dir: &Path, name: &str, content: &[u8]) -> PathBuf {
    let mut f = Builder::new()
        .prefix(name)
        .rand_bytes(0)
        .tempfile_in(dir)
        .unwrap();
    f.write_all(content).unwrap();
    let (_, path) = f.keep().unwrap();
    path
}

fn make_dir(dir: &Path, name: &str) -> PathBuf {
    Builder::new()
        .prefix(name)
        .rand_bytes(0)
        .tempdir_in(dir)
        .unwrap()
        .keep()
}

fn create_test_structure() -> TempDir {
    let temp_dir = TempDir::new().unwrap();
    let base_path = temp_dir.path();

    // Create files with known sizes
    make_file(base_path, "large_file.txt", &vec![b'x'; 1000]); // 1KB
    make_file(base_path, "small_file.txt", &[b'y'; 100]); // 100 bytes

    // Create subdirectory with file
    let subdir = make_dir(base_path, "subdir");
    make_file(&subdir, "nested_file.txt", &vec![b'z'; 500]); // 500 bytes

    // Create empty directory
    make_dir(base_path, "empty_dir");

    temp_dir
}

#[test]
fn test_calculate_file_size() {
    let temp_dir = create_test_structure();
    let file_path = temp_dir.path().join("large_file.txt");
    let analyzer = DiskAnalyzer::new(3);

    let size = analyzer
        .calculate_size(file_path.to_str().unwrap())
        .unwrap();
    assert_eq!(size, 1000);
}

#[test]
fn test_calculate_directory_size() {
    let temp_dir = create_test_structure();
    let subdir_path = temp_dir.path().join("subdir");
    let analyzer = DiskAnalyzer::new(3);

    let size = analyzer
        .calculate_size(subdir_path.to_str().unwrap())
        .unwrap();
    assert_eq!(size, 500);
}

#[test]
fn test_analyze_directory() {
    let temp_dir = create_test_structure();
    let analyzer = DiskAnalyzer::new(1);

    let entries = analyzer
        .analyze_directory(temp_dir.path().to_str().unwrap())
        .unwrap();

    // Should have 4 entries: 2 files + 2 directories
    assert_eq!(entries.len(), 4);

    // Check if sorted by size (largest first)
    assert!(entries[0].size_bytes >= entries[1].size_bytes);

    // Verify specific entries exist
    let names: Vec<String> = entries
        .iter()
        .map(|e| {
            std::path::Path::new(&e.path)
                .file_name()
                .unwrap()
                .to_string_lossy()
                .to_string()
        })
        .collect();

    assert!(names.contains(&"large_file.txt".to_string()));
    assert!(names.contains(&"small_file.txt".to_string()));
    assert!(names.contains(&"subdir".to_string()));
    assert!(names.contains(&"empty_dir".to_string()));
}

#[test]
fn test_directory_entry_creation() {
    let path = String::from("/test/path");
    let entry = DirectoryEntry::new(path.clone(), 1024, true);

    assert_eq!(entry.path, path);
    assert_eq!(entry.size_bytes, 1024);
    assert!(entry.is_directory);
    assert_eq!(entry.size_human, "1.02 kB");
}

#[test]
fn test_filter_entries() {
    let entries = vec![
        DirectoryEntry::new(String::from("large"), 1000, false),
        DirectoryEntry::new(String::from("medium"), 500, false),
        DirectoryEntry::new(String::from("small"), 100, false),
    ];

    let analyzer = DiskAnalyzer::new(1);
    let filtered = analyzer.filter_entries(&entries, Some(400));

    assert_eq!(filtered.len(), 2);
    assert_eq!(filtered[0].path, String::from("large"));
    assert_eq!(filtered[1].path, String::from("medium"));
}

#[test]
fn test_filter_entries_no_threshold() {
    let entries = vec![
        DirectoryEntry::new(String::from("a"), 10, false),
        DirectoryEntry::new(String::from("b"), 0, true),
    ];

    let analyzer = DiskAnalyzer::new(1);
    let filtered = analyzer.filter_entries(&entries, None);

    assert_eq!(filtered.len(), 2);
    assert_eq!(filtered[0].path, "a");
    assert_eq!(filtered[1].path, "b");
}

#[test]
fn test_filter_by_type() {
    let entries = vec![
        DirectoryEntry::new(String::from("f1"), 10, false),
        DirectoryEntry::new(String::from("d1"), 20, true),
        DirectoryEntry::new(String::from("f2"), 30, false),
    ];

    let dirs = disk_cleaner::analyzer::filter_by_type(&entries, true, false);
    assert_eq!(dirs.len(), 1);
    assert_eq!(dirs[0].path, "d1");

    let files = disk_cleaner::analyzer::filter_by_type(&entries, false, true);
    assert_eq!(files.len(), 2);
    assert_eq!(files[0].path, "f1");
    assert_eq!(files[1].path, "f2");

    let all = disk_cleaner::analyzer::filter_by_type(&entries, false, false);
    assert_eq!(all.len(), 3);
}

#[test]
fn test_nonexistent_directory() {
    let analyzer = DiskAnalyzer::new(1);
    let result = analyzer.analyze_directory("/nonexistent/path");

    assert!(result.is_err());
    assert!(result.unwrap_err().message().contains("does not exist"));
}

#[test]
fn test_file_instead_of_directory() {
    let temp_dir = create_test_structure();
    let file_path = temp_dir.path().join("large_file.txt");

    let analyzer = DiskAnalyzer::new(1);
    let result = analyzer.analyze_directory(file_path.to_str().unwrap());

    assert!(result.is_err());
    assert!(result.unwrap_err().message().contains("is not a directory"));
}

#[test]
fn test_calculate_size_nonexistent() {
    let analyzer = DiskAnalyzer::new(3);
    let result = analyzer.calculate_size("/nonexistent/file");
    assert_eq!(result.unwrap(), 0);
}

#[test]
fn test_analysis_scenario_depth_one() {
    // A directory with files of 1000 and 100 bytes, one empty subdirectory
    // and one subdirectory holding a 500-byte file. At depth 1 a
    // subdirectory's own children are beyond the bound, so both
    // subdirectories count as empty; the result is sorted descending.
    let temp_dir = create_test_structure();
    let analyzer = DiskAnalyzer::new(1);

    let entries = analyzer
        .analyze_directory(temp_dir.path().to_str().unwrap())
        .unwrap();

    let sizes: Vec<u64> = entries.iter().map(|e| e.size_bytes).collect();
    assert_eq!(sizes, vec![1000, 100, 0, 0]);

    for pair in entries.windows(2) {
        assert!(pair[0].size_bytes >= pair[1].size_bytes);
    }
}

#[test]
fn test_analysis_scenario_depth_two() {
    // With one more level of depth the non-empty subdirectory's 500-byte
    // file is reached, and the subdirectory sorts between the two files.
    let temp_dir = create_test_structure();
    let analyzer = DiskAnalyzer::new(2);

    let entries = analyzer
        .analyze_directory(temp_dir.path().to_str().unwrap())
        .unwrap();

    let sizes: Vec<u64> = entries.iter().map(|e| e.size_bytes).collect();
    assert_eq!(sizes, vec![1000, 500, 100, 0]);

    assert_eq!(
        std::path::Path::new(&entries[1].path)
            .file_name()
            .unwrap()
            .to_string_lossy(),
        "subdir"
    );
}

#[test]
fn test_entry_size_formatting() {
    // The human-readable size is decimal (1000-based), two significant
    // digits of precision, derived from the byte count at construction.
    assert_eq!(DirectoryEntry::new(String::from("a"), 0, false).size_human, "0 B");
    assert_eq!(DirectoryEntry::new(String::from("b"), 999, false).size_human, "999 B");
    assert_eq!(DirectoryEntry::new(String::from("c"), 1000, false).size_human, "1 kB");
    assert_eq!(
        DirectoryEntry::new(String::from("d"), 2_100_000_000, false).size_human,
        "2.10 GB"
    );
}

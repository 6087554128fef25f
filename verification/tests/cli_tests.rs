use disk_cleaner::cli::{parse_args, parse_u64, CliError};

fn args(v: &[&str]) -> Vec<String> {
    v.iter().map(|s| s.to_string()).collect()
}

#[test]
fn test_cli_parsing() {
    // Test default values
    let cli = parse_args(&args(&["disk-cleaner"])).unwrap();
    assert_eq!(cli.path, String::from("."));
    assert_eq!(cli.depth, 1);
    assert_eq!(cli.min_size, None);
    assert!(!cli.dirs_only);
    assert!(!cli.files_only);
}

#[test]
fn test_cli_with_arguments() {
    let cli = parse_args(&args(&[
        "disk-cleaner",
        "/tmp",
        "--depth",
        "2",
        "--min-size",
        "1000",
        "--dirs-only",
    ]))
    .unwrap();

    assert_eq!(cli.path, String::from("/tmp"));
    assert_eq!(cli.depth, 2);
    assert_eq!(cli.min_size, Some(1000));
    assert!(cli.dirs_only);
    assert!(!cli.files_only);
}

#[test]
fn test_cli_conflicting_flags_prevented() {
    // This should fail with the mutual-exclusion constraint
    let result = parse_args(&args(&["disk-cleaner", "--dirs-only", "--files-only"]));

    assert!(result.is_err());
    if let Err(err) = result {
        assert!(matches!(err, CliError::ConflictingFilters));
        assert!(err.message().contains("cannot be used with"));
    }
}

#[test]
fn test_cli_short_flags() {
    let cli = parse_args(&args(&["disk-cleaner", "-d", "3", "-m", "42"])).unwrap();
    assert_eq!(cli.depth, 3);
    assert_eq!(cli.min_size, Some(42));
    assert_eq!(cli.path, ".");
}

#[test]
fn test_cli_rejects_unknown_flag() {
    let result = parse_args(&args(&["disk-cleaner", "--frobnicate"]));
    assert!(matches!(result, Err(CliError::UnknownFlag(_))));
}

#[test]
fn test_cli_rejects_second_path() {
    let result = parse_args(&args(&["disk-cleaner", "/tmp", "/var"]));
    assert!(matches!(result, Err(CliError::UnexpectedArgument(_))));
}

#[test]
fn test_cli_rejects_missing_value() {
    let result = parse_args(&args(&["disk-cleaner", "--depth"]));
    assert!(matches!(result, Err(CliError::MissingValue(_))));
}

#[test]
fn test_cli_rejects_bad_number() {
    let result = parse_args(&args(&["disk-cleaner", "--min-size", "12a"]));
    assert!(matches!(result, Err(CliError::InvalidNumber(_))));
}

#[test]
fn test_parse_u64_exact_values() {
    assert_eq!(parse_u64("0"), Some(0));
    assert_eq!(parse_u64("1000"), Some(1000));
    assert_eq!(parse_u64("18446744073709551615"), Some(u64::MAX));
    // one past the largest representable value
    assert_eq!(parse_u64("18446744073709551616"), None);
    assert_eq!(parse_u64(""), None);
    assert_eq!(parse_u64("12a"), None);
    assert_eq!(parse_u64("-5"), None);
}

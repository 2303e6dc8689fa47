use std::path::PathBuf;

use proact::cli::{Args, ArgsError};

#[test]
fn test_cli_parsing() {
    let args = Args::try_parse_from(&["proact", "../test-proj"]).unwrap();
    assert_eq!(PathBuf::from(&args.target), PathBuf::from("../test-proj"));
    assert_eq!(PathBuf::from(&args.output_dir), PathBuf::from("docs"));
    assert!(!args.verbose);
    assert!(!args.dry_run);
}

#[test]
fn test_cli_with_verbose() {
    let args = Args::try_parse_from(&["proact", "-v", "../test-proj"]).unwrap();
    assert!(args.verbose);
}

#[test]
fn test_cli_with_output_dir() {
    let args = Args::try_parse_from(&["proact", "-o", "./output", "../test-proj"]).unwrap();
    assert_eq!(PathBuf::from(&args.output_dir), PathBuf::from("./output"));
}

#[test]
fn test_cli_long_options() {
    let args = Args::try_parse_from(&[
        "proact",
        "--verbose",
        "--output-dir",
        "./custom",
        "../project",
    ])
    .unwrap();
    assert!(args.verbose);
    assert_eq!(PathBuf::from(&args.output_dir), PathBuf::from("./custom"));
    assert_eq!(PathBuf::from(&args.target), PathBuf::from("../project"));
}

#[test]
fn test_cli_with_dry_run() {
    let args = Args::try_parse_from(&["proact", "-n", "../test-proj"]).unwrap();
    assert!(args.dry_run);
}

#[test]
fn test_cli_with_dry_run_long() {
    let args = Args::try_parse_from(&["proact", "--dry-run", "../test-proj"]).unwrap();
    assert!(args.dry_run);
}

#[test]
fn cli_missing_target_is_refused() {
    let r = Args::try_parse_from(&["proact", "-v"]);
    assert_eq!(r.unwrap_err(), ArgsError::MissingTarget);
}

#[test]
fn cli_output_dir_without_value_is_refused() {
    let r = Args::try_parse_from(&["proact", "../p", "-o"]);
    assert_eq!(r.unwrap_err(), ArgsError::MissingValue);
}

#[test]
fn cli_unknown_option_is_refused() {
    let r = Args::try_parse_from(&["proact", "--fast", "../p"]);
    assert_eq!(r.unwrap_err(), ArgsError::UnknownOption);
}

#[test]
fn cli_second_target_is_refused() {
    let r = Args::try_parse_from(&["proact", "../a", "../b"]);
    assert_eq!(r.unwrap_err(), ArgsError::UnexpectedArgument);
}

#[test]
fn cli_options_after_target() {
    let args = Args::try_parse_from(&["proact", "../p", "-n", "-o", "out"]).unwrap();
    assert_eq!(args.target, "../p");
    assert_eq!(args.output_dir, "out");
    assert!(args.dry_run);
    assert!(!args.verbose);
}

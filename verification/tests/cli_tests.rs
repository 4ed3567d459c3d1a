use uuidgen::cli::{parse_args, Command, UsageKind};
use uuidgen::config::{Config, OutputFormat, UuidType};

fn strs(v: &[&str]) -> Vec<String> {
    v.iter().map(|s| s.to_string()).collect()
}

fn expect_config(args: &[&str]) -> Config {
    match parse_args(&strs(args)) {
        Ok(Command::Run(c)) => c,
        _ => panic!("expected a run configuration for {:?}", args),
    }
}

fn expect_error(args: &[&str]) -> (UsageKind, String) {
    match parse_args(&strs(args)) {
        Err(e) => (e.kind, e.arg),
        _ => panic!("expected a usage error for {:?}", args),
    }
}

#[test]
fn defaults_when_no_arguments() {
    let c = expect_config(&[]);
    assert_eq!(c.uuid_type, UuidType::V4);
    assert_eq!(c.count, 1);
    assert_eq!(c.format, OutputFormat::All);
    assert!(!c.quiet);
}

#[test]
fn short_options() {
    let c = expect_config(&["-t", "v7", "-c", "3", "-f", "lower-dash", "-q"]);
    assert_eq!(c.uuid_type, UuidType::V7);
    assert_eq!(c.count, 3);
    assert_eq!(c.format, OutputFormat::LowerDash);
    assert!(c.quiet);
}

#[test]
fn long_options() {
    let c = expect_config(&["--type", "v7", "--count", "12", "--format", "upper-nodash", "--quiet"]);
    assert_eq!(c.uuid_type, UuidType::V7);
    assert_eq!(c.count, 12);
    assert_eq!(c.format, OutputFormat::UpperNoDash);
    assert!(c.quiet);
}

#[test]
fn all_format_names() {
    assert_eq!(expect_config(&["-f", "lower-dash"]).format, OutputFormat::LowerDash);
    assert_eq!(expect_config(&["-f", "upper-dash"]).format, OutputFormat::UpperDash);
    assert_eq!(expect_config(&["-f", "lower-nodash"]).format, OutputFormat::LowerNoDash);
    assert_eq!(expect_config(&["-f", "upper-nodash"]).format, OutputFormat::UpperNoDash);
    assert_eq!(expect_config(&["-f", "all"]).format, OutputFormat::All);
}

#[test]
fn count_zero_is_accepted() {
    let c = expect_config(&["-c", "0"]);
    assert_eq!(c.count, 0);
}

#[test]
fn last_occurrence_wins() {
    let c = expect_config(&["-c", "2", "-c", "5", "-t", "v7", "-t", "v4"]);
    assert_eq!(c.count, 5);
    assert_eq!(c.uuid_type, UuidType::V4);
}

#[test]
fn help_and_version_requests() {
    assert!(matches!(parse_args(&strs(&["-h"])), Ok(Command::Help)));
    assert!(matches!(parse_args(&strs(&["--help"])), Ok(Command::Help)));
    assert!(matches!(parse_args(&strs(&["-V"])), Ok(Command::Version)));
    assert!(matches!(parse_args(&strs(&["--version"])), Ok(Command::Version)));
    // a help request ends parsing even when followed by bad arguments
    assert!(matches!(parse_args(&strs(&["--help", "--bogus"])), Ok(Command::Help)));
}

#[test]
fn unknown_option_is_an_error() {
    let (kind, arg) = expect_error(&["--frobnicate"]);
    assert_eq!(kind, UsageKind::UnknownOption);
    assert_eq!(arg, "--frobnicate");
}

#[test]
fn bare_word_is_an_error() {
    let (kind, arg) = expect_error(&["v4"]);
    assert_eq!(kind, UsageKind::UnknownOption);
    assert_eq!(arg, "v4");
}

#[test]
fn missing_values_are_errors() {
    assert_eq!(expect_error(&["--type"]).0, UsageKind::MissingValue);
    assert_eq!(expect_error(&["-c"]).0, UsageKind::MissingValue);
    assert_eq!(expect_error(&["--format"]).0, UsageKind::MissingValue);
}

#[test]
fn invalid_type_value() {
    let (kind, arg) = expect_error(&["--type", "v5"]);
    assert_eq!(kind, UsageKind::InvalidType);
    assert_eq!(arg, "v5");
}

#[test]
fn invalid_count_values() {
    assert_eq!(expect_error(&["--count", "three"]).0, UsageKind::InvalidCount);
    assert_eq!(expect_error(&["--count", ""]).0, UsageKind::InvalidCount);
    assert_eq!(expect_error(&["--count", "-1"]).0, UsageKind::InvalidCount);
    assert_eq!(expect_error(&["--count", "1x"]).0, UsageKind::InvalidCount);
    // far beyond what a machine word holds
    assert_eq!(expect_error(&["--count", "99999999999999999999999999"]).0, UsageKind::InvalidCount);
}

#[test]
fn invalid_format_value() {
    let (kind, arg) = expect_error(&["--format", "nosuchformat"]);
    assert_eq!(kind, UsageKind::InvalidFormat);
    assert_eq!(arg, "nosuchformat");
}

#[test]
fn error_comes_before_later_options() {
    // parsing stops at the first offending argument
    let (kind, arg) = expect_error(&["--type", "v9", "--count", "2"]);
    assert_eq!(kind, UsageKind::InvalidType);
    assert_eq!(arg, "v9");
}

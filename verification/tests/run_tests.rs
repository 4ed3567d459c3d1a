use uuidgen::config::{Config, OutputFormat, UuidType};
use uuidgen::run::run;

fn cfg(t: UuidType, count: usize, f: OutputFormat, quiet: bool) -> Config {
    Config { uuid_type: t, count, format: f, quiet }
}

fn is_lower_dash_uuid(s: &str) -> bool {
    s.len() == 36
        && s.chars().enumerate().all(|(i, c)| {
            if i == 8 || i == 13 || i == 18 || i == 23 {
                c == '-'
            } else {
                c.is_ascii_digit() || ('a'..='f').contains(&c)
            }
        })
}

#[test]
fn scenario_three_quiet_lower_dash() {
    let (lines, err) = run(&cfg(UuidType::V4, 3, OutputFormat::LowerDash, true));
    assert!(err.is_none());
    assert_eq!(lines.len(), 3);
    for l in &lines {
        assert!(is_lower_dash_uuid(l), "not a lowercase dashed UUID: {l:?}");
    }
}

#[test]
fn scenario_one_v7_all_verbose() {
    let (lines, err) = run(&cfg(UuidType::V7, 1, OutputFormat::All, false));
    assert!(err.is_none());
    assert_eq!(lines.len(), 6);
    assert_eq!(lines[0], "UUIDv7");
    assert_eq!(lines[1], "");
    assert!(lines[2].starts_with("lower-dash:   "));
    assert!(lines[3].starts_with("UPPER-dash:   "));
    assert!(lines[4].starts_with("lower-nodash: "));
    assert!(lines[5].starts_with("UPPER-nodash: "));
    assert!(is_lower_dash_uuid(&lines[2]["lower-dash:   ".len()..]));
}

#[test]
fn scenario_count_zero_prints_nothing() {
    for t in [UuidType::V4, UuidType::V7] {
        for quiet in [false, true] {
            let (lines, err) = run(&cfg(t, 0, OutputFormat::All, quiet));
            assert!(err.is_none());
            assert!(lines.is_empty());
        }
    }
}

#[test]
fn line_count_equals_count_in_quiet_mode() {
    for n in [0usize, 1, 2, 7] {
        let (lines, err) = run(&cfg(UuidType::V4, n, OutputFormat::UpperNoDash, true));
        assert!(err.is_none());
        assert_eq!(lines.len(), n);
    }
}

#[test]
fn line_count_in_verbose_mode() {
    // per identifier: header, blank, data lines; one blank between blocks
    let (lines, err) = run(&cfg(UuidType::V4, 2, OutputFormat::All, false));
    assert!(err.is_none());
    assert_eq!(lines.len(), 2 * 6 + 1);
    assert_eq!(lines[6], "", "blocks are separated by a blank line");
    assert_eq!(lines[7], "UUIDv4");

    let (lines, err) = run(&cfg(UuidType::V7, 3, OutputFormat::LowerNoDash, false));
    assert!(err.is_none());
    assert_eq!(lines.len(), 3 * 3 + 2);
}

#[test]
fn quiet_all_emits_the_lower_dash_form_for_every_type() {
    for t in [UuidType::V4, UuidType::V7] {
        let (lines, err) = run(&cfg(t, 4, OutputFormat::All, true));
        assert!(err.is_none());
        assert_eq!(lines.len(), 4);
        for l in &lines {
            assert!(is_lower_dash_uuid(l), "quiet all must print lower-dash: {l:?}");
        }
    }
}

#[test]
fn verbose_single_format_has_no_foreign_lines() {
    let (lines, err) = run(&cfg(UuidType::V4, 1, OutputFormat::UpperDash, false));
    assert!(err.is_none());
    assert_eq!(lines.len(), 3);
    assert_eq!(lines[0], "UUIDv4");
    assert_eq!(lines[1], "");
    assert!(lines[2].starts_with("UPPER-dash: "));
    // exactly one data line, and it is not blank
    assert!(!lines[2].is_empty());
}

#[test]
fn no_trailing_separator_after_the_last_block() {
    let (lines, err) = run(&cfg(UuidType::V4, 2, OutputFormat::LowerDash, false));
    assert!(err.is_none());
    assert_ne!(lines.last().unwrap(), "");
}

#[test]
fn v7_quiet_values_are_time_ordered_lines() {
    let (lines, err) = run(&cfg(UuidType::V7, 5, OutputFormat::LowerDash, true));
    assert!(err.is_none());
    assert_eq!(lines.len(), 5);
    // the millisecond prefixes are non-decreasing within one run
    let prefixes: Vec<String> = lines.iter().map(|l| l[..13].to_string()).collect();
    let mut sorted = prefixes.clone();
    sorted.sort();
    assert_eq!(prefixes, sorted);
}

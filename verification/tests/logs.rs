use opengoose::logs::{clean_report, format_bytes, parse_duration_days, DurationError};

#[test]
fn parse_duration_days_with_suffix() {
    assert_eq!(parse_duration_days("7d").expect("parse_duration_days should succeed"), 7);
}

#[test]
fn parse_duration_days_plain_days() {
    assert_eq!(parse_duration_days("30").expect("parse_duration_days should succeed"), 30);
}

#[test]
fn parse_duration_days_invalid_format() {
    assert!(parse_duration_days("abc").is_err());
    assert!(parse_duration_days("1w").is_err());
}

#[test]
fn format_bytes_transitions() {
    assert_eq!(format_bytes(512), "512B");
    assert_eq!(format_bytes(1536), "1.5KB");
    assert_eq!(format_bytes(2 * 1024 * 1024), "2.0MB");
}

#[test]
fn parse_duration_days_invalid_d_suffix() {
    assert!(parse_duration_days("xd").is_err());
}

#[test]
fn format_bytes_exact_boundaries() {
    assert_eq!(format_bytes(0), "0B");
    assert_eq!(format_bytes(1023), "1023B");
    assert_eq!(format_bytes(1024), "1.0KB");
    assert_eq!(format_bytes(1024 * 1024 - 1), "1024.0KB");
    assert_eq!(format_bytes(1024 * 1024), "1.0MB");
}

#[test]
fn parse_duration_days_trims_and_reports_errors() {
    assert_eq!(parse_duration_days("  14d \n").unwrap(), 14);
    match parse_duration_days("xd") {
        Err(e @ DurationError::InvalidDuration(_)) => {
            assert_eq!(e.message(), "invalid duration: xd")
        }
        other => panic!("unexpected {other:?}"),
    }
    match parse_duration_days(" 1w ") {
        Err(e @ DurationError::InvalidFormat(_)) => {
            assert_eq!(e.message(), "invalid duration format: 1w (expected e.g. 7d or 30d)")
        }
        other => panic!("unexpected {other:?}"),
    }
    assert!(parse_duration_days("").is_err());
    assert!(parse_duration_days("d").is_err());
    assert!(parse_duration_days("-3d").is_err());
    assert_eq!(parse_duration_days("18446744073709551615").unwrap(), u64::MAX);
    assert!(parse_duration_days("18446744073709551616").is_err());
}

/// `format_bytes` gives exactly what formatting the quotient as a float
/// with one decimal gives.
#[test]
fn format_bytes_matches_float_formatting() {
    let mut samples: Vec<u64> = (0..5000u64).collect();
    for k in 0..4000u64 {
        samples.push(1024 * 1024 - 2000 + k);
        samples.push(k * 52_429 + 7);
        samples.push(k * 1_048_576 / 20);
        samples.push(k * 104_857 + 1_048_576);
    }
    samples.extend([u64::MAX, u64::MAX - 1, 1u64 << 53, (1u64 << 53) + 1, 1u64 << 63, 12_345_678_901_234]);
    for b in samples {
        let expected = if b < 1024 {
            format!("{b}B")
        } else if b < 1024 * 1024 {
            format!("{:.1}KB", b as f64 / 1024.0)
        } else {
            format!("{:.1}MB", b as f64 / (1024.0 * 1024.0))
        };
        assert_eq!(format_bytes(b), expected, "bytes = {b}");
    }
}

#[test]
fn clean_report_lines() {
    assert_eq!(clean_report(7, 3, 0), vec!["Removed 3 log(s) older than 7 days.".to_string()]);
    assert_eq!(
        clean_report(30, 0, 2),
        vec![
            "Removed 0 log(s) older than 30 days.".to_string(),
            "Removed 2 additional log(s) over 100MB capacity.".to_string()
        ]
    );
}

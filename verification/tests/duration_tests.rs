use fs_mcp::duration::{format_duration, parse_duration, SleepServerError};
use std::time::Duration;

fn pd(s: &str) -> Result<u64, SleepServerError> {
    parse_duration(&s.as_bytes().to_vec())
}

fn fd(ms: u64) -> String {
    String::from_utf8(format_duration(ms)).unwrap()
}

#[test]
fn test_parse_duration_seconds() {
    assert_eq!(pd("5s").unwrap(), Duration::from_secs(5).as_millis() as u64);
    assert_eq!(pd("1.5s").unwrap(), Duration::from_millis(1500).as_millis() as u64);
    assert_eq!(pd("0.1s").unwrap(), Duration::from_millis(100).as_millis() as u64);
}

#[test]
fn test_parse_duration_milliseconds() {
    assert_eq!(pd("500ms").unwrap(), Duration::from_millis(500).as_millis() as u64);
    assert_eq!(pd("1000ms").unwrap(), Duration::from_secs(1).as_millis() as u64);
}

#[test]
fn test_parse_duration_minutes() {
    assert_eq!(pd("2m").unwrap(), Duration::from_secs(120).as_millis() as u64);
    assert_eq!(pd("1.5m").unwrap(), Duration::from_secs(90).as_millis() as u64);
}

#[test]
fn test_parse_duration_hours() {
    // hours that stay within the 30-minute limit
    assert_eq!(pd("0.25h").unwrap(), Duration::from_secs(900).as_millis() as u64);
    assert_eq!(pd("0.5h").unwrap(), Duration::from_secs(1800).as_millis() as u64);
}

#[test]
fn test_parse_duration_invalid() {
    assert!(pd("invalid").is_err());
    assert!(pd("").is_err());
    assert!(pd("5").is_err());
    assert!(pd("-1s").is_err());
}

#[test]
fn test_parse_duration_too_long() {
    // durations longer than 30 minutes
    assert!(pd("31m").is_err());
    assert!(pd("1h").is_err());
}

#[test]
fn test_format_duration() {
    assert_eq!(fd(0), "0ms");
    assert_eq!(fd(500), "500ms");
    assert_eq!(fd(5000), "5s");
    assert_eq!(fd(1500), "1.500s");
    assert_eq!(fd(90000), "1m 30s");
    assert_eq!(fd(3665000), "1h 1m 5s");
}

#[test]
fn test_parse_duration_error_kinds() {
    match pd("1h") {
        Err(SleepServerError::DurationTooLong { duration, max_duration }) => {
            assert_eq!(duration, "1h".as_bytes().to_vec());
            assert_eq!(max_duration, "30m".as_bytes().to_vec());
        }
        other => panic!("expected DurationTooLong, got {:?}", other.is_ok()),
    }
    match pd("oops") {
        Err(SleepServerError::InvalidDuration { duration }) => {
            assert_eq!(duration, "oops".as_bytes().to_vec());
        }
        other => panic!("expected InvalidDuration, got {:?}", other.is_ok()),
    }
}

#[test]
fn test_parse_duration_trims_and_caps() {
    assert_eq!(pd("  250ms  ").unwrap(), 250);
    assert_eq!(pd("30m").unwrap(), 1_800_000);
    assert!(pd("1800001ms").is_err());
    assert_eq!(pd("+2s").unwrap(), 2000);
    assert_eq!(pd("1.2345s").unwrap(), 1234);
    assert_eq!(pd("0.5MS").unwrap(), 0);
}

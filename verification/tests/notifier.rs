use std::time::Duration;

use tickers::config::ServiceConfig;
use tickers::notify::{format_down, format_recovery, humanize};

fn sample_service() -> ServiceConfig {
    ServiceConfig {
        id: "example".into(),
        name: "Example Service".into(),
        url: "https://api.example.com/health".into(),
        expected_status: 200,
        check_interval: None,
        timeout: None,
        expected_body: None,
    }
}

#[test]
fn humanize_formats() {
    assert_eq!(humanize(Duration::from_secs(0).as_secs()), "0s");
    assert_eq!(humanize(Duration::from_secs(45).as_secs()), "45s");
    assert_eq!(humanize(Duration::from_secs(4 * 60 + 12).as_secs()), "4m 12s");
    assert_eq!(humanize(Duration::from_secs(3600 + 3 * 60).as_secs()), "1h 3m");
}

#[test]
fn down_message_matches_format() {
    let msg = format_down(
        &sample_service(),
        Some("Timeout after 10000ms"),
        "2026-06-03 14:32 UTC",
    );
    assert_eq!(
        msg,
        "🔴 Example Service is DOWN\n\
         https://api.example.com/health\n\
         Timeout after 10000ms\n\
         2026-06-03 14:32 UTC"
    );
}

#[test]
fn down_message_falls_back_without_error() {
    let msg = format_down(&sample_service(), None, "2026-06-03 14:32 UTC");
    assert!(msg.contains("Check failed"));
}

#[test]
fn recovery_message_with_duration() {
    let msg = format_recovery(
        &sample_service(),
        Some(Duration::from_secs(4 * 60 + 12).as_secs()),
        "2026-06-03 14:36 UTC",
    );
    assert_eq!(
        msg,
        "✅ Example Service recovered\n\
         was down for 4m 12s\n\
         2026-06-03 14:36 UTC"
    );
}

#[test]
fn recovery_message_omits_unknown_duration() {
    let msg = format_recovery(&sample_service(), None, "2026-06-03 14:36 UTC");
    assert_eq!(
        msg,
        "✅ Example Service recovered\n2026-06-03 14:36 UTC"
    );
}

#[test]
fn humanize_hours_drop_seconds() {
    assert_eq!(humanize(2 * 3600 + 59), "2h 0m");
    assert_eq!(humanize(59), "59s");
    assert_eq!(humanize(60), "1m 0s");
    assert_eq!(humanize(25 * 3600 + 61), "25h 1m");
}

#[test]
fn down_message_without_error_is_exact() {
    let msg = format_down(&sample_service(), None, "t");
    assert_eq!(
        msg,
        "🔴 Example Service is DOWN\nhttps://api.example.com/health\nCheck failed\nt"
    );
}

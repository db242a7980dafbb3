use tickers::display::{
    card_header, format_timestamp, gray_slot_count, overall_banner, short_error_label,
};
use tickers::status::ServiceStatus;

#[test]
fn chip_for_status_mismatch() {
    assert_eq!(short_error_label("Expected status 200, got 503"), "HTTP 503");
    assert_eq!(short_error_label("  Expected status 200, got 404.  "), "HTTP 404");
    assert_eq!(short_error_label("Expected status 200, got +7"), "HTTP +7");
    assert_eq!(short_error_label("Expected status 200, got 70000"), "HTTP error");
    assert_eq!(short_error_label("Expected status 200, got nothing"), "HTTP error");
    assert_eq!(short_error_label("Expected status 200"), "HTTP error");
    assert_eq!(short_error_label("Expected status got 1 got 2"), "HTTP 2");
}

#[test]
fn chip_for_other_messages() {
    assert_eq!(short_error_label(""), "Error");
    assert_eq!(short_error_label("   \t"), "Error");
    assert_eq!(short_error_label("Body did not contain 'ok'"), "Body mismatch");
    assert_eq!(short_error_label("Body did not match regex '^a'"), "Body mismatch");
    assert_eq!(short_error_label("Invalid regex: unclosed group"), "Config error");
    assert_eq!(short_error_label("Timeout after 10000ms"), "Timeout");
    assert_eq!(short_error_label("Connection timed out — os error 110"), "Timeout");
    assert_eq!(short_error_label("Connection refused (os error 111)"), "Refused");
    assert_eq!(short_error_label("Connection reset by peer"), "Conn reset");
    assert_eq!(short_error_label("Connection aborted"), "Aborted");
    assert_eq!(short_error_label("DNS resolution failed: no such host"), "DNS error");
    assert_eq!(short_error_label("Network unreachable — x"), "Unreachable");
    assert_eq!(short_error_label("Host unreachable — x"), "Unreachable");
    assert_eq!(short_error_label("TLS error: bad certificate"), "TLS error");
    assert_eq!(short_error_label("Connection failed: whatever"), "Connection failed");
    assert_eq!(short_error_label("Request failed: builder error"), "Request failed");
    assert_eq!(short_error_label("No check results yet"), "Pending");
    assert_eq!(short_error_label("something odd"), "Error");
    assert_eq!(short_error_label("\u{3000}Timeout after 1ms\u{2003}"), "Timeout");
}

#[test]
fn banner_for_each_verdict() {
    let b = overall_banner("all_operational");
    assert_eq!((b.label, b.class, b.icon), ("All Systems Operational", "banner banner-operational", "\u{2713}"));
    let b = overall_banner("partial_outage");
    assert_eq!((b.label, b.class, b.icon), ("Partial System Outage", "banner banner-partial", "\u{2717}"));
    let b = overall_banner("major_outage");
    assert_eq!((b.label, b.class, b.icon), ("Major System Outage", "banner banner-major", "\u{2717}"));
    let b = overall_banner("weird");
    assert_eq!((b.label, b.class, b.icon), ("Unknown Status", "banner", "\u{2717}"));
}

fn status(is_up: bool, ms: i64, err: Option<&str>) -> ServiceStatus {
    ServiceStatus {
        id: "a".into(),
        name: "A".into(),
        url: "https://a.example".into(),
        is_up,
        status_code: Some(200),
        response_time_ms: ms,
        error_message: err.map(|e| e.to_string()),
        last_checked: 0,
    }
}

#[test]
fn card_header_fields() {
    let h = card_header(&status(true, 123, None));
    assert_eq!(h.status_class, "status-indicator up");
    assert_eq!(h.status_symbol, "\u{2713}");
    assert_eq!(h.response_time, "123ms");
    assert!(h.error.is_none());

    let h = card_header(&status(false, -5, Some("  Timeout after 10000ms \n")));
    assert_eq!(h.status_class, "status-indicator down");
    assert_eq!(h.status_symbol, "\u{2717}");
    assert_eq!(h.response_time, "-5ms");
    assert_eq!(h.error, Some(("Timeout".to_string(), "Timeout after 10000ms".to_string())));

    let h = card_header(&status(false, 0, Some("   ")));
    assert!(h.error.is_none());
}

#[test]
fn bucket_timestamps() {
    assert_eq!(format_timestamp("2024-03-05T09:00:00Z", true), "Mar 05 UTC");
    assert_eq!(
        format_timestamp("2024-03-05T09:00:00Z", false),
        "Mar 05, 09:00 \u{2013} 10:00 UTC"
    );
    assert_eq!(
        format_timestamp("2024-12-31T23:30:00Z", false),
        "Dec 31, 23:30 \u{2013} 00:30 UTC"
    );
    assert_eq!(format_timestamp("2024-07-14", true), "Jul 14 UTC");
    assert_eq!(format_timestamp("2024-07-14", false), "2024-07-14");
    assert_eq!(format_timestamp("garbage", true), "garbage");
}

#[test]
fn gray_slots_fill_the_bar() {
    assert_eq!(gray_slot_count(24, 20), 4);
    assert_eq!(gray_slot_count(24, 24), 0);
    assert_eq!(gray_slot_count(30, 40), 0);
}

#[test]
fn history_for_a_service_is_the_first_with_its_id() {
    let ids: Vec<String> = ["a", "b", "a"].iter().map(|s| s.to_string()).collect();
    assert_eq!(tickers::display::history_index(&ids, &"a".to_string()), Some(0));
    assert_eq!(tickers::display::history_index(&ids, &"b".to_string()), Some(1));
    assert_eq!(tickers::display::history_index(&ids, &"c".to_string()), None);
}

use tickers::check::{
    describe_connect_error, describe_connect_error_lowered, failure_outcome, io_error_kind,
    judge_body, judge_response, root_cause, status_mismatch_message, BodyExpectation, IoErrorKind,
    RequestFailure, ResponseStep,
};

#[test]
fn wrong_status_is_down() {
    match judge_response(200, 503, Ok(None)) {
        ResponseStep::Record(o) => {
            assert!(!o.is_up);
            assert_eq!(o.status_code, Some(503));
            assert_eq!(o.error_message.as_deref(), Some("Expected status 200, got 503"));
        }
        _ => panic!("expected a recorded outcome"),
    }
    assert_eq!(status_mismatch_message(0, 65535), "Expected status 0, got 65535");
}

#[test]
fn right_status_without_expectation_is_up() {
    match judge_response(204, 204, Ok(None)) {
        ResponseStep::Record(o) => {
            assert!(o.is_up);
            assert_eq!(o.status_code, Some(204));
            assert!(o.error_message.is_none());
        }
        _ => panic!("expected a recorded outcome"),
    }
}

#[test]
fn invalid_pattern_is_down() {
    match judge_response(200, 200, Err("unclosed group".to_string())) {
        ResponseStep::Record(o) => {
            assert!(!o.is_up);
            assert_eq!(o.error_message.as_deref(), Some("Invalid regex: unclosed group"));
        }
        _ => panic!("expected a recorded outcome"),
    }
}

#[test]
fn expectation_asks_for_the_body() {
    match judge_response(200, 200, Ok(Some(BodyExpectation::Contains("ok".into())))) {
        ResponseStep::ReadBody(BodyExpectation::Contains(s)) => assert_eq!(s, "ok"),
        _ => panic!("expected a body read"),
    }
}

#[test]
fn body_checks() {
    let exp = BodyExpectation::Contains("\"status\":\"ok\"".into());
    let o = judge_body(200, &exp, "{\"status\":\"ok\"}", false);
    assert!(o.is_up);
    assert!(o.error_message.is_none());
    let o = judge_body(200, &exp, "{\"status\":\"down\"}", false);
    assert!(!o.is_up);
    assert_eq!(o.status_code, Some(200));
    assert_eq!(o.error_message.as_deref(), Some("Body did not contain '\"status\":\"ok\"'"));
    let o = judge_body(200, &BodyExpectation::Contains(String::new()), "", false);
    assert!(o.is_up);

    let re = BodyExpectation::Regex("^ok$".into());
    assert!(judge_body(200, &re, "ok", true).is_up);
    let o = judge_body(200, &re, "nope", false);
    assert_eq!(o.error_message.as_deref(), Some("Body did not match regex '^ok$'"));
}

#[test]
fn connect_errors_are_described() {
    assert_eq!(
        describe_connect_error("invalid peer certificate: UnknownIssuer", None),
        "TLS error: invalid peer certificate: UnknownIssuer"
    );
    assert_eq!(
        describe_connect_error("failed to lookup address information", Some(IoErrorKind::Other)),
        "DNS resolution failed: failed to lookup address information"
    );
    assert_eq!(
        describe_connect_error("Connection refused (os error 111)", Some(IoErrorKind::ConnectionRefused)),
        "Connection refused (os error 111)"
    );
    assert_eq!(
        describe_connect_error("os error 113", Some(IoErrorKind::HostUnreachable)),
        "Host unreachable \u{2014} os error 113"
    );
    assert_eq!(
        describe_connect_error("something", Some(IoErrorKind::Other)),
        "Connection failed: something"
    );
    assert_eq!(describe_connect_error("something", None), "Connection failed: something");
    assert_eq!(
        describe_connect_error_lowered("X", "connection reset by peer", Some(IoErrorKind::ConnectionReset)),
        "Connection reset \u{2014} X"
    );
    assert_eq!(
        describe_connect_error_lowered("Handshake", "handshake", Some(IoErrorKind::TimedOut)),
        "TLS error: Handshake"
    );
}

#[test]
fn failures_are_down_without_status() {
    let o = failure_outcome(&RequestFailure::Timeout, 10);
    assert!(!o.is_up);
    assert!(o.status_code.is_none());
    assert_eq!(o.error_message.as_deref(), Some("Timeout after 10000ms"));

    let o = failure_outcome(&RequestFailure::Other { cause: "builder error".into() }, 10);
    assert_eq!(o.error_message.as_deref(), Some("Request failed: builder error"));

    let o = failure_outcome(
        &RequestFailure::Connect {
            cause: "Connection timed out (os error 110)".into(),
            io_kind: Some(IoErrorKind::TimedOut),
        },
        10,
    );
    assert_eq!(o.error_message.as_deref(), Some("Connection timed out (os error 110)"));

    let o = failure_outcome(&RequestFailure::Timeout, u64::MAX);
    assert_eq!(
        o.error_message.as_deref(),
        Some("Timeout after 18446744073709551615000ms")
    );
}

#[test]
fn error_chains() {
    let chain = vec!["outer".to_string(), "middle".to_string(), "Connection refused".to_string()];
    assert_eq!(root_cause(&chain), "Connection refused");
    assert_eq!(root_cause(&chain[..1]), "outer");
    assert_eq!(
        io_error_kind(&[None, Some(IoErrorKind::ConnectionReset), Some(IoErrorKind::TimedOut)]),
        Some(IoErrorKind::ConnectionReset)
    );
    assert_eq!(io_error_kind(&[None, None]), None);
    assert_eq!(io_error_kind(&[]), None);
}

#[test]
fn connect_error_words_are_matched_in_any_case() {
    assert_eq!(
        describe_connect_error("TLS Handshake EOF", None),
        "TLS error: TLS Handshake EOF"
    );
    assert_eq!(
        describe_connect_error("No Such Host is known", Some(IoErrorKind::Other)),
        "DNS resolution failed: No Such Host is known"
    );
    assert_eq!(
        describe_connect_error("CONNECTION REFUSED by server", Some(IoErrorKind::ConnectionRefused)),
        "Connection refused \u{2014} CONNECTION REFUSED by server"
    );
    assert_eq!(
        describe_connect_error("os error 104", Some(IoErrorKind::ConnectionReset)),
        "Connection reset \u{2014} os error 104"
    );
}

#[test]
fn connect_messages_keep_the_chip_label() {
    let m = describe_connect_error("connection refused", Some(IoErrorKind::ConnectionRefused));
    assert_eq!(m, "Connection refused \u{2014} connection refused");
    assert_eq!(tickers::display::short_error_label(&m), "Refused");
    let m = describe_connect_error("Connection aborted by peer", Some(IoErrorKind::ConnectionAborted));
    assert_eq!(m, "Connection aborted by peer");
    assert_eq!(tickers::display::short_error_label(&m), "Aborted");
}

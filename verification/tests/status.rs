use tickers::config::ServiceConfig;
use tickers::status::{
    build_status_response, compute_overall_status, group_history_buckets, CheckResult,
    OverallStatus, ServiceStatus,
};

fn service(id: &str) -> ServiceConfig {
    ServiceConfig {
        id: id.into(),
        name: format!("Service {id}"),
        url: format!("https://{id}.example"),
        expected_status: 200,
        check_interval: None,
        timeout: None,
        expected_body: None,
    }
}

fn result(id: &str, up: bool, at: i64) -> CheckResult {
    CheckResult {
        service_id: id.into(),
        is_up: up,
        status_code: if up { Some(200) } else { None },
        response_time_ms: 42,
        error_message: if up { None } else { Some("Timeout after 10000ms".into()) },
        checked_at: at,
    }
}

fn st(up: bool) -> ServiceStatus {
    ServiceStatus {
        id: "x".into(),
        name: "x".into(),
        url: "x".into(),
        is_up: up,
        status_code: None,
        response_time_ms: 0,
        error_message: None,
        last_checked: 0,
    }
}

#[test]
fn overall_status_verdicts() {
    assert_eq!(compute_overall_status(&[]), OverallStatus::AllOperational);
    assert_eq!(compute_overall_status(&[st(true), st(true)]), OverallStatus::AllOperational);
    assert_eq!(compute_overall_status(&[st(true), st(false)]), OverallStatus::PartialOutage);
    assert_eq!(compute_overall_status(&[st(false), st(false)]), OverallStatus::MajorOutage);
    assert_eq!(OverallStatus::AllOperational.as_str(), "all_operational");
    assert_eq!(OverallStatus::PartialOutage.as_str(), "partial_outage");
    assert_eq!(OverallStatus::MajorOutage.as_str(), "major_outage");
}

#[test]
fn status_response_merges_latest_results() {
    let services = vec![service("a"), service("b"), service("c")];
    let latest = vec![result("a", true, 100), result("c", true, 50), result("c", false, 60), result("zz", true, 1)];
    let r = build_status_response(&services, &latest, 999);
    assert_eq!(r.generated_at, 999);
    assert_eq!(r.services.len(), 3);
    assert_eq!(r.services[0].id, "a");
    assert!(r.services[0].is_up);
    assert_eq!(r.services[0].last_checked, 100);
    assert_eq!(r.services[1].id, "b");
    assert!(!r.services[1].is_up);
    assert_eq!(r.services[1].status_code, None);
    assert_eq!(r.services[1].response_time_ms, 0);
    assert_eq!(r.services[1].error_message.as_deref(), Some("No check results yet"));
    assert_eq!(r.services[1].last_checked, 999);
    assert_eq!(r.services[1].name, "Service b");
    assert_eq!(r.services[1].url, "https://b.example");
    assert!(!r.services[2].is_up);
    assert_eq!(r.services[2].last_checked, 60);
    assert_eq!(r.overall_status, OverallStatus::PartialOutage);

    let empty = build_status_response(&vec![], &latest, 5);
    assert!(empty.services.is_empty());
    assert_eq!(empty.overall_status, OverallStatus::AllOperational);
}

#[test]
fn history_buckets_grouped_by_service() {
    let services = vec![service("a"), service("b"), service("a"), service("d")];
    let ids: Vec<String> = ["b", "a", "b", "x", "a"].iter().map(|s| s.to_string()).collect();
    let g = group_history_buckets(&services, &ids);
    assert_eq!(g, vec![vec![1, 4], vec![0, 2], vec![], vec![]]);
}

//! Health checks.

use varde::check::{
    came_through, check_once, describe_error, record_check, Reply, CHECK_TIMEOUT_SECONDS,
};
use varde::config::{Config, ServiceConfig};
use varde::schedule::parse;
use varde::state::{AppState, ServiceStatus};
use varde::time::Timestamp;

fn service(ok_status_code: u16) -> ServiceConfig {
    ServiceConfig {
        service: "svc".to_string(),
        schedule: parse("every 1 second").unwrap(),
        url: "http://localhost:1".to_string(),
        ok_status_code,
    }
}

fn now() -> Timestamp {
    Timestamp::from_second(1_784_376_000).unwrap()
}

fn answered(status: u16, ok_status_code: u16) -> ServiceStatus {
    check_once(&service(ok_status_code), &Reply::Answered { status }, 87, now())
}

fn failed(causes: &[&str]) -> ServiceStatus {
    let causes = causes.iter().map(|cause| cause.to_string()).collect();
    check_once(&service(200), &Reply::Failed { causes }, 87, now())
}

#[test]
fn matching_status_is_up_with_latency() {
    let status = answered(200, 200);
    assert!(status.ok);
    assert_eq!(status.latency_ms, Some(87));
    assert_eq!(status.last_checked, now());
    assert_eq!(status.error, None);
}

#[test]
fn wrong_status_is_down_with_latency() {
    let status = answered(500, 200);
    assert!(!status.ok);
    assert_eq!(status.latency_ms, Some(87));
    assert_eq!(
        status.error.as_deref(),
        Some("unexpected status 500 (want 200)")
    );
}

#[test]
fn redirect_is_compared_as_is() {
    assert!(answered(301, 301).ok, "301 matches okStatusCode 301");
    let status = answered(301, 200);
    assert!(!status.ok, "301 does not match okStatusCode 200");
    assert!(status.latency_ms.is_some());
}

#[test]
fn transport_error_is_down_without_latency() {
    let status = failed(&["error sending request", "client error", "tcp connect error"]);
    assert!(!status.ok);
    assert_eq!(status.latency_ms, None);
    assert_eq!(status.last_checked, now());
    assert_eq!(
        status.error.as_deref(),
        Some("error sending request: client error: tcp connect error")
    );
}

#[test]
fn an_error_is_described_by_its_chain() {
    assert_eq!(describe_error(&vec!["alone".to_string()]), "alone");
    assert_eq!(
        describe_error(&vec!["outer".to_string(), "inner".to_string()]),
        "outer: inner"
    );
}

#[test]
fn only_2xx_comes_through() {
    assert!(came_through(Some(200)));
    assert!(came_through(Some(204)));
    assert!(came_through(Some(299)));
    for status in [100, 199, 300, 301, 404, 500] {
        assert!(!came_through(Some(status)), "{status}");
    }
    assert!(!came_through(None));
}

#[test]
fn checks_write_the_state_and_tell_transitions() {
    let svc = service(200);
    let mut state = AppState::new(&Config {
        services: vec![service(200)],
        heartbeat: None,
        notify: vec![],
    });
    // The first result is a transition, whatever it is.
    assert!(record_check(&mut state, &svc, &answered(200, 200)));
    assert!(state.snapshot()[0].1.as_ref().unwrap().ok);
    assert!(!record_check(&mut state, &svc, &answered(200, 200)));
    assert!(record_check(&mut state, &svc, &answered(500, 200)));
    assert_eq!(state.snapshot()[0].1, Some(answered(500, 200)));
    assert!(!record_check(&mut state, &svc, &failed(&["timed out"])));
    assert!(record_check(&mut state, &svc, &answered(200, 200)));
}

#[test]
fn the_timeout_is_ten_seconds() {
    assert_eq!(CHECK_TIMEOUT_SECONDS, 10);
}

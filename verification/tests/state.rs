//! The latest result per service.

use varde::config::{Config, ServiceConfig};
use varde::notify::failing_services;
use varde::schedule::parse;
use varde::state::{AppState, ServiceStatus};
use varde::time::Timestamp;

fn ts(s: &str) -> Timestamp {
    let parsed: jiff::Timestamp = s.parse().unwrap();
    Timestamp::from_nanosecond(parsed.as_nanosecond()).unwrap()
}

fn test_config(names: &[&str]) -> Config {
    Config {
        services: names
            .iter()
            .map(|name| ServiceConfig {
                service: name.to_string(),
                schedule: parse("every 1 minute").unwrap(),
                url: "http://localhost:1".to_string(),
                ok_status_code: 200,
            })
            .collect(),
        heartbeat: None,
        notify: vec![],
    }
}

fn status(ok: bool) -> ServiceStatus {
    ServiceStatus {
        ok,
        last_checked: ts("2026-07-18T12:00:00Z"),
        latency_ms: Some(42),
        error: None,
    }
}

#[test]
fn snapshot_preserves_config_order_with_none_for_unchecked() {
    let mut state = AppState::new(&test_config(&["b", "a", "c"]));
    state.record("a", status(true));
    let snapshot = state.snapshot();
    assert_eq!(
        snapshot,
        vec![
            ("b".to_string(), None),
            ("a".to_string(), Some(status(true))),
            ("c".to_string(), None),
        ]
    );
}

#[test]
fn record_overwrites_and_returns_previous() {
    let mut state = AppState::new(&test_config(&["a"]));
    assert_eq!(state.record("a", status(true)), None);
    assert_eq!(state.record("a", status(false)), Some(status(true)));
    assert_eq!(state.snapshot()[0].1, Some(status(false)));
}

#[test]
fn a_result_belongs_to_its_service_alone() {
    let mut state = AppState::new(&test_config(&["a", "b"]));
    state.record("a", status(true));
    state.record("b", status(false));
    state.record("elsewhere", status(false));
    let snapshot = state.snapshot();
    assert_eq!(snapshot.len(), 2);
    assert_eq!(snapshot[0].1, Some(status(true)));
    assert_eq!(snapshot[1].1, Some(status(false)));
    assert_eq!(state.record("elsewhere", status(true)), Some(status(false)));
}

#[test]
fn failing_services_come_in_order_and_unchecked_ones_do_not_count() {
    let mut state = AppState::new(&test_config(&["d", "c", "b", "a"]));
    assert!(failing_services(&state.snapshot()).is_empty());
    state.record("a", status(false));
    state.record("d", status(false));
    state.record("c", status(true));
    assert_eq!(failing_services(&state.snapshot()), vec!["d", "a"]);
}

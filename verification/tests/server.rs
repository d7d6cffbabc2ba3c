//! The status endpoint.

use varde::config::{Config, ServiceConfig};
use varde::schedule::parse;
use varde::server::{
    resolve_port, status_handler, status_response, Answer, ServiceEntry, StatusResponse,
    DEFAULT_PORT,
};
use varde::state::{AppState, ServiceStatus};
use varde::time::Timestamp;

fn ts(s: &str) -> Timestamp {
    let parsed: jiff::Timestamp = s.parse().unwrap();
    Timestamp::from_nanosecond(parsed.as_nanosecond()).unwrap()
}

fn state_with(names: &[&str]) -> AppState {
    AppState::new(&Config {
        services: names
            .iter()
            .map(|name| ServiceConfig {
                service: name.to_string(),
                schedule: parse("every 1 minute").unwrap(),
                url: "http://localhost:1".to_string(),
                ok_status_code: 200,
            })
            .collect(),
        heartbeat: None,
        notify: vec![],
    })
}

fn entry(
    service: &str,
    ok: Option<bool>,
    last_checked: Option<&str>,
    latency_ms: Option<u64>,
) -> ServiceEntry {
    ServiceEntry {
        service: service.to_string(),
        ok,
        last_checked: last_checked.map(|text| text.to_string()),
        latency_ms,
    }
}

#[test]
fn empty_state_is_operational_with_null_entries() {
    let answer = status_handler("GET", "/", &state_with(&["a", "b"]));
    assert_eq!(
        answer,
        Answer {
            code: 200,
            body: Some(StatusResponse {
                operational: true,
                services: vec![entry("a", None, None, None), entry("b", None, None, None)],
            }),
        }
    );
}

#[test]
fn mixed_state_returns_500_with_exact_shape() {
    let mut state = state_with(&["up", "wrong-status", "unreachable", "not-yet"]);
    let checked = ts("2026-07-17T12:34:56.789Z");
    state.record(
        "up",
        ServiceStatus {
            ok: true,
            last_checked: checked,
            latency_ms: Some(42),
            error: None,
        },
    );
    state.record(
        "wrong-status",
        ServiceStatus {
            ok: false,
            last_checked: checked,
            latency_ms: Some(87), // down with latency: completed response
            error: Some("unexpected status 500 (want 200)".to_string()),
        },
    );
    state.record(
        "unreachable",
        ServiceStatus {
            ok: false,
            last_checked: checked,
            latency_ms: None, // down without latency: transport error
            error: Some("connection refused".to_string()),
        },
    );
    let answer = status_handler("GET", "/", &state);
    assert_eq!(
        answer,
        Answer {
            code: 500,
            body: Some(StatusResponse {
                operational: false,
                services: vec![
                    entry("up", Some(true), Some("2026-07-17T12:34:56Z"), Some(42)),
                    entry("wrong-status", Some(false), Some("2026-07-17T12:34:56Z"), Some(87)),
                    entry("unreachable", Some(false), Some("2026-07-17T12:34:56Z"), None),
                    entry("not-yet", None, None, None),
                ],
            }),
        }
    );
}

#[test]
fn all_up_returns_200() {
    let mut state = state_with(&["a"]);
    state.record(
        "a",
        ServiceStatus {
            ok: true,
            last_checked: ts("2026-07-17T00:00:00Z"),
            latency_ms: Some(1),
            error: None,
        },
    );
    let answer = status_handler("GET", "/", &state);
    assert_eq!(answer.code, 200);
    let body = answer.body.unwrap();
    assert!(body.operational);
    assert_eq!(
        body.services[0].last_checked.as_deref(),
        Some("2026-07-17T00:00:00Z")
    );
}

#[test]
fn unknown_paths_and_methods_are_404() {
    for (method, path) in [
        ("GET", "/status"),
        ("GET", "/favicon.ico"),
        ("POST", "/"),
        ("DELETE", "/"),
        ("HEAD", "/"),
        ("get", "/"),
        ("GET", ""),
        ("GET", "//"),
    ] {
        let answer = status_handler(method, path, &state_with(&[]));
        assert_eq!(answer, Answer { code: 404, body: None }, "{method} {path}");
    }
}

#[test]
fn nothing_configured_is_operational() {
    assert_eq!(
        status_response(&[]),
        StatusResponse {
            operational: true,
            services: vec![],
        }
    );
}

#[test]
fn port_resolution() {
    assert_eq!(resolve_port(None), Ok(DEFAULT_PORT));
    assert_eq!(resolve_port(Some("8080")), Ok(8080));
    assert_eq!(resolve_port(Some("65535")), Ok(65535));
    for bad in ["0", "65536", "-1", "abc", ""] {
        let err = resolve_port(Some(bad)).unwrap_err();
        assert!(err.to_string().contains(bad), "got: {}", err.to_string());
        assert!(err.to_string().contains("1..=65535"));
    }
}

#[test]
fn ports_are_read_as_integers() {
    assert_eq!(DEFAULT_PORT, 3000);
    assert_eq!(resolve_port(Some("1")), Ok(1));
    assert_eq!(resolve_port(Some("+80")), Ok(80));
    assert_eq!(resolve_port(Some("0080")), Ok(80));
    assert_eq!(
        resolve_port(Some("70000")).unwrap_err().to_string(),
        "PORT must be an integer in 1..=65535, got \"70000\""
    );
    for port in 1..=65535u16 {
        assert_eq!(resolve_port(Some(&format!("{port}"))), Ok(port));
    }
}

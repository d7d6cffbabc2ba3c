//! The dead man's switch.

use varde::config::HeartbeatConfig;
use varde::heartbeat::{
    base_url, heartbeat_outcome, heartbeat_tick, HeartbeatOutcome, DEFAULT_HC_BASE_URL,
    DEFAULT_HTTPBIN_BASE_URL,
};
use varde::schedule::parse;
use varde::state::ServiceStatus;
use varde::time::Timestamp;

const UUID: &str = "12345678-1234-1234-1234-123456789012";

fn hc_heartbeat() -> HeartbeatConfig {
    HeartbeatConfig::HealthchecksIo {
        uuid: UUID.to_string(),
        schedule: parse("every 1 minute").unwrap(),
    }
}

fn httpbin_heartbeat() -> HeartbeatConfig {
    HeartbeatConfig::Httpbin {
        schedule: parse("every 1 minute").unwrap(),
    }
}

fn entry(name: &str, ok: Option<bool>) -> (String, Option<ServiceStatus>) {
    (
        name.to_string(),
        ok.map(|ok| ServiceStatus {
            ok,
            last_checked: Timestamp::from_second(1_784_376_000).unwrap(),
            latency_ms: None,
            error: None,
        }),
    )
}

#[test]
fn all_up_pings_healthchecks_uuid_exactly_once() {
    let snapshot = vec![entry("a", Some(true)), entry("b", Some(true))];
    let ping = heartbeat_tick(&snapshot, &hc_heartbeat(), "http://mock");
    assert_eq!(ping, Some(format!("http://mock/{UUID}")));
    assert_eq!(heartbeat_outcome(&ping, Some(200)), HeartbeatOutcome::Sent);
}

#[test]
fn all_up_pings_httpbin_get() {
    let ping = heartbeat_tick(&[entry("a", Some(true))], &httpbin_heartbeat(), "http://mock");
    assert_eq!(ping.as_deref(), Some("http://mock/get"));
    assert_eq!(heartbeat_outcome(&ping, Some(200)), HeartbeatOutcome::Sent);
}

#[test]
fn any_down_sends_nothing() {
    let snapshot = vec![entry("a", Some(true)), entry("b", Some(false))];
    let ping = heartbeat_tick(&snapshot, &hc_heartbeat(), "http://mock");
    assert_eq!(ping, None);
    assert_eq!(heartbeat_outcome(&ping, None), HeartbeatOutcome::Skipped);
}

#[test]
fn empty_and_unchecked_states_are_vacuously_ok() {
    // Nothing configured, nothing checked yet.
    let ping = heartbeat_tick(&[], &hc_heartbeat(), "http://mock");
    assert_eq!(heartbeat_outcome(&ping, Some(200)), HeartbeatOutcome::Sent);
    // Unchecked services are ignored while checked ones decide.
    let snapshot = vec![entry("a", None), entry("b", Some(true))];
    let ping = heartbeat_tick(&snapshot, &hc_heartbeat(), "http://mock");
    assert_eq!(heartbeat_outcome(&ping, Some(200)), HeartbeatOutcome::Sent);
}

#[test]
fn unchecked_do_not_mask_a_down_service() {
    let snapshot = vec![entry("a", None), entry("b", Some(false))];
    let ping = heartbeat_tick(&snapshot, &hc_heartbeat(), "http://mock");
    assert_eq!(ping, None);
    assert_eq!(heartbeat_outcome(&ping, None), HeartbeatOutcome::Skipped);
}

#[test]
fn transport_failure_is_logged_not_fatal() {
    let ping = heartbeat_tick(&[], &hc_heartbeat(), "http://mock");
    assert_eq!(heartbeat_outcome(&ping, None), HeartbeatOutcome::Failed);
}

#[test]
fn non_2xx_ping_counts_as_failure() {
    let ping = heartbeat_tick(&[], &hc_heartbeat(), "http://mock");
    assert_eq!(heartbeat_outcome(&ping, Some(404)), HeartbeatOutcome::Failed);
}

#[test]
fn base_url_resolution() {
    assert_eq!(base_url(&hc_heartbeat(), None), DEFAULT_HC_BASE_URL);
    assert_eq!(
        base_url(&httpbin_heartbeat(), None),
        DEFAULT_HTTPBIN_BASE_URL
    );
    assert_eq!(
        base_url(&hc_heartbeat(), Some("http://mock".into())),
        "http://mock"
    );
}

#[test]
fn default_base_urls() {
    assert_eq!(DEFAULT_HC_BASE_URL, "https://hc-ping.com");
    assert_eq!(DEFAULT_HTTPBIN_BASE_URL, "https://httpbin.org");
}

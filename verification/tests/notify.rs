//! Notifications: messages and the state behind them.

use varde::check::came_through;
use varde::config::{Minutes, NotifyConfig, NtfyEntry, PushoverEntry, TelegramEntry};
use varde::notify::{
    base_url, env_var, format_notification_message, notify_sent, notify_tick, ntfy_request,
    recipient, test_notification, Notification, NotifyOutcome, NotifyState, NotifyStep,
    DEFAULT_NTFY_BASE_URL,
};
use varde::schedule::parse;
use varde::state::ServiceStatus;
use varde::time::Timestamp;

fn minutes(value: f64) -> Minutes {
    Minutes {
        text: format!("{value}"),
        nanoseconds: (value * 60e9).floor() as i128,
    }
}

fn ntfy(topic: &str, minutes_between: f64) -> NtfyEntry {
    NtfyEntry {
        topic: topic.to_string(),
        schedule: parse("every 1 minute").unwrap(),
        minutes_between: minutes(minutes_between),
    }
}

fn entry_with(minutes_between: f64) -> NotifyConfig {
    NotifyConfig::Ntfy(ntfy("my-topic", minutes_between))
}

fn telegram() -> NotifyConfig {
    NotifyConfig::Telegram(TelegramEntry {
        bot_token: "123:abc".to_string(),
        chat_id: "42".to_string(),
        schedule: parse("every 1 minute").unwrap(),
        minutes_between: minutes(5.0),
    })
}

fn pushover() -> NotifyConfig {
    NotifyConfig::Pushover(PushoverEntry {
        api_token: "app-tok".to_string(),
        user_key: "user-key".to_string(),
        priority: Some(1),
        schedule: parse("every 1 minute").unwrap(),
        minutes_between: minutes(5.0),
    })
}

fn snap(entries: &[(&str, Option<bool>)]) -> Vec<(String, Option<ServiceStatus>)> {
    entries
        .iter()
        .map(|(name, ok)| {
            (
                name.to_string(),
                ok.map(|ok| ServiceStatus {
                    ok,
                    last_checked: ts("2026-07-18T12:00:00Z"),
                    latency_ms: None,
                    error: None,
                }),
            )
        })
        .collect()
}

fn ts(s: &str) -> Timestamp {
    let parsed: jiff::Timestamp = s.parse().unwrap();
    Timestamp::from_nanosecond(parsed.as_nanosecond()).unwrap()
}

/// A whole tick against a server that answers with `status`, or does not answer. Gives the
/// outcome and the message that was sent, if one was.
fn tick(
    snapshot: &[(String, Option<ServiceStatus>)],
    entry: &NotifyConfig,
    state: &mut NotifyState,
    now: Timestamp,
    status: Option<u16>,
) -> (NotifyOutcome, Option<Notification>) {
    let step = notify_tick(snapshot, entry, state, now);
    let message = match &step {
        NotifyStep::Done(_) => None,
        NotifyStep::SendDown(message) | NotifyStep::SendRecovery(message) => Some(message.clone()),
    };
    let outcome = notify_sent(&step, came_through(status), state, now);
    (outcome, message)
}

fn down_message(body: &str) -> Option<Notification> {
    Some(Notification {
        title: "Service down".to_string(),
        tags: "warning".to_string(),
        body: body.to_string(),
    })
}

fn recovery_message() -> Option<Notification> {
    Some(Notification {
        title: "Services recovered".to_string(),
        tags: "white_check_mark".to_string(),
        body: "All services back up".to_string(),
    })
}

#[test]
fn message_format_vectors() {
    assert_eq!(format_notification_message(&[]), None);
    assert_eq!(
        format_notification_message(&["my-service-0"]).unwrap(),
        "1 service down: my-service-0"
    );
    assert_eq!(
        format_notification_message(&["my-service-0", "my-service-1"]).unwrap(),
        "2 services down: my-service-0 and my-service-1"
    );
    assert_eq!(
        format_notification_message(&["my-service-0", "my-service-1", "my-service-2"]).unwrap(),
        "3 services down: my-service-0, my-service-1 and my-service-2"
    );
    assert_eq!(
        format_notification_message(&["a", "b", "c", "d"]).unwrap(),
        "4 services down: a, b, c and d"
    );
    // Names containing commas are joined verbatim; no escaping.
    assert_eq!(
        format_notification_message(&["x, y", "z"]).unwrap(),
        "2 services down: x, y and z"
    );
}

#[test]
fn message_counts_in_decimal() {
    let names: Vec<String> = (0..12).map(|i| format!("s{i}")).collect();
    let names: Vec<&str> = names.iter().map(|name| name.as_str()).collect();
    assert_eq!(
        format_notification_message(&names).unwrap(),
        "12 services down: s0, s1, s2, s3, s4, s5, s6, s7, s8, s9, s10 and s11"
    );
}

#[test]
fn all_up_never_down_stays_quiet() {
    let mut state = NotifyState::default();
    let outcome = tick(
        &snap(&[("a", Some(true)), ("b", None)]),
        &entry_with(120.0),
        &mut state,
        ts("2026-07-18T12:00:00Z"),
        Some(200),
    );
    assert_eq!(outcome, (NotifyOutcome::Quiet, None));
    assert_eq!(state, NotifyState::default());
}

#[test]
fn first_down_sends_verbatim_message_and_updates_state() {
    let mut state = NotifyState::default();
    let now = ts("2026-07-18T12:00:00Z");
    // Only the down service is named; the up one is not.
    let outcome = tick(
        &snap(&[("a", Some(true)), ("b", Some(false))]),
        &entry_with(120.0),
        &mut state,
        now,
        Some(200),
    );
    assert_eq!(
        outcome,
        (NotifyOutcome::SentDown, down_message("1 service down: b"))
    );
    assert_eq!(state.last_sent, Some(now));
    assert!(state.was_down);
}

#[test]
fn rate_limit_boundaries() {
    let entry = entry_with(120.0);
    let down = snap(&[("a", Some(false))]);
    let mut state = NotifyState::default();
    let t0 = ts("2026-07-18T12:00:00Z");
    assert_eq!(
        tick(&down, &entry, &mut state, t0, Some(200)).0,
        NotifyOutcome::SentDown
    );
    // Under the window: no request.
    let t1 = ts("2026-07-18T13:00:00Z");
    assert_eq!(
        tick(&down, &entry, &mut state, t1, Some(200)),
        (NotifyOutcome::RateLimited, None)
    );
    // Exactly minutesBetween: "more than" is strict, still no send.
    let t2 = ts("2026-07-18T14:00:00Z");
    assert_eq!(
        tick(&down, &entry, &mut state, t2, Some(200)),
        (NotifyOutcome::RateLimited, None)
    );
    // Past the window: second send, last_sent advances.
    let t3 = ts("2026-07-18T14:00:01Z");
    assert_eq!(
        tick(&down, &entry, &mut state, t3, Some(200)),
        (NotifyOutcome::SentDown, down_message("1 service down: a"))
    );
    assert_eq!(state.last_sent, Some(t3));
}

#[test]
fn the_window_is_kept_to_the_nanosecond() {
    let entry = entry_with(1.5);
    let down = snap(&[("a", Some(false))]);
    let mut state = NotifyState::default();
    let t0 = ts("2026-07-18T12:00:00Z");
    tick(&down, &entry, &mut state, t0, Some(200));
    let end = ts("2026-07-18T12:01:30Z");
    assert_eq!(
        tick(&down, &entry, &mut state, end, Some(200)).0,
        NotifyOutcome::RateLimited
    );
    let past = ts("2026-07-18T12:01:30.000000001Z");
    assert_eq!(
        tick(&down, &entry, &mut state, past, Some(200)).0,
        NotifyOutcome::SentDown
    );
}

#[test]
fn recovery_flow_resets_rate_limit_and_is_not_rate_limited() {
    let entry = entry_with(120.0);
    let down = snap(&[("a", Some(false))]);
    let up = snap(&[("a", Some(true))]);
    let mut state = NotifyState::default();
    let t0 = ts("2026-07-18T12:00:00Z");
    assert_eq!(
        tick(&down, &entry, &mut state, t0, Some(200)).0,
        NotifyOutcome::SentDown
    );
    // Recovery fires immediately even though a down-message was just sent.
    let t1 = ts("2026-07-18T12:01:00Z");
    assert_eq!(
        tick(&up, &entry, &mut state, t1, Some(200)),
        (NotifyOutcome::Recovered, recovery_message())
    );
    assert_eq!(
        state,
        NotifyState {
            last_sent: None,
            was_down: false
        }
    );
    // Next tick with everything up: nothing.
    let t2 = ts("2026-07-18T12:02:00Z");
    assert_eq!(
        tick(&up, &entry, &mut state, t2, Some(200)),
        (NotifyOutcome::Quiet, None)
    );
    // A fresh outage minutes later sends immediately: the window never carries over
    // between outages.
    let t3 = ts("2026-07-18T12:03:00Z");
    assert_eq!(
        tick(&down, &entry, &mut state, t3, Some(200)),
        (NotifyOutcome::SentDown, down_message("1 service down: a"))
    );
}

#[test]
fn failed_down_send_is_retried_because_state_is_not_updated() {
    let entry = entry_with(120.0);
    let down = snap(&[("a", Some(false))]);
    let mut state = NotifyState::default();
    let t0 = ts("2026-07-18T12:00:00Z");
    assert_eq!(
        tick(&down, &entry, &mut state, t0, Some(500)).0,
        NotifyOutcome::SendFailed
    );
    // was_down tracks reality even though the send failed; last_sent does not.
    assert!(state.was_down);
    assert_eq!(state.last_sent, None);
    // Next tick retries immediately, not rate-limited by the failed attempt.
    let t1 = ts("2026-07-18T12:01:00Z");
    assert_eq!(
        tick(&down, &entry, &mut state, t1, Some(500)).0,
        NotifyOutcome::SendFailed
    );
}

#[test]
fn transport_failure_counts_as_failed_send() {
    let mut state = NotifyState::default();
    let outcome = tick(
        &snap(&[("a", Some(false))]),
        &entry_with(0.0),
        &mut state,
        ts("2026-07-18T12:00:00Z"),
        None,
    );
    assert_eq!(outcome.0, NotifyOutcome::SendFailed);
    assert_eq!(state.last_sent, None);
}

#[test]
fn failed_recovery_send_keeps_was_down_and_retries() {
    let entry = entry_with(120.0);
    let up = snap(&[("a", Some(true))]);
    let mut state = NotifyState {
        last_sent: Some(ts("2026-07-18T11:00:00Z")),
        was_down: true,
    };
    let outcome = tick(&up, &entry, &mut state, ts("2026-07-18T12:00:00Z"), Some(500));
    assert_eq!(outcome.0, NotifyOutcome::RecoveryFailed);
    assert!(state.was_down, "retried at the next tick");
    // The retry succeeds once ntfy answers.
    let outcome = tick(&up, &entry, &mut state, ts("2026-07-18T12:01:00Z"), Some(200));
    assert_eq!(outcome, (NotifyOutcome::Recovered, recovery_message()));
}

#[test]
fn two_entries_have_independent_state() {
    let entry_a = entry_with(120.0);
    let entry_b = NotifyConfig::Ntfy(ntfy("other-topic", 120.0));
    let down = snap(&[("a", Some(false))]);
    let mut state_a = NotifyState::default();
    let mut state_b = NotifyState::default();
    let t0 = ts("2026-07-18T12:00:00Z");
    // Topic A sends; topic B's window is untouched and it also sends.
    assert_eq!(
        tick(&down, &entry_a, &mut state_a, t0, Some(200)).0,
        NotifyOutcome::SentDown
    );
    assert_eq!(
        tick(&down, &entry_b, &mut state_b, t0, Some(200)).0,
        NotifyOutcome::SentDown
    );
}

#[test]
fn zero_minutes_between_sends_every_tick() {
    let entry = entry_with(0.0);
    let down = snap(&[("a", Some(false))]);
    let mut state = NotifyState::default();
    for second in ["00", "01", "02"] {
        let now = ts(&format!("2026-07-18T12:00:{second}Z"));
        assert_eq!(
            tick(&down, &entry, &mut state, now, Some(200)),
            (NotifyOutcome::SentDown, down_message("1 service down: a")),
            "at :{second}"
        );
    }
}

#[test]
fn the_window_holds_when_other_services_fail() {
    let entry = entry_with(120.0);
    let mut state = NotifyState::default();
    let t0 = ts("2026-07-18T12:00:00Z");
    tick(&snap(&[("a", Some(false))]), &entry, &mut state, t0, Some(200));
    let other = snap(&[("a", Some(true)), ("b", Some(false)), ("c", Some(false))]);
    let t1 = ts("2026-07-18T12:30:00Z");
    assert_eq!(
        tick(&other, &entry, &mut state, t1, Some(200)),
        (NotifyOutcome::RateLimited, None)
    );
    let t2 = ts("2026-07-18T14:30:00Z");
    assert_eq!(
        tick(&other, &entry, &mut state, t2, Some(200)),
        (
            NotifyOutcome::SentDown,
            down_message("2 services down: b and c")
        )
    );
}

#[test]
fn a_message_is_published_to_its_topic() {
    let message = recovery_message().unwrap();
    let request = ntfy_request(&ntfy("my-topic", 120.0), "http://mock", &message);
    assert_eq!(request.url, "http://mock/my-topic");
    assert_eq!(request.title, "Services recovered");
    assert_eq!(request.tags, "white_check_mark");
    assert_eq!(request.body, "All services back up");
}

#[test]
fn entries_know_their_environment_and_recipient() {
    let entry = entry_with(1.0);
    assert_eq!(env_var(&entry), "VARDE_NTFY_BASE_URL");
    assert_eq!(env_var(&telegram()), "VARDE_TELEGRAM_BASE_URL");
    assert_eq!(env_var(&pushover()), "VARDE_PUSHOVER_BASE_URL");
    assert_eq!(recipient(&entry), "my-topic");
    assert_eq!(recipient(&telegram()), "42");
    assert_eq!(recipient(&pushover()), "user-key");
    assert_eq!(base_url(&entry, None).as_deref(), Some("https://ntfy.sh"));
    assert_eq!(DEFAULT_NTFY_BASE_URL, "https://ntfy.sh");
    assert_eq!(
        base_url(&entry, Some("http://mock".into())).as_deref(),
        Some("http://mock")
    );
    assert_eq!(base_url(&telegram(), None), None);
    assert_eq!(base_url(&pushover(), None), None);
    assert_eq!(
        base_url(&pushover(), Some("http://mock".into())).as_deref(),
        Some("http://mock")
    );
}

#[test]
fn a_test_message_says_what_it_is() {
    let message = test_notification();
    assert_eq!(message.title, "Test notification");
    assert_eq!(message.tags, "white_check_mark");
    assert_eq!(message.body, "This is a test notification from varde");
}

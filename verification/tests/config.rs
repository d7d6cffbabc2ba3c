//! Which configurations are accepted.

use varde::config::{
    config_path, load, notify_type, validate, Config, ConfigError, ConfigSource, HeartbeatConfig, JsonCategory,
    Minutes, NotifyConfig, NtfyEntry, PushoverEntry, ServiceConfig, TelegramEntry,
    DEFAULT_CONFIG_PATH, DEFAULT_NOTIFY_TYPE,
};
use varde::schedule::parse;

fn minutes(value: f64) -> Minutes {
    Minutes {
        text: format!("{value}"),
        nanoseconds: (value * 60e9).floor() as i128,
    }
}

fn service(name: &str, url: &str, ok_status_code: u16) -> ServiceConfig {
    ServiceConfig {
        service: name.to_string(),
        schedule: parse("every 1 minute").unwrap(),
        url: url.to_string(),
        ok_status_code,
    }
}

fn ntfy(topic: &str, minutes_between: f64) -> NotifyConfig {
    NotifyConfig::Ntfy(NtfyEntry {
        topic: topic.to_string(),
        schedule: parse("every 1 minute").unwrap(),
        minutes_between: minutes(minutes_between),
    })
}

fn with_services(services: Vec<ServiceConfig>) -> Config {
    Config {
        services,
        heartbeat: None,
        notify: vec![],
    }
}

fn with_heartbeat(heartbeat: HeartbeatConfig) -> Config {
    Config {
        services: vec![],
        heartbeat: Some(heartbeat),
        notify: vec![],
    }
}

fn with_notify(notify: Vec<NotifyConfig>) -> Config {
    Config {
        services: vec![],
        heartbeat: None,
        notify,
    }
}

fn healthchecks(uuid: &str) -> HeartbeatConfig {
    HeartbeatConfig::HealthchecksIo {
        uuid: uuid.to_string(),
        schedule: parse("every 1 minute").unwrap(),
    }
}

fn load_config(config: &Config) -> Result<Config, ConfigError> {
    load(ConfigSource::Parsed(config.clone()))
}

#[test]
fn full_example_parses_with_every_field() {
    let schedule = || parse("Every 10 minutes").unwrap();
    let config = load_config(&Config {
        services: vec![
            ServiceConfig {
                service: "Home Assistant".into(),
                schedule: schedule(),
                url: "http://192.168.1.89:4357".into(),
                ok_status_code: 200,
            },
            service("Nginx redirect", "http://server:80", 301),
        ],
        heartbeat: Some(HeartbeatConfig::HealthchecksIo {
            uuid: "12345678-1234-1234-1234-123456789012".into(),
            schedule: schedule(),
        }),
        notify: vec![
            NotifyConfig::Ntfy(NtfyEntry {
                topic: "my-ntfy-topic".into(),
                schedule: schedule(),
                minutes_between: minutes(120.0),
            }),
            NotifyConfig::Telegram(TelegramEntry {
                bot_token: "123456:abc-def".into(),
                chat_id: "987654".into(),
                schedule: schedule(),
                minutes_between: minutes(60.0),
            }),
            NotifyConfig::Pushover(PushoverEntry {
                api_token: "my-pushover-token".into(),
                user_key: "my-pushover-user".into(),
                priority: None,
                schedule: schedule(),
                minutes_between: minutes(30.0),
            }),
        ],
    })
    .unwrap();
    assert_eq!(config.services.len(), 2);
    assert_eq!(config.services[0].service, "Home Assistant");
    assert_eq!(config.services[0].schedule.to_string(), "Every 10 minutes");
    assert_eq!(config.services[0].schedule.interval_seconds(), 600);
    assert_eq!(config.services[0].url, "http://192.168.1.89:4357");
    assert_eq!(config.services[0].ok_status_code, 200);
    assert_eq!(config.services[1].service, "Nginx redirect");
    assert_eq!(config.services[1].schedule.interval_seconds(), 60);
    assert_eq!(config.services[1].ok_status_code, 301);
    assert_eq!(
        config.heartbeat,
        Some(HeartbeatConfig::HealthchecksIo {
            uuid: "12345678-1234-1234-1234-123456789012".into(),
            schedule: schedule(),
        })
    );
    assert_eq!(config.notify.len(), 3);
    assert_eq!(
        config.notify[0],
        NotifyConfig::Ntfy(NtfyEntry {
            topic: "my-ntfy-topic".into(),
            schedule: schedule(),
            minutes_between: minutes(120.0),
        })
    );
    assert_eq!(config.notify[0].kind(), "ntfy");
    assert_eq!(config.notify[0].schedule().to_string(), "Every 10 minutes");
    assert_eq!(config.notify[0].minutes_between(), &minutes(120.0));
    assert_eq!(
        config.notify[1],
        NotifyConfig::Telegram(TelegramEntry {
            bot_token: "123456:abc-def".into(),
            chat_id: "987654".into(),
            schedule: schedule(),
            minutes_between: minutes(60.0),
        })
    );
    assert_eq!(config.notify[1].kind(), "telegram");
    assert_eq!(config.notify[1].schedule().to_string(), "Every 10 minutes");
    assert_eq!(config.notify[1].minutes_between(), &minutes(60.0));
    assert_eq!(
        config.notify[2],
        NotifyConfig::Pushover(PushoverEntry {
            api_token: "my-pushover-token".into(),
            user_key: "my-pushover-user".into(),
            priority: None,
            schedule: schedule(),
            minutes_between: minutes(30.0),
        })
    );
    assert_eq!(config.notify[2].kind(), "pushover");
    assert_eq!(config.notify[2].schedule().to_string(), "Every 10 minutes");
    assert_eq!(config.notify[2].minutes_between(), &minutes(30.0));
}

#[test]
fn minimal_config_parses_with_defaults() {
    let config = load_config(&with_services(vec![])).unwrap();
    assert_eq!(config.services, vec![]);
    assert_eq!(config.heartbeat, None);
    assert_eq!(config.notify, vec![]);
}

#[test]
fn heartbeat_accepts_loose_uuid_vector() {
    let config =
        load_config(&with_heartbeat(healthchecks("12345678-1234-1234-1234-123456789012"))).unwrap();
    assert!(matches!(
        config.heartbeat,
        Some(HeartbeatConfig::HealthchecksIo { .. })
    ));
}

#[test]
fn heartbeat_accepts_httpbin_without_uuid() {
    let httpbin = HeartbeatConfig::Httpbin {
        schedule: parse("every 1 minute").unwrap(),
    };
    let config = load_config(&with_heartbeat(httpbin)).unwrap();
    assert_eq!(
        config.heartbeat,
        Some(HeartbeatConfig::Httpbin {
            schedule: parse("every 1 minute").unwrap()
        })
    );
}

#[test]
fn heartbeat_uuid_shape_not_validated() {
    // The uuid is an opaque identifier: only presence is checked, not shape.
    for accepted in ["not-a-valid-uuid", "12345678123412341234123456789012"] {
        let config = load_config(&with_heartbeat(healthchecks(accepted))).unwrap();
        assert!(matches!(
            config.heartbeat,
            Some(HeartbeatConfig::HealthchecksIo { .. })
        ));
    }
}

#[test]
fn heartbeat_empty_uuid_rejected() {
    let err = load_config(&with_heartbeat(healthchecks(""))).unwrap_err();
    assert_eq!(err, ConfigError::EmptyUuid);
    assert_eq!(err.to_string(), "heartbeat uuid must not be empty");
}

#[test]
fn missing_file_rejected_naming_path() {
    let err = load(ConfigSource::Unreadable {
        path: "/nonexistent/nowhere.json".into(),
        message: "No such file or directory (os error 2)".into(),
    })
    .unwrap_err();
    assert!(matches!(err, ConfigError::Read { .. }));
    assert!(err.to_string().contains("/nonexistent/nowhere.json"));
    assert_eq!(
        err.to_string(),
        "cannot read config file /nonexistent/nowhere.json: No such file or directory (os error 2)"
    );
}

fn unparsable(category: JsonCategory) -> ConfigError {
    load(ConfigSource::Unparsable {
        category,
        location: "services[0].schedule".into(),
        message: "key must be a string at line 1 column 3".into(),
    })
    .unwrap_err()
}

#[test]
fn invalid_json_rejected() {
    for category in [JsonCategory::Syntax, JsonCategory::Eof] {
        let err = unparsable(category);
        assert!(matches!(err, ConfigError::Json { .. }));
        assert_eq!(
            err.to_string(),
            "config is not valid JSON: key must be a string at line 1 column 3"
        );
    }
}

#[test]
fn misshapen_config_rejected_naming_field() {
    for category in [JsonCategory::Data, JsonCategory::Io] {
        let err = unparsable(category);
        assert!(matches!(err, ConfigError::Shape { .. }));
        assert_eq!(
            err.to_string(),
            "invalid config at `services[0].schedule`: key must be a string at line 1 column 3"
        );
    }
}

#[test]
fn empty_service_name_rejected() {
    let err = load_config(&with_services(vec![service("", "http://localhost:1234", 200)]))
        .unwrap_err();
    assert_eq!(err.to_string(), "services[0].service must not be empty");
}

#[test]
fn url_shape_not_validated() {
    for accepted in ["example.com/foo", "not a url", "ftp://server/file"] {
        let config = load_config(&with_services(vec![service("a", accepted, 200)])).unwrap();
        assert_eq!(config.services[0].url, accepted);
    }
}

#[test]
fn status_code_bounds_rejected() {
    for bad in [0, 600] {
        let err = load_config(&with_services(vec![service("a", "http://x", bad)])).unwrap_err();
        assert!(
            err.to_string().contains("okStatusCode"),
            "got: {err:?} for {bad}"
        );
        assert!(err.to_string().contains(&format!("{bad}")));
    }
    for good in [1, 599] {
        assert!(load_config(&with_services(vec![service("a", "http://x", good)])).is_ok());
    }
}

#[test]
fn duplicate_service_names_rejected() {
    let err = load_config(&with_services(vec![
        service("a", "http://x", 200),
        service("a", "http://y", 200),
    ]))
    .unwrap_err();
    assert_eq!(err.to_string(), "duplicate service name \"a\"");
}

#[test]
fn duplicate_and_empty_notify_topics_accepted() {
    let config = load_config(&with_notify(vec![
        ntfy("t", 1.0),
        ntfy("t", 2.0),
        ntfy("", 1.0),
    ]))
    .unwrap();
    assert_eq!(config.notify.len(), 3);
}

#[test]
fn negative_minutes_between_rejected() {
    let err = load_config(&with_notify(vec![ntfy("t", -1.0)])).unwrap_err();
    assert!(err.to_string().contains("minutesBetween"), "got: {err:?}");
    assert!(err.to_string().contains("-1"));
    assert_eq!(
        err.to_string(),
        "notify[0] has negative minutesBetween -1"
    );
}

#[test]
fn fractional_minutes_between_accepted() {
    let config = load_config(&with_notify(vec![ntfy("t", 1.5)])).unwrap();
    assert_eq!(config.notify[0].minutes_between(), &minutes(1.5));
    assert_eq!(config.notify[0].minutes_between().nanoseconds, 90_000_000_000);
}

#[test]
fn the_first_fault_is_the_one_reported() {
    let config = Config {
        services: vec![
            service("a", "http://x", 200),
            service("b", "http://x", 600),
            service("", "http://x", 200),
        ],
        heartbeat: Some(healthchecks("")),
        notify: vec![ntfy("t", -1.0)],
    };
    assert_eq!(
        validate(&config),
        Err(ConfigError::StatusCodeRange {
            service: "b".into(),
            code: 600
        })
    );
    assert_eq!(
        validate(&config).unwrap_err().to_string(),
        "service \"b\" has okStatusCode 600 outside 1..=599"
    );
    let config = Config {
        services: vec![],
        ..config
    };
    assert_eq!(validate(&config), Err(ConfigError::EmptyUuid));
    let config = Config {
        heartbeat: None,
        notify: vec![ntfy("t", 0.0), ntfy("t", -0.25)],
        ..config
    };
    assert_eq!(
        validate(&config),
        Err(ConfigError::NegativeMinutesBetween {
            index: 1,
            value: "-0.25".into()
        })
    );
    let config = Config {
        notify: vec![],
        ..config
    };
    assert_eq!(validate(&config), Ok(()));
}

#[test]
fn one_service_has_its_faults_in_order() {
    // Its name comes first, then whether it is taken, then the status code.
    let config = with_services(vec![service("", "http://x", 0)]);
    assert_eq!(
        validate(&config),
        Err(ConfigError::EmptyServiceName { index: 0 })
    );
    let config = with_services(vec![service("a", "http://x", 1), service("a", "http://x", 0)]);
    assert_eq!(
        validate(&config),
        Err(ConfigError::DuplicateService { name: "a".into() })
    );
}

#[test]
fn heartbeat_schedule_accessor_covers_both_variants() {
    let hc = HeartbeatConfig::HealthchecksIo {
        uuid: "12345678-1234-1234-1234-123456789012".into(),
        schedule: parse("every 1 minute").unwrap(),
    };
    let httpbin = HeartbeatConfig::Httpbin {
        schedule: parse("every 2 hours").unwrap(),
    };
    assert_eq!(hc.schedule().interval_seconds(), 60);
    assert_eq!(httpbin.schedule().interval_seconds(), 7200);
}

#[test]
fn config_path_env_override_and_default() {
    assert_eq!(config_path(Some("/tmp/other.json".into())), "/tmp/other.json");
    assert_eq!(config_path(None), DEFAULT_CONFIG_PATH);
    assert_eq!(DEFAULT_CONFIG_PATH, "/config/config.json");
}

#[test]
fn a_notify_entry_is_ntfy_unless_it_says_otherwise() {
    assert_eq!(DEFAULT_NOTIFY_TYPE, "ntfy");
    assert_eq!(notify_type(None), "ntfy");
    assert_eq!(notify_type(Some("telegram".into())), "telegram");
}

#[test]
fn a_name_taken_further_up_is_found() {
    let config = with_services(vec![
        service("a", "http://x", 200),
        service("b", "http://x", 200),
        service("A", "http://x", 200),
        service("b", "http://x", 200),
    ]);
    assert_eq!(
        validate(&config),
        Err(ConfigError::DuplicateService { name: "b".into() })
    );
}

//! The command line.

use varde::cli::{exit_code, parse_args, parse_only_arg, report_line, select_entries, Command};
use varde::config::{Minutes, NotifyConfig, NtfyEntry, TelegramEntry};
use varde::schedule::parse;

fn args(list: &[&str]) -> Vec<String> {
    list.iter().map(|arg| arg.to_string()).collect()
}

fn minutes() -> Minutes {
    Minutes {
        text: "5".to_string(),
        nanoseconds: 300_000_000_000,
    }
}

fn ntfy(topic: &str) -> NotifyConfig {
    NotifyConfig::Ntfy(NtfyEntry {
        topic: topic.to_string(),
        schedule: parse("every 1 minute").unwrap(),
        minutes_between: minutes(),
    })
}

fn telegram(chat_id: &str) -> NotifyConfig {
    NotifyConfig::Telegram(TelegramEntry {
        bot_token: "123:abc".to_string(),
        chat_id: chat_id.to_string(),
        schedule: parse("every 1 minute").unwrap(),
        minutes_between: minutes(),
    })
}

#[test]
fn no_argument_monitors() {
    assert_eq!(parse_args(&args(&[])), Ok(Command::Monitor));
}

#[test]
fn test_notify_takes_one_option() {
    assert_eq!(
        parse_args(&args(&["test-notify"])),
        Ok(Command::TestNotify { only: None })
    );
    assert_eq!(
        parse_args(&args(&["test-notify", "--only", "telegram"])),
        Ok(Command::TestNotify {
            only: Some("telegram".to_string())
        })
    );
    // What follows the type is not looked at.
    assert_eq!(
        parse_args(&args(&["test-notify", "--only", "ntfy", "more"])),
        Ok(Command::TestNotify {
            only: Some("ntfy".to_string())
        })
    );
}

#[test]
fn other_arguments_are_refused() {
    assert_eq!(
        parse_args(&args(&["--help"])),
        Err("unknown argument \"--help\"".to_string())
    );
    assert_eq!(
        parse_args(&args(&["test-notify", "ntfy"])),
        Err("unknown argument \"ntfy\"".to_string())
    );
    assert_eq!(
        parse_args(&args(&["test-notify", "--only"])),
        Err("--only requires a value".to_string())
    );
}

#[test]
fn the_option_is_read_alone() {
    assert_eq!(parse_only_arg(&args(&[])), Ok(None));
    assert_eq!(
        parse_only_arg(&args(&["--only", "pushover"])),
        Ok(Some("pushover".to_string()))
    );
    assert_eq!(
        parse_only_arg(&args(&["--only"])),
        Err("--only requires a value".to_string())
    );
    assert_eq!(
        parse_only_arg(&args(&["only"])),
        Err("unknown argument \"only\"".to_string())
    );
}

#[test]
fn entries_are_selected_by_type_in_order() {
    let entries = vec![ntfy("a"), telegram("1"), ntfy("b")];
    let all = select_entries(&entries, &None).unwrap();
    assert_eq!(all, vec![&entries[0], &entries[1], &entries[2]]);
    let only = select_entries(&entries, &Some("ntfy".to_string())).unwrap();
    assert_eq!(only, vec![&entries[0], &entries[2]]);
    assert_eq!(
        select_entries(&entries, &Some("pushover".to_string())),
        Err("no notify entry configured with type \"pushover\"".to_string())
    );
    assert_eq!(
        select_entries(&[], &None),
        Err("no notify entries configured".to_string())
    );
}

#[test]
fn the_report_names_type_and_recipient() {
    assert_eq!(report_line(&ntfy("my-topic"), true), "ntfy (my-topic): sent");
    assert_eq!(report_line(&telegram("42"), false), "telegram (42): FAILED");
}

#[test]
fn the_exit_code_is_zero_only_if_all_came_through() {
    assert_eq!(exit_code(&[]), 0);
    assert_eq!(exit_code(&[true, true]), 0);
    assert_eq!(exit_code(&[true, false, true]), 1);
    assert_eq!(exit_code(&[false]), 1);
}

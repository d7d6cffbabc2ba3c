//! Schedule expressions and their occurrences.

use varde::schedule::{normalize, parse, Schedule};
use varde::text::{
    decimal_text, is_whitespace, join, parse_unsigned, split_words, to_lowercase,
};
use varde::time::{Timestamp, MAX_NANOSECOND, MAX_SECOND, MIN_NANOSECOND, MIN_SECOND};

fn ts(s: &str) -> Timestamp {
    let parsed: jiff::Timestamp = s.parse().unwrap();
    Timestamp::from_nanosecond(parsed.as_nanosecond()).unwrap()
}

#[test]
fn normalization_table() {
    let table = [
        ("Every 10 minutes", "every 10 minutes"),
        ("Every 1 minutes", "every 1 minutes"),
        ("every 5 minutes", "every 5 minutes"),
        ("every 30 seconds", "every 30 seconds"),
        ("every 2 hours", "every 2 hours"),
        ("every 1 minute", "every 1 minutes"),
        ("every 1 second", "every 1 seconds"),
        ("every 1 hour", "every 1 hours"),
        ("every 1 day", "every 1 days"),
        ("  Every   10\tMINUTES  ", "every 10 minutes"),
        ("every weekday at 09:00", "every weekday at 09:00"),
        ("at 10:00 am", "at 10:00 am"),
        ("banana", "banana"),
        ("", ""),
        ("every -5 minutes", "every -5 minutes"),
    ];
    for (input, expected) in table {
        assert_eq!(normalize(input), expected, "normalize({input:?})");
        // Idempotence: normalizing a normalized form is a no-op.
        assert_eq!(normalize(expected), expected, "idempotence for {input:?}");
    }
}

#[test]
fn real_world_forms_parse_with_expected_spacing() {
    let table: [(&str, i64); 7] = [
        ("Every 10 minutes", 600),
        ("Every 1 minutes", 60),
        ("every 1 minute", 60),
        ("every 5 minutes", 300),
        ("every 30 seconds", 30),
        ("every 2 hours", 7200),
        ("every 3 days", 259_200),
    ];
    for (expr, seconds) in table {
        let schedule = parse(expr).unwrap();
        assert_eq!(schedule.interval_seconds(), seconds, "{expr}");
        let first = schedule.next_after(ts("2026-07-18T12:34:56Z"));
        let second = schedule.next_after(first);
        let third = schedule.next_after(second);
        assert_eq!(second.as_second() - first.as_second(), seconds, "{expr}");
        assert_eq!(third.as_second() - second.as_second(), seconds, "{expr}");
    }
}

#[test]
fn occurrences_are_wall_clock_aligned() {
    let schedule = parse("Every 10 minutes").unwrap();
    assert_eq!(
        schedule.next_after(ts("2026-07-18T12:34:56Z")),
        ts("2026-07-18T12:40:00Z")
    );
    let schedule = parse("every 30 seconds").unwrap();
    assert_eq!(
        schedule.next_after(ts("2026-07-18T12:34:56Z")),
        ts("2026-07-18T12:35:00Z")
    );
}

#[test]
fn next_after_is_strictly_after() {
    let schedule = parse("every 1 minutes").unwrap();
    // Exactly on a boundary: the next occurrence is the following one.
    assert_eq!(
        schedule.next_after(ts("2026-07-18T12:35:00Z")),
        ts("2026-07-18T12:36:00Z")
    );
    // Sub-second past a boundary still lands on the next boundary.
    assert_eq!(
        schedule.next_after(ts("2026-07-18T12:35:00.5Z")),
        ts("2026-07-18T12:36:00Z")
    );
    // Instants before the epoch behave.
    assert_eq!(
        schedule.next_after(ts("1969-12-31T23:59:30Z")),
        ts("1970-01-01T00:00:00Z")
    );
}

#[test]
fn next_after_is_the_smallest_multiple_before_the_epoch_too() {
    let schedule = parse("every 1 minute").unwrap();
    assert_eq!(
        schedule.next_after(ts("1969-12-31T23:59:59.5Z")),
        ts("1970-01-01T00:00:00Z")
    );
    assert_eq!(
        schedule.next_after(ts("1969-12-31T23:59:00Z")),
        ts("1970-01-01T00:00:00Z")
    );
}

#[test]
fn display_and_try_from_round_trip() {
    let schedule: Schedule = String::from("Every 10 minutes").try_into().unwrap();
    assert_eq!(schedule.to_string(), "Every 10 minutes");
    let err = Schedule::try_from(String::from("banana")).unwrap_err();
    assert!(err.to_string().contains("banana"));
}

#[test]
fn errors_name_the_original_expression() {
    let table = [
        ("", "expression is empty"),
        ("   ", "expression is empty"),
        ("banana", "expected \"every N seconds|minutes|hours|days\""),
        ("every weekday at 09:00", "expected \"every"),
        ("at 10:00 am", "expected \"every"),
        ("every -5 minutes", "\"-5\" is not a positive integer"),
        ("every 1.5 minutes", "\"1.5\" is not a positive integer"),
        ("every 0 minutes", "interval must be at least 1"),
        ("every 5 fortnights", "unknown unit \"fortnights\""),
        ("every 99999999999 days", "exceeds the 10-year maximum"),
        (
            "every 99999999999999999999 seconds",
            "not a positive integer",
        ),
    ];
    for (expr, expected_detail) in table {
        let err = parse(expr).unwrap_err();
        let message = err.to_string();
        assert!(
            message.contains(expected_detail),
            "{expr:?} => {message}, expected detail {expected_detail:?}"
        );
        assert!(
            message.contains(&format!("\"{expr}\"")),
            "{expr:?} error must quote the original expression, got: {message}"
        );
    }
}

#[test]
fn error_messages_are_exact() {
    let table = [
        ("", "cannot parse schedule \"\": expression is empty"),
        (
            "Banana",
            "cannot parse schedule \"Banana\": expected \"every N seconds|minutes|hours|days\"",
        ),
        (
            "every X days",
            "cannot parse schedule \"every X days\": \"x\" is not a positive integer",
        ),
        (
            "every 0 days",
            "cannot parse schedule \"every 0 days\": interval must be at least 1",
        ),
        (
            "every 2 Weeks",
            "cannot parse schedule \"every 2 Weeks\": unknown unit \"weeks\", expected seconds|minutes|hours|days",
        ),
        (
            "every 3651 days",
            "cannot parse schedule \"every 3651 days\": interval exceeds the 10-year maximum",
        ),
    ];
    for (expr, message) in table {
        assert_eq!(parse(expr).unwrap_err().to_string(), message);
    }
}

#[test]
fn the_longest_interval_is_ten_years() {
    assert_eq!(parse("every 3650 days").unwrap().interval_seconds(), 315_360_000);
    assert_eq!(
        parse("every 315360000 seconds").unwrap().interval_seconds(),
        315_360_000
    );
    assert!(parse("every 315360001 seconds").is_err());
    // Too large for any machine integer once multiplied.
    assert!(parse("every 18446744073709551615 days").is_err());
}

#[test]
fn counts_may_have_a_plus_sign_and_leading_zeros() {
    assert_eq!(parse("every +5 minutes").unwrap().interval_seconds(), 300);
    assert_eq!(parse("every 005 minutes").unwrap().interval_seconds(), 300);
    assert!(parse("every + minutes").is_err());
}

#[test]
fn case_and_plural_do_not_matter() {
    for expr in ["EVERY 2 HOUR", "every 2 hours", "Every\u{a0}2\nHours"] {
        assert_eq!(parse(expr).unwrap().interval_seconds(), 7200, "{expr:?}");
    }
}

#[test]
fn fuzzish_parse_never_panics() {
    // Deterministic xorshift. Every generated string must produce Ok or Err, never a
    // panic, and normalize must stay idempotent.
    let mut state: u64 = 0x9E37_79B9_7F4A_7C15;
    let mut next = move || {
        state ^= state << 13;
        state ^= state >> 7;
        state ^= state << 17;
        state
    };
    for _ in 0..2000 {
        let len = (next() % 24) as usize;
        let s: String = (0..len)
            .map(|_| char::from((0x20 + (next() % 0x5F)) as u8)) // printable ASCII
            .collect();
        let _ = parse(&s);
        assert_eq!(normalize(&normalize(&s)), normalize(&s));
    }
}

#[test]
fn waiting_ends_at_the_next_occurrence() {
    let schedule = parse("every 10 seconds").unwrap();
    assert_eq!(
        schedule.wait_after(ts("2026-07-18T12:00:03.25Z")),
        Some((ts("2026-07-18T12:00:10Z"), 6_750_000_000))
    );
    // No occurrence is left at the end of time.
    let last = Timestamp::from_second(MAX_SECOND).unwrap();
    assert_eq!(schedule.wait_after(last), None);
}

#[test]
fn occurrences_do_not_depend_on_when_one_asks() {
    let schedule = parse("every 7 minutes").unwrap();
    let next = schedule.next_after(ts("2026-07-18T12:00:00Z"));
    let just_before = Timestamp::from_nanosecond(next.as_nanosecond() - 1).unwrap();
    assert_eq!(schedule.next_after(just_before), next);
    assert_eq!(next.as_second() % 420, 0);
}

#[test]
fn whitespace_is_what_std_says() {
    for code in 0..=0x10FFFFu32 {
        if let Some(c) = char::from_u32(code) {
            assert_eq!(is_whitespace(c), c.is_whitespace(), "U+{code:04X}");
        }
    }
}

#[test]
fn words_and_lowercase_are_what_std_says() {
    for text in [
        "",
        "   ",
        " a  b\tc ",
        "one",
        "\u{2003}x\u{3000}\u{85}y",
        "ÅÆØ Every 10 MiNuTeS ß İ",
        "\u{200b}zero width is no space\u{feff}",
    ] {
        let words: Vec<String> = text.split_whitespace().map(String::from).collect();
        assert_eq!(split_words(text), words, "{text:?}");
        assert_eq!(to_lowercase(text), text.to_ascii_lowercase(), "{text:?}");
        assert_eq!(join(&words, ", "), words.join(", "), "{text:?}");
    }
}

#[test]
fn numbers_are_read_as_std_reads_them() {
    for text in [
        "0", "7", "+7", "-7", "007", "", "+", "++1", "1 ", " 1", "1_000", "65535", "65536", "٣",
        "18446744073709551615", "18446744073709551616", "99999999999999999999999", "0x10", "1e3",
    ] {
        assert_eq!(parse_unsigned(text, u64::MAX), text.parse::<u64>().ok(), "{text:?}");
        assert_eq!(
            parse_unsigned(text, 65_535),
            text.parse::<u16>().ok().map(u64::from),
            "{text:?}"
        );
    }
    for n in [0, 9, 10, 99, 100, 4_294_967_296, u64::MAX] {
        assert_eq!(decimal_text(n), format!("{n}"));
    }
}

#[test]
fn seconds_out_of_range_are_no_instant() {
    assert_eq!(Timestamp::from_second(MIN_SECOND - 1), None);
    assert_eq!(Timestamp::from_second(MAX_SECOND + 1), None);
    assert_eq!(
        Timestamp::from_second(MIN_SECOND).unwrap().as_nanosecond(),
        MIN_NANOSECOND
    );
    assert_eq!(
        Timestamp::from_second(7).unwrap().as_nanosecond(),
        7_000_000_000
    );
    assert_eq!(Timestamp::from_nanosecond(MAX_NANOSECOND + 1), None);
    assert_eq!(
        Timestamp::from_nanosecond(MAX_NANOSECOND).unwrap().as_second(),
        MAX_SECOND
    );
    assert_eq!(jiff::Timestamp::MIN.as_second(), MIN_SECOND);
    assert_eq!(jiff::Timestamp::MAX.as_nanosecond(), MAX_NANOSECOND);
    assert_eq!(jiff::Timestamp::MIN.as_nanosecond(), MIN_NANOSECOND);
}

#[test]
fn instants_are_cut_off_to_seconds() {
    let table = [
        ("2026-07-17T12:34:56.789Z", 1_784_291_696, 1_784_291_696),
        ("1969-12-31T23:59:58.5Z", -1, -2),
        ("1970-01-01T00:00:00Z", 0, 0),
    ];
    for (text, cut_off, floor) in table {
        assert_eq!(ts(text).as_second(), cut_off, "{text}");
        assert_eq!(ts(text).floor_second(), floor, "{text}");
        let parsed: jiff::Timestamp = text.parse().unwrap();
        assert_eq!(parsed.as_second(), cut_off, "{text}");
    }
    assert_eq!(
        ts("2026-07-18T12:00:00Z").nanoseconds_since(ts("2026-07-18T12:00:01.5Z")),
        -1_500_000_000
    );
}

/// A second in UTC after RFC 3339, by stepping through the calendar day by day from the
/// epoch; for the years from 1970 on.
fn calendar_text(second: i64) -> String {
    let mut days = second / 86_400;
    let mut year = 1970;
    let mut month = 1;
    loop {
        let leap = year % 4 == 0 && (year % 100 != 0 || year % 400 == 0);
        let length = match month {
            2 if leap => 29,
            2 => 28,
            4 | 6 | 9 | 11 => 30,
            _ => 31,
        };
        if days < length {
            break;
        }
        days -= length;
        month += 1;
        if month == 13 {
            month = 1;
            year += 1;
        }
    }
    let s = second % 86_400;
    format!(
        "{year:04}-{month:02}-{:02}T{:02}:{:02}:{:02}Z",
        days + 1,
        s / 3600,
        s / 60 % 60,
        s % 60
    )
}

#[test]
fn texts_follow_the_calendar() {
    for second in (0..8_000_000_000).step_by(86_399 * 13) {
        let instant = Timestamp::from_second(second).unwrap();
        assert_eq!(instant.to_second_text(), calendar_text(second));
    }
    for text in [
        "2000-02-29T23:59:59Z",
        "2100-03-01T00:00:00Z",
        "1600-02-29T12:00:00Z",
        "0001-01-01T00:00:00Z",
        "0000-12-31T23:59:59Z",
        "-000001-03-04T05:06:07Z",
        "-009999-06-07T08:09:10Z",
        "9999-12-30T22:00:00Z",
    ] {
        assert_eq!(ts(text).to_second_text(), text);
    }
}

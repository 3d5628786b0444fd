use discord_bot::remind::{check_reminder_secs, duration_in_range, format_duration, parse_duration, read_duration, DurationReading, ReminderTimeError};
use discord_bot::text::{format_number, i64_to_string, join_strings, show_content, str_contains, str_eq_ignore_ascii_case, u64_to_string};

#[test]
fn test_format_number() {
    assert_eq!(format_number(0), "0");
    assert_eq!(format_number(100), "100");
    assert_eq!(format_number(1000), "1,000");
    assert_eq!(format_number(1234567), "1,234,567");
    assert_eq!(format_number(-1234567), "-1,234,567");
}

#[test]
fn format_number_extremes() {
    assert_eq!(format_number(i64::MIN), "-9,223,372,036,854,775,808");
    assert_eq!(format_number(i64::MAX), "9,223,372,036,854,775,807");
    assert_eq!(format_number(-999), "-999");
}

#[test]
fn decimal_texts() {
    assert_eq!(u64_to_string(0), "0");
    assert_eq!(u64_to_string(u64::MAX), "18446744073709551615");
    assert_eq!(i64_to_string(-42), "-42");
}

#[test]
fn joining_and_searching() {
    let parts = vec!["a".to_string(), "b".to_string(), "c".to_string()];
    assert_eq!(join_strings(&parts, ", "), "a, b, c");
    assert_eq!(join_strings(&vec![], ", "), "");
    assert!(str_contains("hello world", "o w"));
    assert!(str_contains("abc", ""));
    assert!(!str_contains("abc", "abcd"));
    assert!(str_eq_ignore_ascii_case("GitHub", "github"));
    assert!(!str_eq_ignore_ascii_case("Straße", "STRASSE"));
}

#[test]
fn long_content_is_cut_to_the_character_limit() {
    let s = "é".repeat(10);
    assert_eq!(show_content(&s, 4), "éééé");
    let two_byte = "é".repeat(3000);
    assert_eq!(show_content(&two_byte, 4096), two_byte);
    let long = "é".repeat(5000);
    assert_eq!(show_content(&long, 4096), "é".repeat(4096));
    assert_eq!(show_content(&"short".to_string(), 100), "short");
    assert_eq!(show_content(&String::new(), 100), "*No content*");
}

fn parse(s: &str) -> Option<u64> {
    assert!(duration_in_range(s));
    parse_duration(s)
}

#[test]
fn reminder_examples_parse() {
    assert_eq!(parse("30 minutes"), Some(1800));
    assert_eq!(parse("1 hour"), Some(3600));
    assert_eq!(parse("1 day"), Some(86400));
    assert_eq!(parse("30 seconds"), Some(30));
    assert_eq!(parse("30s"), Some(30));
    assert_eq!(parse("5 minutes"), Some(300));
    assert_eq!(parse("5m"), Some(300));
    assert_eq!(parse("2 hours"), Some(7200));
    assert_eq!(parse("2h"), Some(7200));
    assert_eq!(parse("1d"), Some(86400));
    assert_eq!(parse("3w"), Some(1_814_400));
}

#[test]
fn reminder_parsing_edge_cases() {
    assert_eq!(parse("  2H  "), Some(7200));
    assert_eq!(parse("5 mins"), Some(300));
    assert_eq!(parse("2 hrs"), Some(7200));
    assert_eq!(parse("1 week"), Some(604800));
    assert_eq!(parse("2 h"), Some(7200));
    assert_eq!(parse("soon"), None);
    assert_eq!(parse("5 fortnights"), None);
    assert_eq!(parse("1 2 3"), None);
    assert_eq!(parse(""), None);
    assert_eq!(parse("-5m"), None);
}

#[test]
fn oversized_durations_are_out_of_range() {
    assert!(!duration_in_range("99999999999999999w"));
    assert!(duration_in_range("nonsense"));
}

#[test]
fn reminder_window() {
    assert_eq!(check_reminder_secs(9), Err(ReminderTimeError::TooSoon));
    assert_eq!(check_reminder_secs(10), Ok(()));
    assert_eq!(check_reminder_secs(2_592_000), Ok(()));
    assert_eq!(check_reminder_secs(2_592_001), Err(ReminderTimeError::TooLate));
}

#[test]
fn durations_in_words() {
    assert_eq!(format_duration(1), "1 second");
    assert_eq!(format_duration(45), "45 seconds");
    assert_eq!(format_duration(60), "1 minute");
    assert_eq!(format_duration(1800), "30 minutes");
    assert_eq!(format_duration(3600), "1 hour");
    assert_eq!(format_duration(5400), "1 hour and 30 minutes");
    assert_eq!(format_duration(86400), "1 day");
    assert_eq!(format_duration(2 * 86400 + 3 * 3600), "2 days and 3 hours");
}

#[test]
fn written_durations_read_back_as_phrased() {
    for (unit, single, max) in [("seconds", "second", 59u64), ("minutes", "minute", 59), ("hours", "hour", 23), ("days", "day", 400)] {
        for n in 1..=max {
            let phrase = format!("{} {}", n, unit);
            let secs = parse_duration(&phrase).unwrap();
            let expected = format!("{} {}{}", n, single, if n == 1 { "" } else { "s" });
            assert_eq!(format_duration(secs), expected);
        }
    }
    let days = u64::MAX / 86400;
    let phrase = format!("{} days", days);
    assert_eq!(format_duration(parse_duration(&phrase).unwrap()), format!("{} days", days));
}

#[test]
fn reading_a_duration_tells_the_three_outcomes_apart() {
    assert_eq!(read_duration(" 2 Hours "), DurationReading::Seconds(7200));
    assert_eq!(read_duration("soon"), DurationReading::NotADuration);
    assert_eq!(read_duration("18446744073709551615 weeks"), DurationReading::TooLong);
}

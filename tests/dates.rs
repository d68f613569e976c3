use chrono::TimeZone;
use furaffinity::{parse_date, strip_day_suffixes};

fn utc_seconds(y: i32, mo: u32, d: u32, h: u32, mi: u32, s: u32) -> i64 {
    chrono::Utc.with_ymd_and_hms(y, mo, d, h, mi, s).unwrap().timestamp()
}

#[test]
fn test_parse_date() {
    let parsed = parse_date("June 17, 2025 12:00:00 PM").unwrap();
    assert_eq!(parsed.seconds, utc_seconds(2025, 6, 17, 17, 0, 0));
}

#[test]
fn date_with_ordinal_and_no_seconds() {
    let parsed = parse_date("Mar 23rd, 2019 12:46 AM").unwrap();
    assert_eq!(parsed.seconds, utc_seconds(2019, 3, 23, 5, 46, 0));
}

#[test]
fn date_full_month_without_seconds() {
    let parsed = parse_date("April 1st, 2020 11:05 PM").unwrap();
    assert_eq!(parsed.seconds, utc_seconds(2020, 4, 2, 4, 5, 0));
}

#[test]
fn date_parse_is_repeatable() {
    let a = parse_date("Mar 23rd, 2019 12:46 AM").unwrap();
    let b = parse_date("Mar 23rd, 2019 12:46 AM").unwrap();
    assert_eq!(a, b);
}

#[test]
fn malformed_date_is_not_retryable() {
    let err = parse_date("yesterday at noon").unwrap_err();
    assert_eq!(err.message, "unable to parse date");
    assert!(!err.retry);
    let err = parse_date("2019-03-23 00:46").unwrap_err();
    assert!(!err.retry);
}

#[test]
fn ordinal_suffixes_are_stripped() {
    assert_eq!(strip_day_suffixes("1st"), "1");
    assert_eq!(strip_day_suffixes("22nd"), "22");
    assert_eq!(strip_day_suffixes("13th"), "13");
    assert_eq!(strip_day_suffixes("3rd"), "3");
    assert_eq!(strip_day_suffixes("Mar 23rd, 2019 12:46 AM"), "Mar 23, 2019 12:46 AM");
    assert_eq!(strip_day_suffixes("August 31st, 2020"), "August 31, 2020");
}

#[test]
fn ordinal_stripping_is_idempotent() {
    for day in 1..=31 {
        let suffix = match day {
            1 | 21 | 31 => "st",
            2 | 22 => "nd",
            3 | 23 => "rd",
            _ => "th",
        };
        let text = format!("Jan {}{}, 2020", day, suffix);
        let once = strip_day_suffixes(&text);
        assert_eq!(once, format!("Jan {}, 2020", day));
        assert_eq!(strip_day_suffixes(&once), once);
    }
}

#[test]
fn words_without_a_day_keep_their_letters() {
    assert_eq!(strip_day_suffixes("August"), "August");
    assert_eq!(strip_day_suffixes("the 1st and 2nd"), "the 1 and 2");
}

#[test]
fn suffix_after_a_longer_number_stays() {
    assert_eq!(strip_day_suffixes("2019th"), "2019th");
    assert_eq!(strip_day_suffixes("123rd"), "123rd");
    assert_eq!(strip_day_suffixes("Mar 23, 2019nd 12:46 AM"), "Mar 23, 2019nd 12:46 AM");
    let err = parse_date("Mar 23, 2019nd 12:46 AM").unwrap_err();
    assert!(!err.retry);
}

#[test]
fn day_without_suffix_is_unchanged() {
    assert_eq!(strip_day_suffixes("Mar 23, 2019 12:46 AM"), "Mar 23, 2019 12:46 AM");
    assert_eq!(strip_day_suffixes("June 1, 2025"), "June 1, 2025");
}

#[test]
fn suffix_inside_a_date_gives_the_same_instant() {
    for (ord, plain) in [
        ("Mar 23rd, 2019 12:46 AM", "Mar 23, 2019 12:46 AM"),
        ("June 1st, 2025 12:00:00 PM", "June 1, 2025 12:00:00 PM"),
        ("Aug 2nd, 2021 9:05 PM", "Aug 2, 2021 9:05 PM"),
        ("Dec 11th, 2020 11:59:59 PM", "Dec 11, 2020 11:59:59 PM"),
    ] {
        assert_eq!(parse_date(ord).unwrap(), parse_date(plain).unwrap());
    }
}

use salieri::calendar::{
    current_day_key, day_key_at, get_current_logical_day_key, logical_day_instant, today_key,
    try_parse_date, CALENDAR_FLOOR, DAYS_BACK_MAX,
};
use salieri::commands::command_date;

fn is_day_key(key: &str) -> bool {
    let bytes = key.as_bytes();
    bytes.len() == 10
        && bytes[4] == b'-'
        && bytes[7] == b'-'
        && bytes.iter().enumerate().all(|(i, b)| i == 4 || i == 7 || b.is_ascii_digit())
}

#[test]
fn dates_are_read_in_each_format() {
    assert_eq!(try_parse_date("06/01/2025"), Some("2025-06-01".to_string()));
    // a format with a long year comes first, and reads a short year as it stands
    assert_eq!(try_parse_date("06/01/25"), Some("0025-06-01".to_string()));
    assert_eq!(try_parse_date("2025-06-01"), Some("2025-06-01".to_string()));
    assert_eq!(try_parse_date("06-01-2025"), Some("2025-06-01".to_string()));
    // year-month-day comes before month-day-year
    assert_eq!(try_parse_date("06-01-25"), Some("0006-01-25".to_string()));
    assert_eq!(try_parse_date("12/31/1999"), Some("1999-12-31".to_string()));
    assert_eq!(try_parse_date("2/9/2024"), Some("2024-02-09".to_string()));
}

#[test]
fn what_is_no_date_is_not_read() {
    assert_eq!(try_parse_date("write"), None);
    assert_eq!(try_parse_date(""), None);
    assert_eq!(try_parse_date("02/30/2025"), None);
    assert_eq!(try_parse_date("13/01/2025"), None);
    assert_eq!(try_parse_date("2025-06"), None);
    assert_eq!(try_parse_date("2025/06/01"), None);
}

#[test]
fn the_logical_day_lags_four_hours_and_whole_days() {
    assert_eq!(logical_day_instant(0, 0), Some(-14400));
    assert_eq!(logical_day_instant(1_750_000_000, 0), Some(1_749_985_600));
    assert_eq!(logical_day_instant(1_750_000_000, 1), Some(1_749_899_200));
    assert_eq!(logical_day_instant(1_750_000_000, -2), Some(1_750_158_400));
    assert_eq!(logical_day_instant(i64::MIN, 0), None);
    assert_eq!(logical_day_instant(i64::MIN + 14400, 0), Some(i64::MIN));
    assert_eq!(logical_day_instant(0, i64::MAX), None);
    assert_eq!(logical_day_instant(0, i64::MIN), None);
    assert_eq!(logical_day_instant(i64::MAX, -1), None);
}

#[test]
fn day_keys_are_written_year_month_day() {
    let key = day_key_at(1_750_000_000, 0).unwrap();
    assert!(is_day_key(&key), "{}", key);
    // 2025-06-15 11:06:40 UTC, less four hours: the 14th or 15th, wherever the machine stands
    assert!(key == "2025-06-14" || key == "2025-06-15", "{}", key);
    let before = day_key_at(1_750_000_000, 10).unwrap();
    assert!(before == "2025-06-04" || before == "2025-06-05", "{}", before);
    assert!(before < key);
}

#[test]
fn beyond_the_calendar_there_is_no_day() {
    assert_eq!(day_key_at(0, i64::MAX), None);
    assert_eq!(day_key_at(i64::MAX, 0), None);
    assert_eq!(today_key(i64::MAX), None);
    assert_eq!(get_current_logical_day_key(Some(i64::MIN)), None);
}

#[test]
fn today_has_a_key() {
    let today = today_key(0).unwrap();
    assert!(is_day_key(&today), "{}", today);
    let yesterday = get_current_logical_day_key(Some(1)).unwrap();
    assert!(yesterday < today);
    assert!(is_day_key(&get_current_logical_day_key(None).unwrap()));
}

#[test]
fn the_clock_is_read_in_words() {
    let text = command_date().unwrap();
    assert_eq!(text.len(), 19);
    assert_eq!(&text[4..5], "-");
    assert_eq!(&text[10..11], " ");
    assert_eq!(&text[13..14], ":");
}

fn ends_like_a_day(key: &str) -> bool {
    let chars: Vec<char> = key.chars().collect();
    let n = chars.len();
    n >= 10
        && chars[n - 6] == '-'
        && chars[n - 3] == '-'
        && (n - 10..n).all(|i| i == n - 6 || i == n - 3 || chars[i].is_ascii_digit())
}

#[test]
fn keys_of_far_years_are_written_year_month_day_too() {
    // the year 10000 and the year before the year 0
    let late = day_key_at(253_402_300_800 + 86_400, 0).unwrap();
    assert!(late.starts_with("+10000-01-0"), "{}", late);
    assert!(ends_like_a_day(&late));
    let early = day_key_at(-62_167_219_200 - 10 * 86_400, 0).unwrap();
    assert!(early.starts_with("-0001-12-"), "{}", early);
    assert!(ends_like_a_day(&early));
    assert!(ends_like_a_day(&today_key(0).unwrap()));
}

#[test]
fn an_instant_that_fits_but_lies_beyond_the_calendar_has_no_day() {
    assert_eq!(logical_day_instant(9_000_000_000_000, 0), Some(8_999_999_985_600));
    assert_eq!(day_key_at(9_000_000_000_000, 0), None);
    assert_eq!(day_key_at(-9_000_000_000_000, 0), None);
    assert!(day_key_at(8_000_000_000_000, 0).is_some());
    assert!(day_key_at(-8_000_000_000_000, 0).is_some());
}

#[test]
fn the_clock_text_is_a_day_and_a_time() {
    let text = command_date().unwrap();
    let chars: Vec<char> = text.chars().collect();
    let n = chars.len();
    assert!(n >= 19);
    assert!(ends_like_a_day(&text[..text.len() - 9]));
    assert_eq!(chars[n - 9], ' ');
    assert_eq!(chars[n - 6], ':');
    assert_eq!(chars[n - 3], ':');
    assert!((n - 8..n).all(|i| i == n - 6 || i == n - 3 || chars[i].is_ascii_digit()));
}

#[test]
fn the_days_within_reach_always_have_keys() {
    assert_eq!(DAYS_BACK_MAX, 90_000_000);
    assert_eq!(CALENDAR_FLOOR, -8_000_000_000_000);
    assert!(is_day_key(&current_day_key()));
    assert_eq!(Some(current_day_key()), today_key(0));
    for offset in [0, 1, 2, 365, 1_000_000, DAYS_BACK_MAX] {
        let key = today_key(offset).unwrap();
        assert!(ends_like_a_day(&key), "{}", key);
        assert!(ends_like_a_day(&get_current_logical_day_key(Some(offset)).unwrap()));
    }
    assert_eq!(get_current_logical_day_key(None), today_key(0));
}

#[test]
fn the_farthest_day_back_from_the_first_reading_lies_above_the_floor() {
    assert_eq!(logical_day_instant(0, DAYS_BACK_MAX), Some(-7_776_000_014_400));
    assert!(-7_776_000_014_400 >= CALENDAR_FLOOR);
    assert!(day_key_at(0, DAYS_BACK_MAX).is_some());
    assert!(day_key_at(CALENDAR_FLOOR, -1).is_some());
    assert!(day_key_at(CALENDAR_FLOOR + 14_400, 0).is_some());
}

#[test]
fn going_back_a_day_gives_the_day_before() {
    let today = day_key_at(1_750_000_000, 0).unwrap();
    let yesterday = day_key_at(1_750_000_000, 1).unwrap();
    assert_ne!(today, yesterday);
    assert_eq!(day_key_at(1_750_000_000 - 86_400, 0).unwrap(), yesterday);
    assert!(get_current_logical_day_key(Some(1)).unwrap() < today_key(0).unwrap());
}

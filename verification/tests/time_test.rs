use latte_album::extraction::time::{TimeUtils, TimeValidationError};

fn secs(y: i32, m: u32, d: u32, h: u32, mi: u32, s: u32) -> i64 {
    chrono::NaiveDate::from_ymd_opt(y, m, d)
        .unwrap()
        .and_hms_opt(h, mi, s)
        .unwrap()
        .and_utc()
        .timestamp()
}

#[test]
fn test_valid_exif_timestamp() {
    let valid_time = secs(2024, 6, 15, 12, 0, 0);
    assert!(TimeUtils::is_valid_exif_timestamp(valid_time));

    // Old timestamp (before 1900)
    let old_time = secs(1800, 1, 1, 0, 0, 0);
    assert!(!TimeUtils::is_valid_exif_timestamp(old_time));
}

#[test]
fn test_valid_create_time() {
    let past_time = secs(2024, 1, 1, 0, 0, 0);
    assert!(TimeUtils::is_valid_create_time(past_time));
}

#[test]
fn test_get_effective_sort_time() {
    let exif = secs(2024, 6, 15, 12, 0, 0);
    let create = secs(2024, 6, 16, 0, 0, 0);
    let modify = secs(2024, 6, 17, 0, 0, 0);

    // EXIF has priority
    let result = TimeUtils::get_effective_sort_time(Some(exif), Some(create), Some(modify));
    assert_eq!(result, Some(exif));

    // Without EXIF, use create
    let result = TimeUtils::get_effective_sort_time(None, Some(create), Some(modify));
    assert_eq!(result, Some(create));

    // Without EXIF and create, use modify
    let result = TimeUtils::get_effective_sort_time(None, None, Some(modify));
    assert_eq!(result, Some(modify));

    // None available
    let result = TimeUtils::get_effective_sort_time(None, None, None);
    assert!(result.is_none());
}

#[test]
fn test_parse_exif_datetime() {
    let result = TimeUtils::parse_exif_datetime("2024:06:15 12:30:45");
    assert!(result.is_some());

    let result = TimeUtils::parse_exif_datetime("invalid");
    assert!(result.is_none());
}

#[test]
fn test_format_functions() {
    let time = secs(2024, 6, 15, 12, 30, 45);

    assert_eq!(TimeUtils::format_for_display(time), Some("2024-06-15 12:30:45".to_string()));
    assert_eq!(TimeUtils::format_iso8601(time), Some("2024-06-15T12:30:45".to_string()));
    assert_eq!(TimeUtils::format_date_only(time), Some("2024-06-15".to_string()));
}

#[test]
fn test_parse_date_filter() {
    assert_eq!(TimeUtils::parse_date_filter("2024-06-15"), Some("2024-06-15%".to_string()));
    assert_eq!(TimeUtils::parse_date_filter("invalid"), None);
    assert_eq!(TimeUtils::parse_date_filter("2024-6-15"), None);
}

#[test]
fn parse_exif_datetime_gives_the_instant() {
    assert_eq!(
        TimeUtils::parse_exif_datetime("2024:06:15 12:30:45"),
        Some(secs(2024, 6, 15, 12, 30, 45))
    );
    assert_eq!(TimeUtils::parse_exif_datetime("2024:13:15 12:30:45"), None);
}

#[test]
fn validity_at_a_fixed_instant() {
    let now = secs(2024, 6, 15, 12, 0, 0);
    assert!(TimeUtils::is_valid_exif_timestamp_at(secs(1900, 1, 1, 0, 0, 0), now));
    assert!(!TimeUtils::is_valid_exif_timestamp_at(secs(1899, 12, 31, 23, 59, 59), now));
    assert!(TimeUtils::is_valid_exif_timestamp_at(secs(2025, 12, 31, 23, 59, 59), now));
    assert!(!TimeUtils::is_valid_exif_timestamp_at(secs(2026, 1, 1, 0, 0, 0), now));
    assert!(!TimeUtils::is_valid_exif_timestamp_at(i64::MAX, now));
    assert!(TimeUtils::is_valid_create_time_at(now, now));
    assert!(!TimeUtils::is_valid_create_time_at(now + 1, now));
    assert_eq!(
        TimeUtils::get_effective_sort_time_at(Some(secs(1800, 1, 1, 0, 0, 0)), Some(now + 1), Some(5), now),
        Some(5)
    );
}

#[test]
fn formats_outside_the_calendar_give_nothing() {
    assert_eq!(TimeUtils::format_date_only(i64::MAX), None);
    assert_eq!(TimeUtils::format_date_only(0), Some("1970-01-01".to_string()));
}

#[test]
fn date_filter_counts_bytes() {
    // Ten characters, but more than ten bytes.
    assert_eq!(TimeUtils::parse_date_filter("2024-06-1\u{e9}"), None);
    assert_eq!(TimeUtils::parse_date_filter("abcd-ef-gh"), Some("abcd-ef-gh%".to_string()));
}

#[test]
fn time_validation_error_messages() {
    assert_eq!(
        TimeValidationError::InvalidYear(1800).message(),
        "Year out of valid range (1900-current year+1): 1800"
    );
    assert_eq!(
        TimeValidationError::InvalidYear(-5).message(),
        "Year out of valid range (1900-current year+1): -5"
    );
    assert_eq!(
        TimeValidationError::FutureTimestamp(42).message(),
        "Future timestamp not allowed: 42"
    );
    assert_eq!(
        TimeValidationError::FutureTimestamp(i64::MIN).message(),
        "Future timestamp not allowed: -9223372036854775808"
    );
}

#[test]
fn test_is_valid_exif_time() {
    let valid_time = secs(2024, 6, 15, 12, 0, 0);
    assert!(TimeUtils::is_valid_exif_timestamp(valid_time));

    let old_time = secs(1800, 1, 1, 0, 0, 0);
    assert!(!TimeUtils::is_valid_exif_timestamp(old_time));
}

#[test]
fn test_is_valid_create_time() {
    let past_time = secs(2024, 1, 1, 0, 0, 0);
    assert!(TimeUtils::is_valid_create_time(past_time));
}

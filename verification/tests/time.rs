use eam::time::{
    normalize_epoch, parse_date, parse_datetime, parse_month_date, parse_rfc3339, unix_from_civil,
};

#[test]
fn civil_conversion_matches_known_instants() {
    assert_eq!(unix_from_civil(1970, 1, 1, 0, 0, 0), 0);
    assert_eq!(unix_from_civil(2023, 6, 9, 10, 11, 16), 1686305476);
    assert_eq!(unix_from_civil(2000, 2, 29, 12, 0, 0), 951825600);
    assert_eq!(unix_from_civil(2024, 12, 31, 23, 59, 59), 1735689599);
    assert_eq!(unix_from_civil(2025, 1, 1, 0, 0, 0), 1735689600);
}

#[test]
fn datetime_strings_parse_as_utc() {
    assert_eq!(parse_datetime("2023-06-09 10:11:16"), Some(1686305476));
    assert_eq!(parse_datetime("1970-01-01 00:00:00"), Some(0));
    assert_eq!(parse_datetime("2023-06-09T10:11:16"), None);
    assert_eq!(parse_datetime("2023-6-9 10:11:16"), None);
    assert_eq!(parse_datetime("2023-13-09 10:11:16"), None);
    assert_eq!(parse_datetime("2023-02-29 10:11:16"), None);
    assert_eq!(parse_datetime("2023-06-09 24:00:00"), None);
    assert_eq!(parse_datetime(""), None);
}

#[test]
fn bare_dates_parse_as_midnight() {
    assert_eq!(parse_date("2025-01-01"), Some(1735689600));
    assert_eq!(parse_date("2023-06-09"), Some(1686268800));
    assert_eq!(parse_date("2023-06-31"), None);
    assert_eq!(parse_date("2023/06/09"), None);
}

#[test]
fn rfc3339_instants_parse_with_offsets() {
    assert_eq!(parse_rfc3339("2023-06-09T10:11:16Z"), Some(1686305476));
    assert_eq!(parse_rfc3339("2023-06-09T10:11:16+00:00"), Some(1686305476));
    // Two hours east of UTC: the UTC instant is two hours earlier.
    assert_eq!(parse_rfc3339("2023-06-09T10:11:16+02:00"), Some(1686305476 - 7200));
    assert_eq!(parse_rfc3339("2023-06-09T10:11:16-07:00"), Some(1686305476 + 25200));
    // Fractions are truncated.
    assert_eq!(parse_rfc3339("2023-06-09T10:11:16.123Z"), Some(1686305476));
    assert_eq!(parse_rfc3339("2023-06-09T10:11:16.Z"), None);
    assert_eq!(parse_rfc3339("2023-06-09T10:11:16"), None);
    assert_eq!(parse_rfc3339("2023-06-09 10:11:16Z"), None);
}

#[test]
fn epoch_numbers_normalize_to_seconds() {
    assert_eq!(normalize_epoch(1686305476), 1686305476);
    assert_eq!(normalize_epoch(1686305476123), 1686305476);
    assert_eq!(normalize_epoch(9999999999), 9999999999);
    assert_eq!(normalize_epoch(10000000000), 10000000);
    assert_eq!(normalize_epoch(0), 0);
}

#[test]
fn month_name_dates_parse_as_midnight() {
    assert_eq!(parse_month_date("June 9, 2023"), Some(1686268800));
    assert_eq!(parse_month_date("January 1, 2025"), Some(1735689600));
    assert_eq!(parse_month_date("June 09, 2023"), Some(1686268800));
    assert_eq!(parse_month_date("Juny 9, 2023"), None);
    assert_eq!(parse_month_date("June 9 2023"), None);
    assert_eq!(parse_month_date("June 31, 2023"), None);
    assert_eq!(parse_month_date(""), None);
}

use awsdeck::calendar::{civil_from_days, days_from_civil};
use awsdeck::util::{fmt_epoch_millis, fuzzy_score, parse_datetime, parse_duration};

#[test]
fn formats_epoch_millis_as_utc() {
    // 1700000000000 ms = 2023-11-14 22:13:20 UTC
    assert_eq!(fmt_epoch_millis(1_700_000_000_000), "2023-11-14 22:13:20Z");
}

#[test]
fn parses_durations() {
    assert_eq!(parse_duration("30m"), Some(30 * 60_000));
    assert_eq!(parse_duration("6h"), Some(6 * 3_600_000));
    assert_eq!(parse_duration("2d"), Some(2 * 86_400_000));
    assert_eq!(parse_duration("1w"), Some(604_800_000));
    assert_eq!(parse_duration(" 12 h "), Some(12 * 3_600_000));
    assert_eq!(parse_duration("0h"), None, "n must be > 0");
    assert_eq!(parse_duration("h"), None, "the number is missing");
    assert_eq!(parse_duration("12"), None, "the unit is missing");
    assert_eq!(parse_duration("3y"), None, "no such unit");
}

#[test]
fn parses_datetimes_utc() {
    // 2023-11-14 22:13:20 UTC == 1_700_000_000 s
    assert_eq!(parse_datetime("2023-11-14T22:13:20"), Some(1_700_000_000_000));
    assert_eq!(parse_datetime("2023-11-14 22:13:20"), Some(1_700_000_000_000));
    // A date alone is midnight UTC.
    assert_eq!(parse_datetime("2023-11-14"), Some(1_699_920_000_000));
    // Without seconds.
    assert_eq!(parse_datetime("2023-11-14T22:13"), Some(1_699_999_980_000));
    assert!(parse_datetime("2023-13-01").is_none(), "no such month");
    assert!(parse_datetime("2023-11-14T25:00").is_none(), "no such hour");
    assert!(parse_datetime("not-a-date").is_none());
}

#[test]
fn civil_days_roundtrip() {
    for &days in &[0i64, 1, -1, 19_876, 100_000, -3_000] {
        let (y, m, d) = civil_from_days(days);
        assert_eq!(days_from_civil(y, m as i64, d as i64), days);
    }
}

#[test]
fn fuzzy_matches_subsequence_across_separators() {
    assert!(fuzzy_score("orders-api", "ordersapi").is_some());
    assert!(fuzzy_score("orders-api", "ordapi").is_some());
    assert!(fuzzy_score("/aws/lambda/Orders", "orders").is_some()); // whatever the case
}

#[test]
fn fuzzy_rejects_non_subsequence() {
    assert!(fuzzy_score("payments", "xyz").is_none());
    assert!(fuzzy_score("abc", "abcd").is_none());
}

#[test]
fn fuzzy_empty_needle_matches_all() {
    assert_eq!(fuzzy_score("anything", ""), Some(0));
}

#[test]
fn fuzzy_ranks_boundary_above_midword() {
    let boundary = fuzzy_score("orders-api", "ord").unwrap();
    let midword = fuzzy_score("reordered", "ord").unwrap();
    assert!(boundary > midword, "boundary {boundary} must beat midword {midword}");
}

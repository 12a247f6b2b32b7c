use awsdeck::calendar::{civil_from_days, days_from_civil, days_in_month, floor_div};
use awsdeck::util::{case_variants, fmt_clock_millis, fmt_epoch_millis, fuzzy_score, lambda_log_group_from_arn};
use awsdeck::util::{parse_datetime, parse_duration, ranked};

#[test]
fn the_epoch_starts_in_1970() {
    assert_eq!(civil_from_days(0), (1970, 1, 1));
    assert_eq!(days_from_civil(1970, 1, 1), 0);
    assert_eq!(civil_from_days(-1), (1969, 12, 31));
}

#[test]
fn every_day_of_eight_centuries_comes_back() {
    let mut z: i64 = -146_097;
    let mut before = civil_from_days(z - 1);
    while z <= 146_097 {
        let (y, m, d) = civil_from_days(z);
        assert_eq!(days_from_civil(y, m as i64, d as i64), z);
        assert!((y, m, d) > before, "days follow each other");
        before = (y, m, d);
        z += 1;
    }
}

#[test]
fn leap_days_exist_in_leap_years_only() {
    let feb29 = days_from_civil(2000, 2, 29);
    assert_eq!(civil_from_days(feb29), (2000, 2, 29));
    assert_eq!(civil_from_days(days_from_civil(1900, 2, 28) + 1), (1900, 3, 1));
    assert_eq!(civil_from_days(days_from_civil(2024, 2, 28) + 1), (2024, 2, 29));
}

#[test]
fn division_goes_down() {
    assert_eq!(floor_div(-1, 400), -1);
    assert_eq!(floor_div(-400, 400), -1);
    assert_eq!(floor_div(399, 400), 0);
}

#[test]
fn instants_before_the_epoch_are_formatted() {
    assert_eq!(fmt_epoch_millis(-1000), "1969-12-31 23:59:59Z");
    assert_eq!(fmt_clock_millis(45_296_000), "12:34:56");
    assert_eq!(fmt_epoch_millis(1_750_000_000_000), "2025-06-15 15:06:40Z");
}

#[test]
fn instants_are_read_as_they_are_written() {
    for ms in [0i64, 1_750_000_000_000, 951_782_399_000, -62_167_219_200_000] {
        let shown = fmt_epoch_millis(ms + 321);
        assert_eq!(parse_datetime(shown.trim_end_matches('Z')), Some(ms));
    }
}

#[test]
fn durations_that_do_not_fit_are_refused() {
    assert_eq!(parse_duration("9223372036854775807w"), None);
    assert_eq!(parse_duration("15250284452w"), Some(15_250_284_452 * 604_800_000));
    assert_eq!(parse_duration("15250284453w"), None);
    assert_eq!(parse_duration(" 5 min "), Some(300_000));
}

#[test]
fn ranking_puts_the_best_first_and_keeps_ties() {
    let scores = [Some(3), None, Some(7), Some(3), Some(7)];
    assert_eq!(ranked(5, "x", |i| scores[i]), [2, 4, 0, 3]);
    assert_eq!(ranked(2, "", |_| None), [0, 1]);
    assert!(ranked(2, "x", |_| None).is_empty());
}

#[test]
fn what_matches_holds_the_letters_in_order() {
    assert!(fuzzy_score("orders-api", "OA").is_some());
    assert!(fuzzy_score("orders-api", "ao").is_none());
    assert!(fuzzy_score("orders-api", "api").unwrap() > fuzzy_score("orders-xapi", "api").unwrap());
}

#[test]
fn spellings_are_listed_once() {
    assert_eq!(case_variants("order-api"), ["order-api", "ORDER-API", "Order-api", "Order-Api"]);
    assert_eq!(case_variants("Api"), ["Api", "api", "API"]);
    assert_eq!(case_variants("1"), ["1"]);
}

#[test]
fn functions_have_a_log_group() {
    let arn = "arn:aws:lambda:eu-west-1:1:function:orders";
    assert_eq!(lambda_log_group_from_arn(arn).as_deref(), Some("/aws/lambda/orders"));
    assert_eq!(lambda_log_group_from_arn(&format!("{arn}:7")).as_deref(), Some("/aws/lambda/orders"));
    assert_eq!(lambda_log_group_from_arn("orders").as_deref(), Some("/aws/lambda/orders"));
    assert_eq!(lambda_log_group_from_arn("arn:aws:states:::sqs"), None);
    assert_eq!(lambda_log_group_from_arn(""), None);
}

#[test]
fn a_day_that_its_month_does_not_have_is_no_date() {
    assert_eq!(parse_datetime("2023-02-30"), None);
    assert_eq!(parse_datetime("2023-02-29"), None);
    assert_eq!(parse_datetime("2023-04-31"), None);
    assert_eq!(parse_datetime("1900-02-29 10:00"), None);
    assert_eq!(parse_datetime("2023-01-32"), None);
    assert_eq!(parse_datetime("2024-02-29"), Some(1_709_164_800_000));
    assert_eq!(parse_datetime("2000-02-29"), Some(951_782_400_000));
    assert_eq!(parse_datetime("2023-12-31"), Some(1_703_980_800_000));
}

#[test]
fn months_have_their_days() {
    let lengths: Vec<i64> = (1..=12).map(|m| days_in_month(2023, m)).collect();
    assert_eq!(lengths, [31, 28, 31, 30, 31, 30, 31, 31, 30, 31, 30, 31]);
    assert_eq!(days_in_month(-4, 2), 29);
    assert_eq!(days_in_month(-100, 2), 28);
    assert_eq!(days_in_month(i64::MIN, 2), 29);
}

#[test]
fn days_beyond_the_calendar_are_counted_on() {
    assert_eq!(days_from_civil(2023, 2, 30), days_from_civil(2023, 3, 2));
    assert_eq!(days_from_civil(2023, 1, 0), days_from_civil(2022, 12, 31));
    assert_eq!(days_from_civil(1970, 13, 1), 365);
}

#[test]
fn earlier_matches_score_no_worse() {
    let early = fuzzy_score("orders", "ord").unwrap();
    assert!(early >= fuzzy_score("xyxyxyx-orders", "ord").unwrap());
    assert!(early > fuzzy_score("xyxyxyxorders", "ord").unwrap());
}

#[test]
fn the_clock_is_the_tail_of_the_instant() {
    for ms in [0i64, -1, 1_750_000_000_123] {
        let tail = format!("{}Z", fmt_clock_millis(ms));
        assert!(fmt_epoch_millis(ms).ends_with(&tail));
    }
}

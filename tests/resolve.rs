use time_cli::{resolve, resolve_strategies, strategies, try_strategy, Instant, ParseFailure, Strategy};

fn millis_of(s: &str) -> i64 {
    resolve_strategies(s).expect("should resolve").millis
}

#[test]
fn year_alone_is_first_of_january() {
    assert_eq!(millis_of("2023"), 1672531200 * 1000);
    assert_eq!(millis_of("1999"), 915148800 * 1000);
    assert_eq!(millis_of("2499"), 16693689600 * 1000);
    assert_eq!(millis_of("1901"), -2177452800 * 1000);
}

#[test]
fn year_on_the_lower_bound_falls_through_to_seconds() {
    // 1900-01-01 equals the lower bound, which the window excludes.
    assert_eq!(millis_of("1900"), 1900 * 1000);
}

#[test]
fn year_month_and_year_month_day() {
    assert_eq!(millis_of("202307"), 1688169600 * 1000);
    assert_eq!(millis_of("20230715"), 1689379200 * 1000);
}

#[test]
fn compact_hour_and_minute() {
    assert_eq!(millis_of("2023071510"), 1689415200 * 1000);
    assert_eq!(millis_of("202307151030"), 1689417000 * 1000);
}

#[test]
fn invalid_compact_date_is_read_as_seconds() {
    assert_eq!(millis_of("20230229"), 20230229 * 1000);
}

#[test]
fn rfc2822_with_offset_is_converted_to_utc() {
    assert_eq!(millis_of("Tue, 1 Jul 2003 10:52:37 +0200"), 1057049557 * 1000);
}

#[test]
fn rfc3339_with_offset_is_converted_to_utc() {
    assert_eq!(millis_of("2023-07-15T10:00:00+02:00"), 1689408000 * 1000);
    assert_eq!(millis_of("2023-07-15T10:00:00.250Z"), 1689415200 * 1000 + 250);
}

#[test]
fn iso_without_offset_is_utc() {
    assert_eq!(millis_of("2023-07-15T10:00:00"), 1689415200 * 1000);
    assert_eq!(millis_of("2023-07-15T10:00"), 1689415200 * 1000);
}

#[test]
fn leap_second_is_one_second_past_fifty_nine() {
    assert_eq!(millis_of("2016-12-31T23:59:60"), 1483228799 * 1000 + 1000);
}

#[test]
fn empty_and_garbage_fail() {
    assert_eq!(resolve_strategies(""), Err(ParseFailure));
    assert_eq!(resolve_strategies("not-a-date"), Err(ParseFailure));
    assert_eq!(resolve("", None), Err(ParseFailure));
    assert_eq!(resolve("not-a-date", None), Err(ParseFailure));
}

#[test]
fn seconds_inside_the_window() {
    assert_eq!(millis_of("1688000000"), 1688000000 * 1000);
    assert_eq!(millis_of("-1"), -1000);
    assert_eq!(millis_of("16725225599"), 16725225599 * 1000);
}

#[test]
fn milliseconds_outside_the_window() {
    assert_eq!(millis_of("99999999999999"), 99999999999999);
    assert_eq!(millis_of("16725225600"), 16725225600);
    assert_eq!(millis_of("-5000000000"), -5000000000);
    assert_eq!(millis_of("9223372036854775807"), i64::MAX);
    assert_eq!(millis_of("-9223372036854775808"), i64::MIN);
}

#[test]
fn integer_too_large_for_64_bits_fails_without_fallback() {
    assert_eq!(resolve_strategies("99999999999999999999"), Err(ParseFailure));
}

#[test]
fn float_fallback_comes_last() {
    assert_eq!(resolve("1688000000.5", Some(1688000000500)), Ok(Instant::from_millis(1688000000500)));
    assert_eq!(resolve("1688000000", Some(7)), Ok(Instant::from_millis(1688000000000)));
    assert_eq!(resolve("2023", Some(7)), Ok(Instant::from_millis(1672531200000)));
}

#[test]
fn strategies_are_tried_in_fixed_order() {
    assert_eq!(
        strategies(),
        vec![
            Strategy::Year,
            Strategy::YearMonth,
            Strategy::YearMonthDay,
            Strategy::YearMonthDayHour,
            Strategy::YearMonthDayHourMinute,
            Strategy::Rfc2822,
            Strategy::Rfc3339,
            Strategy::IsoSeconds,
            Strategy::IsoMinutes,
            Strategy::EpochInteger,
        ]
    );
}

#[test]
fn single_strategies() {
    assert_eq!(try_strategy(Strategy::EpochInteger, "2023"), Ok(Instant::from_millis(2023000)));
    assert_eq!(try_strategy(Strategy::Year, "202307"), Err(ParseFailure));
    assert_eq!(try_strategy(Strategy::Rfc3339, "2023-07-15T10:00:00"), Err(ParseFailure));
}

#[test]
fn rfc3339_round_trip() {
    for text in ["2023", "202307", "1688000000", "Tue, 1 Jul 2003 10:52:37 +0200", "99999999999999", "2016-12-31T23:59:60"] {
        let t = resolve_strategies(text).unwrap();
        let dt = chrono::DateTime::from_timestamp_millis(t.millis).unwrap();
        let formatted = dt.to_rfc3339();
        assert_eq!(try_strategy(Strategy::Rfc3339, &formatted), Ok(t));
    }
}

#[test]
fn seconds_round_towards_negative_infinity() {
    assert_eq!(Instant::from_millis(1999).seconds(), 1);
    assert_eq!(Instant::from_millis(-1).seconds(), -1);
    assert_eq!(Instant::from_millis(-1000).seconds(), -1);
    assert_eq!(Instant::from_millis(-1001).seconds(), -2);
}

#[test]
fn leap_second_onto_the_upper_bound_fails() {
    assert_eq!(resolve_strategies("2499-12-31T23:59:60"), Err(ParseFailure));
    assert_eq!(resolve_strategies("2500-01-01T00:00:00"), Err(ParseFailure));
    assert_eq!(millis_of("2499-12-31T23:59:59"), 16725225599 * 1000);
}

use time_cli::{civil_epoch_seconds, complete_fields, days_from_civil, fields_to_instant, CalendarFields, Instant, ParseFailure};

fn fields(year: Option<i32>) -> CalendarFields {
    CalendarFields { year, month: None, day: None, hour_div_12: None, hour_mod_12: None, minute: None, second: None }
}

#[test]
fn days_from_civil_known_dates() {
    assert_eq!(days_from_civil(1970, 1, 1), 0);
    assert_eq!(days_from_civil(2000, 3, 1), 951868800 / 86400);
    assert_eq!(days_from_civil(1900, 1, 1), -2208988800 / 86400);
    assert_eq!(days_from_civil(-1, 12, 31), -719529);
}

#[test]
fn civil_seconds_known_time() {
    assert_eq!(civil_epoch_seconds(2003, 7, 1, 8, 52, 37), 1057049557);
}

#[test]
fn missing_fields_take_defaults() {
    assert_eq!(complete_fields(fields(Some(2023))), Some((2023, 1, 1, 0, 0, 0)));
    let mut f = fields(Some(2023));
    f.hour_div_12 = Some(1);
    f.hour_mod_12 = Some(3);
    assert_eq!(complete_fields(f), Some((2023, 1, 1, 15, 0, 0)));
}

#[test]
fn fields_without_year_fail() {
    assert_eq!(fields_to_instant(fields(None)), Err(ParseFailure));
}

#[test]
fn fields_out_of_range_fail() {
    let mut f = fields(Some(2023));
    f.month = Some(13);
    assert_eq!(fields_to_instant(f), Err(ParseFailure));
    let mut g = fields(Some(2023));
    g.month = Some(2);
    g.day = Some(29);
    assert_eq!(fields_to_instant(g), Err(ParseFailure));
    let mut h = fields(Some(2023));
    h.hour_mod_12 = Some(3);
    assert_eq!(fields_to_instant(h), Err(ParseFailure));
}

#[test]
fn fields_on_the_bounds_fail() {
    assert_eq!(fields_to_instant(fields(Some(1900))), Err(ParseFailure));
    assert_eq!(fields_to_instant(fields(Some(2500))), Err(ParseFailure));
    assert_eq!(fields_to_instant(fields(Some(2499))), Ok(Instant::from_millis(16693689600 * 1000)));
}

#[test]
fn leap_day_in_leap_year() {
    let mut f = fields(Some(2024));
    f.month = Some(2);
    f.day = Some(29);
    assert_eq!(fields_to_instant(f), Ok(Instant::from_millis(1709164800 * 1000)));
}

#[test]
fn leap_second_fields_on_the_upper_bound_fail() {
    let f = CalendarFields {
        year: Some(2499),
        month: Some(12),
        day: Some(31),
        hour_div_12: Some(1),
        hour_mod_12: Some(11),
        minute: Some(59),
        second: Some(60),
    };
    assert_eq!(fields_to_instant(f), Err(ParseFailure));
    let g = CalendarFields { second: Some(59), ..f };
    assert_eq!(fields_to_instant(g), Ok(Instant::from_millis(16725225599 * 1000)));
}

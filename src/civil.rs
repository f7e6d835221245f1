use crate::instant::{in_window, outcome, Instant, ParseFailure, LOWER_BOUND, UPPER_BOUND};
use vstd::arithmetic::div_mod::{
    lemma_fundamental_div_mod, lemma_fundamental_div_mod_converse, lemma_mod_bound,
};
use vstd::prelude::*;

verus! {

/// The calendar fields that a pattern set, each absent where the pattern
/// does not hold it. The hour is kept as chrono keeps it: a half of the day
/// (0 before noon, 1 after) and an hour within that half.
#[derive(Clone, Copy, Debug)]
pub struct CalendarFields {
    pub year: Option<i32>,
    pub month: Option<u32>,
    pub day: Option<u32>,
    pub hour_div_12: Option<u32>,
    pub hour_mod_12: Option<u32>,
    pub minute: Option<u32>,
    pub second: Option<u32>,
}

/// What chrono's strftime parser reads from `text` against `pattern`:
/// the fields it set, or nothing where the text does not match.
pub uninterp spec fn pattern_fields(pattern: Seq<char>, text: Seq<char>) -> Option<CalendarFields>;

/// Relies on chrono::format::parse with StrftimeItems: reads `text` against
/// the strftime `pattern` and reports the fields that were set. A pattern
/// that opens with `%Y` needs at least one digit, so empty text fails.
#[verifier::external_body]
pub(crate) fn scan_pattern(text: &str, pattern: &str) -> (r: Option<CalendarFields>)
    ensures
        r == pattern_fields(pattern@, text@),
        text@.len() == 0 && pattern@.len() >= 2 && pattern@[0] == '%' && pattern@[1] == 'Y'
            ==> r is None,
{
    let mut p = chrono::format::Parsed::new();
    chrono::format::parse(&mut p, text, chrono::format::StrftimeItems::new(pattern)).ok()?;
    Some(CalendarFields {
        year: p.year(),
        month: p.month(),
        day: p.day(),
        hour_div_12: p.hour_div_12(),
        hour_mod_12: p.hour_mod_12(),
        minute: p.minute(),
        second: p.second(),
    })
}

/// Leap years of the proleptic Gregorian calendar.
pub open spec fn is_leap_year(y: int) -> bool {
    (y % 4 == 0 && y % 100 != 0) || y % 400 == 0
}

pub open spec fn month_length(y: int, m: int) -> int {
    if m == 2 {
        if is_leap_year(y) { 29 } else { 28 }
    } else if m == 4 || m == 6 || m == 9 || m == 11 {
        30
    } else {
        31
    }
}

/// Days of the year `y` that lie before the first day of month `m`.
pub open spec fn days_before_month(y: int, m: int) -> int {
    let common: int = if m == 1 { 0 }
        else if m == 2 { 31 }
        else if m == 3 { 59 }
        else if m == 4 { 90 }
        else if m == 5 { 120 }
        else if m == 6 { 151 }
        else if m == 7 { 181 }
        else if m == 8 { 212 }
        else if m == 9 { 243 }
        else if m == 10 { 273 }
        else if m == 11 { 304 }
        else { 334 };
    if m > 2 && is_leap_year(y) { common + 1 } else { common }
}

/// The number of leap years among the years 1 to `n` (counted with floor
/// division, so that it also holds for `n` below 1).
pub open spec fn leap_years_through(n: int) -> int {
    n / 4 - n / 100 + n / 400
}

/// Days from 1970-01-01 to the date `y`-`m`-`d`.
pub open spec fn civil_days(y: int, m: int, d: int) -> int {
    365 * (y - 1970) + leap_years_through(y - 1) - leap_years_through(1969)
        + days_before_month(y, m) + d - 1
}

/// Seconds from the epoch to `y`-`m`-`d` `h`:`mi`:`s`, read as UTC.
pub open spec fn civil_seconds(y: int, m: int, d: int, h: int, mi: int, s: int) -> int {
    civil_days(y, m, d) * 86400 + h * 3600 + mi * 60 + s
}

/// A complete date and time: year, month, day, hour, minute and second.
pub type CivilTime = (int, int, int, int, int, int);

/// The fields with the absent ones filled in (hour and minute 0, day and
/// month 1; the second is 0 where absent), or nothing where the year is
/// missing, the hour is half given, or a field is out of its range.
pub open spec fn completed(f: CalendarFields) -> Option<CivilTime> {
    let (div, hmod) = if f.hour_mod_12 is None {
        (if f.hour_div_12 is None { 0 } else { f.hour_div_12->0 as int }, 0)
    } else {
        (if f.hour_div_12 is None { -1 } else { f.hour_div_12->0 as int },
         f.hour_mod_12->0 as int)
    };
    let m = if f.month is None { 1 } else { f.month->0 as int };
    let d = if f.day is None { 1 } else { f.day->0 as int };
    let mi = if f.minute is None { 0 } else { f.minute->0 as int };
    let s = if f.second is None { 0 } else { f.second->0 as int };
    if f.year is None {
        None
    } else {
        let y = f.year->0 as int;
        if f.hour_mod_12 is None && div != 0 {
            None
        } else if 0 <= div <= 1 && 0 <= hmod <= 11 && 1 <= m <= 12 && 1 <= d <= month_length(y, m)
            && 0 <= mi <= 59 && 0 <= s <= 60 {
            Some((y, m, d, div * 12 + hmod, mi, s))
        } else {
            None
        }
    }
}

/// The instant, in milliseconds, that the completed fields name, where its
/// seconds lie strictly inside the window. A leap second (second 60) is one
/// full second past second 59, as chrono's millisecond count holds it; the
/// window is checked on the instant itself, leap second included.
pub open spec fn calendar_millis(f: CalendarFields) -> Option<int> {
    match completed(f) {
        None => None,
        Some(t) => {
            let (y, m, d, h, mi, s) = t;
            let secs = civil_seconds(y, m, d, h, mi, s);
            if in_window(secs) {
                Some(secs * 1000)
            } else {
                None
            }
        }
    }
}

/// 400-year cycles added to a year so that the divisions below see a
/// non-negative operand for every `i32` year.
const CYCLE_SHIFT: i64 = 6000000;

proof fn lemma_div_shift(x: int, d: int, c: int)
    requires
        d > 0,
    ensures
        (x + d * c) / d == x / d + c,
        (x + d * c) % d == x % d,
{
    lemma_fundamental_div_mod(x, d);
    lemma_mod_bound(x, d);
    assert(x + d * c == d * (x / d + c) + x % d) by (nonlinear_arith)
        requires
            x == d * (x / d) + x % d,
    ;
    lemma_fundamental_div_mod_converse(x + d * c, d, x / d + c, x % d);
}

fn leap_years_through_exec(n: i64) -> (r: i64)
    requires
        -2200000000 <= n <= 2200000000,
    ensures
        r == leap_years_through(n as int),
{
    let s: i64 = n + 400 * CYCLE_SHIFT;
    proof {
        lemma_div_shift(n as int, 4, 100 * CYCLE_SHIFT);
        lemma_div_shift(n as int, 100, 4 * CYCLE_SHIFT);
        lemma_div_shift(n as int, 400, CYCLE_SHIFT as int);
        assert(s as int == n as int + 4 * (100 * CYCLE_SHIFT));
        assert(s as int == n as int + 100 * (4 * CYCLE_SHIFT));
        assert(s as int == n as int + 400 * CYCLE_SHIFT);
    }
    s / 4 - s / 100 + s / 400 - 97 * CYCLE_SHIFT
}

fn is_leap_year_exec(y: i32) -> (r: bool)
    ensures
        r == is_leap_year(y as int),
{
    let s: i64 = y as i64 + 400 * CYCLE_SHIFT;
    proof {
        lemma_div_shift(y as int, 4, 100 * CYCLE_SHIFT);
        lemma_div_shift(y as int, 100, 4 * CYCLE_SHIFT);
        lemma_div_shift(y as int, 400, CYCLE_SHIFT as int);
        assert(s as int == y as int + 4 * (100 * CYCLE_SHIFT));
        assert(s as int == y as int + 100 * (4 * CYCLE_SHIFT));
        assert(s as int == y as int + 400 * CYCLE_SHIFT);
    }
    (s % 4 == 0 && s % 100 != 0) || s % 400 == 0
}

fn month_length_exec(y: i32, m: u32) -> (r: u32)
    ensures
        r == month_length(y as int, m as int),
{
    if m == 2 {
        if is_leap_year_exec(y) { 29 } else { 28 }
    } else if m == 4 || m == 6 || m == 9 || m == 11 {
        30
    } else {
        31
    }
}

/// Days from 1970-01-01 to the date `y`-`m`-`d` of the proleptic Gregorian
/// calendar.
pub fn days_from_civil(y: i32, m: u32, d: u32) -> (r: i64)
    requires
        1 <= m <= 12,
        1 <= d <= 31,
    ensures
        r == civil_days(y as int, m as int, d as int),
{
    let common: i64 = if m == 1 { 0 }
        else if m == 2 { 31 }
        else if m == 3 { 59 }
        else if m == 4 { 90 }
        else if m == 5 { 120 }
        else if m == 6 { 151 }
        else if m == 7 { 181 }
        else if m == 8 { 212 }
        else if m == 9 { 243 }
        else if m == 10 { 273 }
        else if m == 11 { 304 }
        else { 334 };
    let before_month: i64 = if m > 2 && is_leap_year_exec(y) { common + 1 } else { common };
    let yy = y as i64;
    365 * (yy - 1970) + leap_years_through_exec(yy - 1) - leap_years_through_exec(1969)
        + before_month + d as i64 - 1
}

/// Seconds from the epoch to `y`-`m`-`d` `h`:`mi`:`s`, read as UTC.
pub fn civil_epoch_seconds(y: i32, m: u32, d: u32, h: u32, mi: u32, s: u32) -> (r: i64)
    requires
        1 <= m <= 12,
        1 <= d <= 31,
        h <= 23,
        mi <= 59,
        s <= 60,
    ensures
        r == civil_seconds(y as int, m as int, d as int, h as int, mi as int, s as int),
{
    let days = days_from_civil(y, m, d);
    days * 86400 + h as i64 * 3600 + mi as i64 * 60 + s as i64
}

/// A date and time held in machine integers, read as mathematical ones.
pub open spec fn widened(t: (i32, u32, u32, u32, u32, u32)) -> CivilTime {
    let (y, m, d, h, mi, s) = t;
    (y as int, m as int, d as int, h as int, mi as int, s as int)
}

/// Fills in the absent fields (hour and minute 0, day and month 1, second
/// 0) and checks each against its range; nothing where the year is missing
/// or a field is out of range.
pub fn complete_fields(f: CalendarFields) -> (r: Option<(i32, u32, u32, u32, u32, u32)>)
    ensures
        match completed(f) {
            None => r is None,
            Some(t) => r is Some && t == widened(r->0),
        },
{
    let y = match f.year {
        Some(y) => y,
        None => return None,
    };
    let (div, hmod): (u32, u32) = match f.hour_mod_12 {
        None => match f.hour_div_12 {
            None => (0, 0),
            Some(0) => (0, 0),
            Some(_) => return None,
        },
        Some(h) => match f.hour_div_12 {
            None => return None,
            Some(dv) => (dv, h),
        },
    };
    let m: u32 = match f.month { Some(v) => v, None => 1 };
    let d: u32 = match f.day { Some(v) => v, None => 1 };
    let mi: u32 = match f.minute { Some(v) => v, None => 0 };
    let s: u32 = match f.second { Some(v) => v, None => 0 };
    if div <= 1 && hmod <= 11 && 1 <= m && m <= 12 && 1 <= d && d <= month_length_exec(y, m)
        && mi <= 59 && s <= 60 {
        Some((y, m, d, div * 12 + hmod, mi, s))
    } else {
        None
    }
}

/// The instant that the calendar fields name, read as UTC, with the absent
/// fields filled in; a failure where the fields name no valid date and time
/// or the instant lies outside the window from 1900 to 2500.
pub fn fields_to_instant(f: CalendarFields) -> (r: Result<Instant, ParseFailure>)
    ensures
        outcome(r) == calendar_millis(f),
        r is Ok ==> LOWER_BOUND < r->Ok_0.millis / 1000 < UPPER_BOUND,
        r is Ok ==> r->Ok_0.millis % 1000 == 0,
{
    match complete_fields(f) {
        None => Err(ParseFailure),
        Some(t) => {
            let (y, m, d, h, mi, s) = t;
            let secs = civil_epoch_seconds(y, m, d, h, mi, s);
            if LOWER_BOUND < secs && secs < UPPER_BOUND {
                Ok(Instant { millis: secs * 1000 })
            } else {
                Err(ParseFailure)
            }
        }
    }
}

/// Fields that hold a year and nothing else.
pub open spec fn year_only(y: i32) -> CalendarFields {
    CalendarFields {
        year: Some(y),
        month: None,
        day: None,
        hour_div_12: None,
        hour_mod_12: None,
        minute: None,
        second: None,
    }
}

proof fn lemma_year_start_step(y: int)
    ensures
        civil_days(y, 1, 1) < civil_days(y + 1, 1, 1),
{
    lemma_div_shift(y - 1, 4, 1);
    lemma_div_shift(y - 1, 100, 1);
    lemma_div_shift(y - 1, 400, 1);
    assert(leap_years_through(y - 1) <= leap_years_through(y)) by {
        if (y - 1) % 4 != 3 {
            lemma_fundamental_div_mod(y - 1, 4);
            lemma_fundamental_div_mod(y, 4);
        }
        lemma_fundamental_div_mod(y - 1, 100);
        lemma_fundamental_div_mod(y, 100);
        lemma_fundamental_div_mod(y - 1, 400);
        lemma_fundamental_div_mod(y, 400);
        lemma_fundamental_div_mod(y - 1, 4);
        lemma_fundamental_div_mod(y, 4);
        lemma_mod_bound(y - 1, 4);
        lemma_mod_bound(y, 4);
        lemma_mod_bound(y - 1, 100);
        lemma_mod_bound(y, 100);
        lemma_mod_bound(y - 1, 400);
        lemma_mod_bound(y, 400);
    }
}

proof fn lemma_year_start_above(y: int, base: int)
    requires
        base < y,
    ensures
        civil_days(base, 1, 1) < civil_days(y, 1, 1),
    decreases y - base,
{
    lemma_year_start_step(y - 1);
    if base < y - 1 {
        lemma_year_start_above(y - 1, base);
    }
}

/// A year alone names the first instant of that year where the year lies
/// strictly between 1900 and 2500; the years 1900 and 2500 begin on the
/// window's bounds, which the window leaves out.
pub proof fn lemma_year_alone(y: i32)
    requires
        1900 <= y <= 2500,
    ensures
        calendar_millis(year_only(y)) == (if 1900 < y < 2500 {
            Some(civil_days(y as int, 1, 1) * 86400 * 1000)
        } else {
            None::<int>
        }),
{
    assert(civil_days(1900, 1, 1) * 86400 == LOWER_BOUND);
    assert(civil_days(2500, 1, 1) * 86400 == UPPER_BOUND);
    if 1900 < y {
        lemma_year_start_above(y as int, 1900);
    }
    if y < 2500 {
        lemma_year_start_above(2500, y as int);
    }
}

} // verus!

use crate::civil::{calendar_millis, fields_to_instant, pattern_fields, scan_pattern};
use crate::epoch::{
    decimal_text, i64_literal, integer_epoch_millis, integer_strategy, lemma_decimal_text_reads_back,
    parse_epoch_integer,
};
use crate::instant::{in_window, outcome, Instant, ParseFailure};
use vstd::prelude::*;

verus! {

/// One way of reading a timestamp.
#[derive(Clone, Copy, Debug, PartialEq, Eq, Structural)]
pub enum Strategy {
    /// `%Y`: a year alone.
    Year,
    /// `%Y%m`.
    YearMonth,
    /// `%Y%m%d`.
    YearMonthDay,
    /// `%Y%m%d%H`.
    YearMonthDayHour,
    /// `%Y%m%d%H%M`.
    YearMonthDayHourMinute,
    /// An RFC 2822 date with its offset.
    Rfc2822,
    /// An RFC 3339 date with its offset.
    Rfc3339,
    /// `%Y-%m-%dT%H:%M:%S`, read as UTC.
    IsoSeconds,
    /// `%Y-%m-%dT%H:%M`, read as UTC.
    IsoMinutes,
    /// A bare integer, in seconds or milliseconds.
    EpochInteger,
}

/// What chrono's RFC 2822 parser reads from `s`: the instant in UTC
/// milliseconds, or nothing where `s` is not an RFC 2822 date.
pub uninterp spec fn rfc2822_millis(s: Seq<char>) -> Option<i64>;

/// What chrono's RFC 3339 parser reads from `s`: the instant in UTC
/// milliseconds, or nothing where `s` is not an RFC 3339 date.
pub uninterp spec fn rfc3339_millis(s: Seq<char>) -> Option<i64>;

/// Relies on chrono's `DateTime::parse_from_rfc2822`, and on
/// `DateTime::timestamp_millis` for the UTC instant it names. Empty text
/// holds no day of the month, so it fails.
#[verifier::external_body]
fn parse_rfc2822(s: &str) -> (r: Option<i64>)
    ensures
        r == rfc2822_millis(s@),
        s@.len() == 0 ==> r is None,
{
    match chrono::DateTime::parse_from_rfc2822(s) {
        Ok(t) => Some(t.timestamp_millis()),
        Err(_) => None,
    }
}

/// Relies on chrono's `DateTime::parse_from_rfc3339`, and on
/// `DateTime::timestamp_millis` for the UTC instant it names. Text shorter
/// than a full date and time fails, the empty text among it.
#[verifier::external_body]
fn parse_rfc3339(s: &str) -> (r: Option<i64>)
    ensures
        r == rfc3339_millis(s@),
        s@.len() == 0 ==> r is None,
{
    match chrono::DateTime::parse_from_rfc3339(s) {
        Ok(t) => Some(t.timestamp_millis()),
        Err(_) => None,
    }
}

pub open spec fn widen(v: Option<i64>) -> Option<int> {
    match v {
        Some(x) => Some(x as int),
        None => None,
    }
}

/// The strftime pattern of a calendar strategy.
pub open spec fn pattern_of(k: Strategy) -> Seq<char> {
    match k {
        Strategy::Year => "%Y"@,
        Strategy::YearMonth => "%Y%m"@,
        Strategy::YearMonthDay => "%Y%m%d"@,
        Strategy::YearMonthDayHour => "%Y%m%d%H"@,
        Strategy::YearMonthDayHourMinute => "%Y%m%d%H%M"@,
        Strategy::IsoSeconds => "%Y-%m-%dT%H:%M:%S"@,
        _ => "%Y-%m-%dT%H:%M"@,
    }
}

/// What the calendar strategy with `pattern` makes of `s`.
pub open spec fn pattern_strategy(pattern: Seq<char>, s: Seq<char>) -> Option<int> {
    match pattern_fields(pattern, s) {
        Some(f) => calendar_millis(f),
        None => None,
    }
}

/// What strategy `k` makes of `s`: an instant in milliseconds, or nothing.
pub open spec fn strategy_result(k: Strategy, s: Seq<char>) -> Option<int> {
    match k {
        Strategy::Rfc2822 => widen(rfc2822_millis(s)),
        Strategy::Rfc3339 => widen(rfc3339_millis(s)),
        Strategy::EpochInteger => integer_strategy(s),
        _ => pattern_strategy(pattern_of(k), s),
    }
}

/// The result of the first strategy of `order` that succeeds on `s`.
pub open spec fn cascade(order: Seq<Strategy>, s: Seq<char>) -> Option<int>
    decreases order.len(),
{
    if order.len() == 0 {
        None
    } else if strategy_result(order[0], s) is Some {
        strategy_result(order[0], s)
    } else {
        cascade(order.skip(1), s)
    }
}

/// The strategies in the order in which they are tried.
pub open spec fn strategy_order() -> Seq<Strategy> {
    seq![
        Strategy::Year,
        Strategy::YearMonth,
        Strategy::YearMonthDay,
        Strategy::YearMonthDayHour,
        Strategy::YearMonthDayHourMinute,
        Strategy::Rfc2822,
        Strategy::Rfc3339,
        Strategy::IsoSeconds,
        Strategy::IsoMinutes,
        Strategy::EpochInteger,
    ]
}

/// The instant, in milliseconds, that `s` resolves to through the strategies
/// that need no floating point.
pub open spec fn resolved(s: Seq<char>) -> Option<int> {
    cascade(strategy_order(), s)
}

/// The strategies in the order in which they are tried.
pub fn strategies() -> (r: Vec<Strategy>)
    ensures
        r@ == strategy_order(),
{
    let r = vec![
        Strategy::Year,
        Strategy::YearMonth,
        Strategy::YearMonthDay,
        Strategy::YearMonthDayHour,
        Strategy::YearMonthDayHourMinute,
        Strategy::Rfc2822,
        Strategy::Rfc3339,
        Strategy::IsoSeconds,
        Strategy::IsoMinutes,
        Strategy::EpochInteger,
    ];
    assert(r@ =~= strategy_order());
    r
}

fn pattern(k: Strategy) -> (r: &'static str)
    ensures
        r@ == pattern_of(k),
{
    match k {
        Strategy::Year => "%Y",
        Strategy::YearMonth => "%Y%m",
        Strategy::YearMonthDay => "%Y%m%d",
        Strategy::YearMonthDayHour => "%Y%m%d%H",
        Strategy::YearMonthDayHourMinute => "%Y%m%d%H%M",
        Strategy::IsoSeconds => "%Y-%m-%dT%H:%M:%S",
        _ => "%Y-%m-%dT%H:%M",
    }
}

fn from_millis_option(v: Option<i64>) -> (r: Result<Instant, ParseFailure>)
    ensures
        outcome(r) == widen(v),
{
    match v {
        Some(ms) => Ok(Instant { millis: ms }),
        None => Err(ParseFailure),
    }
}

/// Tries the single strategy `k` on `s`.
pub fn try_strategy(k: Strategy, s: &str) -> (r: Result<Instant, ParseFailure>)
    ensures
        outcome(r) == strategy_result(k, s@),
        s@.len() == 0 ==> r is Err,
{
    proof {
        reveal_strlit("%Y");
        reveal_strlit("%Y%m");
        reveal_strlit("%Y%m%d");
        reveal_strlit("%Y%m%d%H");
        reveal_strlit("%Y%m%d%H%M");
        reveal_strlit("%Y-%m-%dT%H:%M:%S");
        reveal_strlit("%Y-%m-%dT%H:%M");
    }
    match k {
        Strategy::Rfc2822 => from_millis_option(parse_rfc2822(s)),
        Strategy::Rfc3339 => from_millis_option(parse_rfc3339(s)),
        Strategy::EpochInteger => parse_epoch_integer(s),
        _ => match scan_pattern(s, pattern(k)) {
            Some(f) => fields_to_instant(f),
            None => Err(ParseFailure),
        },
    }
}

/// Resolves `s` through the strategies that need no floating point, in
/// their fixed order: the first that succeeds decides the instant.
pub fn resolve_strategies(s: &str) -> (r: Result<Instant, ParseFailure>)
    ensures
        outcome(r) == resolved(s@),
        s@.len() == 0 ==> r is Err,
{
    let order = strategies();
    let mut i: usize = 0;
    assert(order@.skip(0) =~= order@);
    while i < order.len()
        invariant
            order@ == strategy_order(),
            0 <= i <= order@.len(),
            resolved(s@) == cascade(order@.skip(i as int), s@),
        decreases order@.len() - i,
    {
        let r = try_strategy(order[i], s);
        assert(order@.skip(i as int).skip(1) =~= order@.skip(i as int + 1));
        if r.is_ok() {
            return r;
        }
        i += 1;
    }
    Err(ParseFailure)
}

/// Resolves `s`: the strategies in their fixed order, and last the reading
/// of `s` as a floating-point epoch time, whose instant in milliseconds
/// (or its absence, where `s` is no number) `float_fallback` carries.
pub fn resolve(s: &str, float_fallback: Option<i64>) -> (r: Result<Instant, ParseFailure>)
    ensures
        outcome(r) == (if resolved(s@) is Some { resolved(s@) } else { widen(float_fallback) }),
        s@.len() == 0 && float_fallback is None ==> r is Err,
{
    match resolve_strategies(s) {
        Ok(t) => Ok(t),
        Err(_) => from_millis_option(float_fallback),
    }
}

/// True when no strategy tried before the integer one accepts `s`.
pub open spec fn earlier_strategies_fail(s: Seq<char>) -> bool {
    cascade(strategy_order().drop_last(), s) is None
}

proof fn lemma_cascade_split(order: Seq<Strategy>, s: Seq<char>)
    requires
        order.len() > 0,
    ensures
        cascade(order, s) == (if cascade(order.drop_last(), s) is Some {
            cascade(order.drop_last(), s)
        } else {
            strategy_result(order.last(), s)
        }),
    decreases order.len(),
{
    if order.len() > 1 {
        lemma_cascade_split(order.skip(1), s);
        assert(order.skip(1).drop_last() =~= order.drop_last().skip(1));
        assert(order.drop_last()[0] == order[0]);
        assert(order.skip(1).last() == order.last());
    } else {
        assert(order.skip(1).len() == 0);
        assert(order.drop_last().len() == 0);
        assert(cascade(order.skip(1), s) is None);
        assert(cascade(order.drop_last(), s) is None);
        assert(order.last() == order[0]);
    }
}

proof fn lemma_integer_text(s: Seq<char>)
    requires
        earlier_strategies_fail(s),
    ensures
        resolved(s) == integer_strategy(s),
{
    lemma_cascade_split(strategy_order(), s);
}

/// The decimal text of a whole number of seconds inside the window, which no
/// earlier strategy accepts, resolves to that many seconds after the epoch.
pub proof fn lemma_seconds_text_resolves(n: int)
    requires
        in_window(n),
        earlier_strategies_fail(decimal_text(n)),
    ensures
        resolved(decimal_text(n)) == Some(n * 1000),
{
    lemma_decimal_text_reads_back(n);
    lemma_integer_text(decimal_text(n));
}

/// The decimal text of a 64-bit integer outside the window, which no
/// earlier strategy accepts, resolves to that many milliseconds after the
/// epoch.
pub proof fn lemma_milliseconds_text_resolves(m: int)
    requires
        i64::MIN <= m <= i64::MAX,
        !in_window(m),
        earlier_strategies_fail(decimal_text(m)),
    ensures
        resolved(decimal_text(m)) == Some(m),
{
    lemma_decimal_text_reads_back(m);
    lemma_integer_text(decimal_text(m));
}

/// Text that reads as a 64-bit integer always resolves: a value outside the
/// window is taken as milliseconds, never refused.
pub proof fn lemma_integer_text_never_refused(s: Seq<char>)
    requires
        i64_literal(s) is Some,
    ensures
        resolved(s) is Some,
        earlier_strategies_fail(s) ==> resolved(s) == Some(
            integer_epoch_millis(i64_literal(s)->0),
        ),
{
    lemma_cascade_split(strategy_order(), s);
}

} // verus!

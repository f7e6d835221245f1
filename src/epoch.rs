use crate::instant::{in_window, outcome, Instant, ParseFailure, LOWER_BOUND, UPPER_BOUND};
use vstd::prelude::*;

verus! {

/// The value of a decimal digit, or nothing for any other character.
pub open spec fn digit_value(c: char) -> Option<int> {
    if c == '0' { Some(0int) }
    else if c == '1' { Some(1int) }
    else if c == '2' { Some(2int) }
    else if c == '3' { Some(3int) }
    else if c == '4' { Some(4int) }
    else if c == '5' { Some(5int) }
    else if c == '6' { Some(6int) }
    else if c == '7' { Some(7int) }
    else if c == '8' { Some(8int) }
    else if c == '9' { Some(9int) }
    else { None }
}

/// A non-empty run of decimal digits.
pub open spec fn is_digit_run(d: Seq<char>) -> bool {
    d.len() > 0 && forall|i: int| 0 <= i < d.len() ==> (#[trigger] digit_value(d[i])) is Some
}

/// The number that a run of decimal digits writes.
pub open spec fn digits_value(d: Seq<char>) -> int
    decreases d.len(),
{
    if d.len() == 0 {
        0
    } else {
        digits_value(d.drop_last()) * 10 + digit_value(d.last())->0
    }
}

/// The integer that `s` writes as an optional `+` or `-` followed by decimal
/// digits, and nothing else; nothing where `s` has another shape.
pub open spec fn int_literal(s: Seq<char>) -> Option<int> {
    if s.len() > 0 && (s[0] == '+' || s[0] == '-') {
        let d = s.skip(1);
        if is_digit_run(d) {
            Some(if s[0] == '-' { -digits_value(d) } else { digits_value(d) })
        } else {
            None
        }
    } else if is_digit_run(s) {
        Some(digits_value(s))
    } else {
        None
    }
}

/// The integer literal in `s`, where its value fits in an `i64`.
pub open spec fn i64_literal(s: Seq<char>) -> Option<int> {
    match int_literal(s) {
        Some(v) => if i64::MIN <= v <= i64::MAX { Some(v) } else { None },
        None => None,
    }
}

/// Relies on std's `FromStr` for `i64`: an optional sign followed by decimal
/// digits, whose value fits in an `i64`; any other text is an error.
#[verifier::external_body]
fn parse_i64_text(s: &str) -> (r: Option<i64>)
    ensures
        match i64_literal(s@) {
            Some(v) => r == Some(v as i64),
            None => r is None,
        },
{
    <i64 as std::str::FromStr>::from_str(s).ok()
}

/// A bare integer read as an epoch time: seconds where that lands inside
/// the window from 1900 to 2500, milliseconds otherwise.
pub open spec fn integer_epoch_millis(ts: int) -> int {
    if in_window(ts) { ts * 1000 } else { ts }
}

/// What the integer strategy makes of `s`.
pub open spec fn integer_strategy(s: Seq<char>) -> Option<int> {
    match i64_literal(s) {
        Some(v) => Some(integer_epoch_millis(v)),
        None => None,
    }
}

/// The instant that the bare integer `ts` names: `ts` seconds where that
/// lies strictly inside the window, else `ts` milliseconds.
pub fn instant_from_integer(ts: i64) -> (r: Instant)
    ensures
        r.millis == integer_epoch_millis(ts as int),
{
    if LOWER_BOUND < ts && ts < UPPER_BOUND {
        Instant { millis: ts * 1000 }
    } else {
        Instant { millis: ts }
    }
}

/// Reads `s` as a signed 64-bit integer epoch time; a failure where it is
/// not one.
pub fn parse_epoch_integer(s: &str) -> (r: Result<Instant, ParseFailure>)
    ensures
        outcome(r) == integer_strategy(s@),
{
    match parse_i64_text(s) {
        Some(ts) => Ok(instant_from_integer(ts)),
        None => Err(ParseFailure),
    }
}

/// The character of a decimal digit.
pub open spec fn digit_char(n: int) -> char {
    seq!['0', '1', '2', '3', '4', '5', '6', '7', '8', '9'][n]
}

/// The decimal digits of a natural number, without leading zeros.
pub open spec fn digit_text(n: nat) -> Seq<char>
    decreases n,
{
    if n < 10 {
        seq![digit_char(n as int)]
    } else {
        digit_text(n / 10).push(digit_char((n % 10) as int))
    }
}

/// The decimal text of an integer, with a leading `-` where it is negative.
pub open spec fn decimal_text(n: int) -> Seq<char> {
    if n < 0 {
        seq!['-'] + digit_text((-n) as nat)
    } else {
        digit_text(n as nat)
    }
}

proof fn lemma_digit_char(k: int)
    requires
        0 <= k < 10,
    ensures
        digit_value(digit_char(k)) == Some(k),
{
    reveal_with_fuel(digit_char, 1);
}

proof fn lemma_digit_text(n: nat)
    ensures
        is_digit_run(digit_text(n)),
        digits_value(digit_text(n)) == n,
    decreases n,
{
    if n < 10 {
        lemma_digit_char(n as int);
        let t = digit_text(n);
        assert(t.drop_last() =~= Seq::<char>::empty());
        assert(digits_value(t.drop_last()) == 0);
    } else {
        lemma_digit_text(n / 10);
        lemma_digit_char((n % 10) as int);
        let t = digit_text(n);
        assert(t.drop_last() =~= digit_text(n / 10));
        assert(t.last() == digit_char((n % 10) as int));
        assert(n == (n / 10) * 10 + n % 10);
        assert forall|i: int| 0 <= i < t.len() implies (#[trigger] digit_value(t[i])) is Some by {
            if i < t.len() - 1 {
                assert(t[i] == digit_text(n / 10)[i]);
            }
        }
    }
}

/// The decimal text of any integer reads back as that integer.
pub proof fn lemma_decimal_text_reads_back(n: int)
    ensures
        int_literal(decimal_text(n)) == Some(n),
{
    if n < 0 {
        let m = (-n) as nat;
        lemma_digit_text(m);
        let s = decimal_text(n);
        assert(s.skip(1) =~= digit_text(m));
    } else {
        lemma_digit_text(n as nat);
        let s = decimal_text(n);
        assert(digit_value(s[0]) is Some);
    }
}

} // verus!

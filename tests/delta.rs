use time_cli::{delta_lines, DeltaLine, Direction, Instant, Unit};

fn line(direction: Direction, unit: Unit, amount: i64) -> DeltaLine {
    DeltaLine { direction, unit, amount }
}

#[test]
fn past_instant_gives_since_lines() {
    let now = Instant::from_millis(1_000_000_000_000);
    let t = Instant::from_millis(1_000_000_000_000 - (2 * 86400 + 5) * 1000 - 300);
    assert_eq!(
        delta_lines(t, now),
        vec![
            line(Direction::Since, Unit::Seconds, 2 * 86400 + 5),
            line(Direction::Since, Unit::Hours, 48),
            line(Direction::Since, Unit::Days, 2),
        ]
    );
}

#[test]
fn near_future_gives_seconds_until_only() {
    let now = Instant::from_millis(5000);
    let t = Instant::from_millis(35_999);
    assert_eq!(delta_lines(t, now), vec![line(Direction::Until, Unit::Seconds, 30)]);
}

#[test]
fn hours_without_days() {
    let now = Instant::from_millis(0);
    let t = Instant::from_millis(3 * 3600 * 1000);
    assert_eq!(
        delta_lines(t, now),
        vec![line(Direction::Until, Unit::Seconds, 10800), line(Direction::Until, Unit::Hours, 3)]
    );
}

#[test]
fn equal_instants_give_no_lines() {
    let now = Instant::from_millis(42);
    assert_eq!(delta_lines(now, now), vec![]);
}

#[test]
fn under_a_second_in_the_past_still_says_since() {
    let now = Instant::from_millis(1000);
    assert_eq!(delta_lines(Instant::from_millis(999), now), vec![line(Direction::Since, Unit::Seconds, 0)]);
}

#[test]
fn extreme_instants_do_not_overflow() {
    let lines = delta_lines(Instant::from_millis(i64::MIN), Instant::from_millis(i64::MAX));
    assert_eq!(lines[0], line(Direction::Since, Unit::Seconds, 18446744073709551));
    assert_eq!(lines.len(), 3);
}

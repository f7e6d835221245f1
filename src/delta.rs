use crate::instant::Instant;
use vstd::prelude::*;

verus! {

/// Whether an instant lies before now (`Since`) or after it (`Until`).
#[derive(Clone, Copy, Debug, PartialEq, Eq, Structural)]
pub enum Direction {
    Since,
    Until,
}

#[derive(Clone, Copy, Debug, PartialEq, Eq, Structural)]
pub enum Unit {
    Seconds,
    Hours,
    Days,
}

/// One line of the relative report: a whole number of units since or until
/// now.
#[derive(Clone, Copy, Debug, PartialEq, Eq, Structural)]
pub struct DeltaLine {
    pub direction: Direction,
    pub unit: Unit,
    pub amount: i64,
}

pub open spec fn line_view(l: DeltaLine) -> (Direction, Unit, int) {
    (l.direction, l.unit, l.amount as int)
}

/// The lines for a gap of `ms` milliseconds in direction `dir`: whole
/// seconds always, whole hours and whole days where they are not zero.
pub open spec fn gap_lines(dir: Direction, ms: int) -> Seq<(Direction, Unit, int)> {
    let secs = ms / 1000;
    let hours = secs / 3600;
    let days = secs / 86400;
    seq![(dir, Unit::Seconds, secs)]
        + (if hours > 0 { seq![(dir, Unit::Hours, hours)] } else { Seq::empty() })
        + (if days > 0 { seq![(dir, Unit::Days, days)] } else { Seq::empty() })
}

/// The relative report of `t` against `now`: nothing where they are equal.
pub open spec fn relative_lines(t: int, now: int) -> Seq<(Direction, Unit, int)> {
    if t < now {
        gap_lines(Direction::Since, now - t)
    } else if t > now {
        gap_lines(Direction::Until, t - now)
    } else {
        Seq::empty()
    }
}

proof fn lemma_gap_lines(dir: Direction, ms: int)
    ensures
        forall|i: int| 0 <= i < gap_lines(dir, ms).len() ==> (#[trigger] gap_lines(dir, ms)[i]).0 == dir
            && (gap_lines(dir, ms)[i].2 > 0 || gap_lines(dir, ms)[i].1 == Unit::Seconds),
{
    let secs = ms / 1000;
    let hours = secs / 3600;
    let days = secs / 86400;
    let g = gap_lines(dir, ms);
    let a = seq![(dir, Unit::Seconds, secs)];
    let b: Seq<(Direction, Unit, int)> = if hours > 0 { seq![(dir, Unit::Hours, hours)] } else { Seq::empty() };
    let c: Seq<(Direction, Unit, int)> = if days > 0 { seq![(dir, Unit::Days, days)] } else { Seq::empty() };
    assert forall|i: int| 0 <= i < g.len() implies (#[trigger] g[i]).0 == dir && (g[i].2 > 0 || g[i].1 == Unit::Seconds) by {
        if i == 0 {
            assert(g[i] == a[0]);
        } else if i < 1 + b.len() {
            assert(g[i] == b[i - 1]);
        } else {
            assert(g[i] == c[i - 1 - b.len()]);
        }
    }
}

fn push_gap_lines(lines: &mut Vec<DeltaLine>, dir: Direction, ms: i128)
    requires
        old(lines)@.len() == 0,
        0 < ms < 0x1_0000_0000_0000_0000,
    ensures
        final(lines)@.map_values(|l: DeltaLine| line_view(l)) == gap_lines(dir, ms as int),
{
    let secs = (ms / 1000) as i64;
    let hours = secs / 3600;
    let days = secs / 86400;
    lines.push(DeltaLine { direction: dir, unit: Unit::Seconds, amount: secs });
    if hours > 0 {
        lines.push(DeltaLine { direction: dir, unit: Unit::Hours, amount: hours });
    }
    if days > 0 {
        lines.push(DeltaLine { direction: dir, unit: Unit::Days, amount: days });
    }
    assert(lines@.map_values(|l: DeltaLine| line_view(l)) =~= gap_lines(dir, ms as int));
}

/// The lines of the relative report of `t` against `now`: "since" lines
/// where `t` is strictly before `now`, "until" lines where it is strictly
/// after, none where they are equal. Seconds are always given; hours and
/// days only where their whole number is not zero.
pub fn delta_lines(t: Instant, now: Instant) -> (r: Vec<DeltaLine>)
    ensures
        r@.map_values(|l: DeltaLine| line_view(l)) == relative_lines(t.millis as int, now.millis as int),
        t.millis < now.millis ==> forall|i: int| 0 <= i < r@.len() ==> r@[i].direction == Direction::Since,
        t.millis > now.millis ==> forall|i: int| 0 <= i < r@.len() ==> r@[i].direction == Direction::Until,
        t.millis == now.millis ==> r@.len() == 0,
        forall|i: int| 0 <= i < r@.len() ==> r@[i].amount > 0 || r@[i].unit == Unit::Seconds,
{
    let mut lines: Vec<DeltaLine> = Vec::new();
    if t.millis < now.millis {
        push_gap_lines(&mut lines, Direction::Since, now.millis as i128 - t.millis as i128);
    } else if t.millis > now.millis {
        push_gap_lines(&mut lines, Direction::Until, t.millis as i128 - now.millis as i128);
    }
    proof {
        lemma_gap_lines(Direction::Since, now.millis - t.millis);
        lemma_gap_lines(Direction::Until, t.millis - now.millis);
        let v = lines@.map_values(|l: DeltaLine| line_view(l));
        let rel = relative_lines(t.millis as int, now.millis as int);
        assert forall|i: int| 0 <= i < lines@.len() implies (#[trigger] lines@[i]).amount > 0
            || lines@[i].unit == Unit::Seconds by {
            assert(v[i] == line_view(lines@[i]));
            assert(rel[i] == v[i]);
        }
        assert forall|i: int| 0 <= i < lines@.len() implies (#[trigger] lines@[i]).direction
            == rel[i].0 by {
            assert(v[i] == line_view(lines@[i]));
        }
    }
    lines
}

} // verus!

use vstd::prelude::*;

verus! {

/// Milliseconds in one second.
pub const SECOND_MS: i64 = 1_000;

/// Milliseconds in one minute.
pub const MINUTE_MS: i64 = 60_000;

/// Milliseconds in one hour.
pub const HOUR_MS: i64 = 3_600_000;

/// Milliseconds in one day.
pub const DAY_MS: i64 = 86_400_000;

/// Finest unit a duration is rounded to.
#[derive(Clone, Copy, PartialEq, Eq, Structural, Debug)]
pub enum RoundAccuracy {
    Minutes,
    Seconds,
}

/// Whether rounding moves the duration forwards or backwards in time.
#[derive(Clone, Copy, PartialEq, Eq, Structural, Debug)]
pub enum RoundDirection {
    Up,
    Down,
}

/// The unit, in milliseconds, that a duration of `d` milliseconds is rounded
/// to: hours for a day or more, minutes for an hour or more (or whenever only
/// minute accuracy is wanted), seconds otherwise.
pub open spec fn spec_round_unit(d: int, accuracy: RoundAccuracy) -> int {
    if d >= DAY_MS {
        HOUR_MS as int
    } else if d >= HOUR_MS || accuracy is Minutes {
        MINUTE_MS as int
    } else {
        SECOND_MS as int
    }
}

/// The rounded duration: `d` split at a whole multiple of its rounding unit,
/// moved up or down, and left untouched when it already is a whole multiple.
pub open spec fn spec_rounded(d: int, accuracy: RoundAccuracy, direction: RoundDirection) -> int {
    let unit = spec_round_unit(d, accuracy);
    let rest = d % unit;
    if rest == 0 {
        d
    } else if direction is Up {
        d - rest + unit
    } else {
        d - rest
    }
}

/// What rounding cut off: the distance between `d` and the rounded value,
/// reported as a non-negative duration.
pub open spec fn spec_round_remainder(
    d: int,
    accuracy: RoundAccuracy,
    direction: RoundDirection,
) -> int {
    let unit = spec_round_unit(d, accuracy);
    let rest = d % unit;
    if rest == 0 {
        0
    } else if direction is Up {
        unit - rest
    } else {
        rest
    }
}

/// Rounds a duration (in milliseconds) to a human-friendly boundary and
/// reports the remainder that was cut off (or, when rounding up, added).
pub fn round_duration(duration: i64, accuracy: RoundAccuracy, direction: RoundDirection) -> (r: (
    i64,
    i64,
))
    requires
        0 <= duration <= i64::MAX - HOUR_MS,
    ensures
        r.0 == spec_rounded(duration as int, accuracy, direction),
        r.1 == spec_round_remainder(duration as int, accuracy, direction),
{
    if duration >= DAY_MS {
        let rest = duration % HOUR_MS;
        if rest == 0 {
            (duration, 0)
        } else {
            match direction {
                RoundDirection::Up => (duration - rest + HOUR_MS, HOUR_MS - rest),
                RoundDirection::Down => (duration - rest, rest),
            }
        }
    } else if duration >= HOUR_MS || matches!(accuracy, RoundAccuracy::Minutes) {
        let rest = duration % MINUTE_MS;
        if rest == 0 {
            (duration, 0)
        } else {
            match direction {
                RoundDirection::Up => (duration - rest + MINUTE_MS, MINUTE_MS - rest),
                RoundDirection::Down => (duration - rest, rest),
            }
        }
    } else {
        let rest = duration % SECOND_MS;
        if rest == 0 {
            (duration, 0)
        } else {
            match direction {
                RoundDirection::Up => (duration - rest + SECOND_MS, SECOND_MS - rest),
                RoundDirection::Down => (duration - rest, rest),
            }
        }
    }
}

/// Rounding down keeps the duration inside the interval that picked its
/// rounding unit, so the rounded value picks the same unit again.
proof fn lemma_round_unit_stable(d: int, accuracy: RoundAccuracy)
    requires
        0 <= d,
    ensures
        spec_round_unit(spec_rounded(d, accuracy, RoundDirection::Down), accuracy)
            == spec_round_unit(d, accuracy),
{
    let unit = spec_round_unit(d, accuracy);
    let rest = d % unit;
    assert(0 <= rest < unit) by (nonlinear_arith)
        requires 0 <= d && unit > 0 && rest == d % unit;
    let down = d - rest;
    if d >= DAY_MS {
        assert(down >= DAY_MS) by (nonlinear_arith)
            requires d >= DAY_MS && rest == d % (HOUR_MS as int) && down == d - rest;
    } else if d >= HOUR_MS {
        assert(down >= HOUR_MS) by (nonlinear_arith)
            requires d >= HOUR_MS && rest == d % (MINUTE_MS as int) && down == d - rest;
    }
}

/// Rounding down lands on a whole multiple of the rounding unit.
proof fn lemma_round_down_exact(d: int, accuracy: RoundAccuracy)
    requires
        0 <= d,
    ensures
        spec_rounded(d, accuracy, RoundDirection::Down) % spec_round_unit(d, accuracy) == 0,
{
    let unit = spec_round_unit(d, accuracy);
    assert((d - d % unit) % unit == 0) by (nonlinear_arith)
        requires unit > 0;
}

/// Rounding down is idempotent: a value already rounded down is returned
/// unchanged, with a zero remainder.
pub proof fn lemma_round_duration_idempotent(
    d: int,
    accuracy: RoundAccuracy,
)
    requires
        0 <= d,
    ensures
        spec_rounded(
            spec_rounded(d, accuracy, RoundDirection::Down),
            accuracy,
            RoundDirection::Down,
        ) == spec_rounded(d, accuracy, RoundDirection::Down),
        spec_round_remainder(
            spec_rounded(d, accuracy, RoundDirection::Down),
            accuracy,
            RoundDirection::Down,
        ) == 0,
{
    lemma_round_unit_stable(d, accuracy);
    lemma_round_down_exact(d, accuracy);
}

/// The remainder is always less than an hour (the largest rounding unit),
/// and rounding moves the duration by less than an hour: down never below
/// zero, up never past the next hour.
pub proof fn lemma_round_bounds(d: int, accuracy: RoundAccuracy, direction: RoundDirection)
    requires
        0 <= d,
    ensures
        0 <= spec_round_remainder(d, accuracy, direction) < HOUR_MS,
        direction is Down ==> 0 <= spec_rounded(d, accuracy, direction) <= d,
        direction is Up ==> d <= spec_rounded(d, accuracy, direction) < d + HOUR_MS,
{
    let unit = spec_round_unit(d, accuracy);
    let rest = d % unit;
    assert(0 <= rest < unit && rest <= d) by (nonlinear_arith)
        requires 0 <= d && unit > 0 && rest == d % unit;
}

/// Round-trip: the value rounded down plus the reported remainder always
/// reconstructs the original duration exactly.
pub proof fn lemma_round_duration_round_trip(
    d: int,
    accuracy: RoundAccuracy,
)
    requires
        0 <= d,
    ensures
        spec_rounded(d, accuracy, RoundDirection::Down)
            + spec_round_remainder(d, accuracy, RoundDirection::Down) == d,
{
}

} // verus!

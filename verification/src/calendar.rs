//! Instants on the proleptic Gregorian calendar, read from text, and the
//! whole days between two of them.

use chrono::{Datelike, NaiveDate, NaiveDateTime, Timelike};
use vstd::prelude::*;

verus! {

/// A date and time of day without a zone.
///
/// `day` counts the days from the first of January of the year 1, which is
/// day 1. `secs` counts the seconds from midnight. `frac` counts the
/// nanoseconds from the start of that second; a value of a thousand
/// million or more stands for a leap second after it.
#[derive(Debug, Clone, Copy, PartialEq, Eq)]
pub struct Instant {
    pub day: i32,
    pub secs: u32,
    pub frac: u32,
}

/// The number of seconds in a day.
pub const SECONDS_PER_DAY: u64 = 86_400;

/// The number of nanoseconds in a second.
pub const NANOS_PER_SECOND: u64 = 1_000_000_000;

/// The seconds that a leap second adds between two times of day: one
/// where the earlier time of day stands in a leap second.
pub open spec fn leap_adjustment(later: Instant, earlier: Instant) -> int {
    if later.secs > earlier.secs && earlier.frac >= NANOS_PER_SECOND {
        1
    } else if later.secs < earlier.secs && later.frac >= NANOS_PER_SECOND {
        -1
    } else {
        0
    }
}

/// The nanoseconds from `earlier` to `later`, negative where `later` is
/// the earlier of the two.
pub open spec fn nanos_between(later: Instant, earlier: Instant) -> int {
    ((later.day - earlier.day) * SECONDS_PER_DAY + (later.secs - earlier.secs) + leap_adjustment(
        later,
        earlier,
    )) * NANOS_PER_SECOND + (later.frac - earlier.frac)
}

/// `a` divided by `b`, rounded toward zero.
pub open spec fn truncated_quotient(a: int, b: int) -> int {
    if a >= 0 {
        a / b
    } else {
        -((-a) / b)
    }
}

/// The whole days from `earlier` to `later`, rounded toward zero.
pub open spec fn days_between(later: Instant, earlier: Instant) -> int {
    truncated_quotient(nanos_between(later, earlier), SECONDS_PER_DAY * NANOS_PER_SECOND)
}

/// The whole days from `earlier` to `later`, rounded toward zero: negative
/// where `later` is the earlier of the two by a day or more.
pub fn whole_days_between(later: &Instant, earlier: &Instant) -> (days: i64)
    ensures
        days == days_between(*later, *earlier),
{
    let leap: i128 = if later.secs > earlier.secs && earlier.frac >= 1_000_000_000 {
        1
    } else if later.secs < earlier.secs && later.frac >= 1_000_000_000 {
        -1
    } else {
        0
    };
    let day_gap: i128 = later.day as i128 - earlier.day as i128;
    let seconds: i128 = day_gap * 86_400 + (later.secs as i128 - earlier.secs as i128) + leap;
    assert(-0x10_0000_0000_0000 < seconds < 0x10_0000_0000_0000);
    let nanos: i128 = seconds * 1_000_000_000 + (later.frac as i128 - earlier.frac as i128);
    assert(nanos == nanos_between(*later, *earlier));
    let per_day: u128 = 86_400_000_000_000;
    if nanos >= 0 {
        let q: u128 = (nanos as u128) / per_day;
        assert(q <= nanos);
        q as i64
    } else {
        let q: u128 = ((-nanos) as u128) / per_day;
        assert(q <= -nanos);
        -(q as i64)
    }
}

/// Two instants at the same time of day lie apart by the number of days
/// between their dates: one day for the day before, and a negative number
/// for a day ahead.
pub proof fn lemma_same_time_of_day(later: Instant, earlier: Instant)
    requires
        later.secs == earlier.secs,
        later.frac == earlier.frac,
    ensures
        days_between(later, earlier) == later.day - earlier.day,
{
    let gap = later.day - earlier.day;
    let per_day = SECONDS_PER_DAY * NANOS_PER_SECOND;
    assert(nanos_between(later, earlier) == gap * per_day) by (nonlinear_arith)
        requires
            nanos_between(later, earlier) == (gap * SECONDS_PER_DAY) * NANOS_PER_SECOND,
            per_day == SECONDS_PER_DAY * NANOS_PER_SECOND,
    ;
    if gap >= 0 {
        assert((gap * per_day) / (per_day as int) == gap) by (nonlinear_arith)
            requires
                per_day > 0,
        ;
    } else {
        assert((-(gap * per_day)) / (per_day as int) == -gap) by (nonlinear_arith)
            requires
                per_day > 0,
        ;
    }
}

/// The days from one instant to another are the days the other way round
/// with the sign changed.
pub proof fn lemma_days_between_reversed(a: Instant, b: Instant)
    ensures
        days_between(a, b) == -days_between(b, a),
{
    assert(nanos_between(a, b) == -nanos_between(b, a)) by (nonlinear_arith)
        requires
            leap_adjustment(a, b) == -leap_adjustment(b, a),
            nanos_between(a, b) == ((a.day - b.day) * SECONDS_PER_DAY + (a.secs - b.secs)
                + leap_adjustment(a, b)) * NANOS_PER_SECOND + (a.frac - b.frac),
            nanos_between(b, a) == ((b.day - a.day) * SECONDS_PER_DAY + (b.secs - a.secs)
                + leap_adjustment(b, a)) * NANOS_PER_SECOND + (b.frac - a.frac),
    ;
    if nanos_between(a, b) == 0 {
        assert(0int / ((SECONDS_PER_DAY * NANOS_PER_SECOND) as int) == 0);
    }
}

/// Less than a day apart, in either direction, counts as no day at all.
pub proof fn lemma_within_a_day(later: Instant, earlier: Instant)
    requires
        -(SECONDS_PER_DAY * NANOS_PER_SECOND) < nanos_between(later, earlier) < SECONDS_PER_DAY
            * NANOS_PER_SECOND,
    ensures
        days_between(later, earlier) == 0,
{
    let n = nanos_between(later, earlier);
    let per_day = (SECONDS_PER_DAY * NANOS_PER_SECOND) as int;
    if n >= 0 {
        assert(n / per_day == 0) by (nonlinear_arith)
            requires
                0 <= n < per_day,
        ;
    } else {
        assert((-n) / per_day == 0) by (nonlinear_arith)
            requires
                0 <= -n < per_day,
        ;
    }
}

/// Names what `chrono::NaiveDateTime::parse_from_str` reads from a text
/// under a format: the day, the seconds from midnight and the nanoseconds
/// of the date and time, or nothing where the text does not fit the
/// format.
pub uninterp spec fn datetime_of(text: Seq<char>, format: Seq<char>) -> Option<(int, int, int)>;

/// Names what `chrono::NaiveDate::parse_from_str` reads from a text under
/// a format: the day of the date, or nothing where the text does not fit
/// the format.
pub uninterp spec fn date_of(text: Seq<char>, format: Seq<char>) -> Option<int>;

/// The parts of an optional instant.
pub open spec fn instant_parts(t: Option<Instant>) -> Option<(int, int, int)> {
    match t {
        Some(t) => Some((t.day as int, t.secs as int, t.frac as int)),
        None => None,
    }
}

/// The instant with the given parts, where they fit its fields.
pub open spec fn instant_of(parts: Option<(int, int, int)>) -> Option<Instant> {
    match parts {
        Some((day, secs, frac)) => Some(
            Instant { day: day as i32, secs: secs as u32, frac: frac as u32 },
        ),
        None => None,
    }
}

/// Midnight at the start of the given day.
pub open spec fn midnight_of(day: Option<int>) -> Option<Instant> {
    match day {
        Some(day) => Some(Instant { day: day as i32, secs: 0, frac: 0 }),
        None => None,
    }
}

/// Reads a date and time with `chrono::NaiveDateTime::parse_from_str`.
/// The contract names the result and claims nothing else of it.
#[verifier::external_body]
pub(crate) fn parse_datetime(text: &str, format: &str) -> (r: Option<Instant>)
    ensures
        instant_parts(r) == datetime_of(text@, format@),
{
    match NaiveDateTime::parse_from_str(text, format) {
        Ok(t) => Some(
            Instant {
                day: t.date().num_days_from_ce(),
                secs: t.time().num_seconds_from_midnight(),
                frac: t.time().nanosecond(),
            },
        ),
        Err(_) => None,
    }
}

/// Reads a date with `chrono::NaiveDate::parse_from_str`. The contract
/// names the result and claims nothing else of it.
#[verifier::external_body]
pub(crate) fn parse_date(text: &str, format: &str) -> (r: Option<i32>)
    ensures
        match r {
            Some(day) => date_of(text@, format@) == Some(day as int),
            None => date_of(text@, format@).is_none(),
        },
{
    match NaiveDate::parse_from_str(text, format) {
        Ok(d) => Some(d.num_days_from_ce()),
        Err(_) => None,
    }
}

} // verus!

//! Times of day and timestamps as plain values, with the calendar and clock
//! computations done by `chrono`.

use vstd::prelude::*;
use chrono::{Datelike, Timelike};
use vstd::arithmetic::div_mod::{lemma_fundamental_div_mod, lemma_fundamental_div_mod_converse};

verus! {

/// Nanoseconds in one second.
pub const NANOS_PER_SECOND: u32 = 1_000_000_000;

/// Seconds in one day.
pub const SECONDS_PER_DAY: u32 = 86_400;

/// The first day (-262143-01-01) `chrono` can represent, as a day number
/// counted from the common era, 0001-01-01 being day 1.
pub const MIN_DAY: i32 = -95_746_129;

/// The last day (262142-12-31) `chrono` can represent, as a day number.
pub const MAX_DAY: i32 = 95_745_399;

/// The day number of the Unix epoch, 1970-01-01.
pub const UNIX_EPOCH_DAY: i32 = 719_163;

/// The smallest day number (days from the common era, 0001-01-01 being day 1)
/// for which week computations stay in range: six days after the first day
/// `chrono` can represent (-262143-01-01).
pub const MIN_WEEK_DAY: i32 = -95_746_123;

/// The largest day number for which week computations stay in range: six
/// days before the last day `chrono` can represent (262142-12-31).
pub const MAX_WEEK_DAY: i32 = 95_745_393;

/// A time of day: whole seconds since midnight and the nanoseconds past that
/// second, as `chrono::NaiveTime` stores it (without leap seconds).
#[derive(Clone, Copy, Debug, PartialEq, Eq, Structural)]
pub struct TimeOfDay {
    pub secs: u32,
    pub nanos: u32,
}

/// A date and time: the day number counted from the common era (0001-01-01 is
/// day 1, as `chrono`'s `num_days_from_ce`) and a time of day.
#[derive(Clone, Copy, Debug, PartialEq, Eq, Structural)]
pub struct DateTime {
    pub days: i32,
    pub time: TimeOfDay,
}

/// Division of an integer by a positive divisor, rounding toward zero.
pub open spec fn trunc_div(a: int, d: int) -> int
    recommends
        d > 0,
{
    if a >= 0 {
        a / d
    } else {
        -((-a) / d)
    }
}

/// Nanoseconds in one minute.
pub open spec fn nanos_per_minute() -> int {
    60_000_000_000
}

/// Days since the last Monday for the given day number; day 1 (0001-01-01)
/// was a Monday in the proleptic Gregorian calendar.
pub open spec fn days_since_monday(day: int) -> int {
    (day - 1) % 7
}

/// The first day (a Monday) of the week holding `day`.
pub open spec fn week_start(day: int) -> int {
    day - days_since_monday(day)
}

/// A later day never lies in an earlier week.
pub proof fn lemma_week_start_monotone(a: int, b: int)
    requires
        a <= b,
    ensures
        week_start(a) <= week_start(b),
{
    lemma_fundamental_div_mod(a - 1, 7);
    lemma_fundamental_div_mod(b - 1, 7);
    let qa = (a - 1) / 7;
    let qb = (b - 1) / 7;
    assert(week_start(a) == 7 * qa + 1);
    assert(week_start(b) == 7 * qb + 1);
    assert(qa <= qb);
}

/// Weeks run from Monday to Sunday: the week of `day` starts on a Monday no
/// later than `day` and ends six days later, no earlier than `day`, and every
/// day of it has that same week.
pub proof fn lemma_week_contains_day(day: int)
    ensures
        week_start(day) <= day <= week_start(day) + 6,
        days_since_monday(week_start(day)) == 0,
        forall|d: int| week_start(day) <= d <= week_start(day) + 6 ==> #[trigger] week_start(d) == week_start(day),
{
    let q = (day - 1) / 7;
    let r = (day - 1) % 7;
    lemma_fundamental_div_mod(day - 1, 7);
    assert(0 <= r < 7);
    let s = week_start(day);
    assert(s - 1 == q * 7);
    lemma_fundamental_div_mod_converse(s - 1, 7, q, 0);
    assert forall|d: int| s <= d <= s + 6 implies #[trigger] week_start(d) == s by {
        lemma_fundamental_div_mod_converse(d - 1, 7, q, d - s);
    }
}

impl TimeOfDay {
    /// A valid time of day: before midnight, and no leap second.
    pub open spec fn wf(self) -> bool {
        self.secs < SECONDS_PER_DAY && self.nanos < NANOS_PER_SECOND
    }

    /// The time of day as nanoseconds since midnight.
    pub open spec fn total_nanos(self) -> int {
        self.secs * 1_000_000_000 + self.nanos
    }

    /// Make a time of day from seconds since midnight and nanoseconds, if
    /// both are in range.
    pub fn new(secs: u32, nanos: u32) -> (r: Option<TimeOfDay>)
        ensures
            r matches Some(t) ==> t.wf() && t.secs == secs && t.nanos == nanos,
            r is None <==> !(secs < SECONDS_PER_DAY && nanos < NANOS_PER_SECOND),
    {
        if secs < SECONDS_PER_DAY && nanos < NANOS_PER_SECOND {
            Some(TimeOfDay { secs, nanos })
        } else {
            None
        }
    }

    /// Make a time of day from hours, minutes and seconds.
    pub fn from_hms(h: u32, m: u32, s: u32) -> (r: Option<TimeOfDay>)
        ensures
            r matches Some(t) ==> t.wf() && t.secs == h * 3600 + m * 60 + s && t.nanos == 0,
            r is None <==> !(h < 24 && m < 60 && s < 60),
    {
        if h < 24 && m < 60 && s < 60 {
            Some(TimeOfDay { secs: h * 3600 + m * 60 + s, nanos: 0 })
        } else {
            None
        }
    }

    /// Whether `self` comes strictly before `other` (the order of
    /// `chrono::NaiveTime`: by seconds, then by nanoseconds).
    pub fn lt(&self, other: &TimeOfDay) -> (r: bool)
        requires
            self.wf(),
            other.wf(),
        ensures
            r == (self.total_nanos() < other.total_nanos()),
    {
        self.secs < other.secs || (self.secs == other.secs && self.nanos < other.nanos)
    }
}

impl DateTime {
    /// A valid date and time.
    pub open spec fn wf(self) -> bool {
        self.time.wf()
    }

    /// The order of `chrono::NaiveDateTime`: by date, then by time of day.
    pub open spec fn before(self, other: DateTime) -> bool {
        self.days < other.days || (self.days == other.days && self.time.total_nanos()
            < other.time.total_nanos())
    }

    /// Whether `self` comes strictly before `other`.
    pub fn lt(&self, other: &DateTime) -> (r: bool)
        requires
            self.wf(),
            other.wf(),
        ensures
            r == self.before(*other),
    {
        self.days < other.days || (self.days == other.days && self.time.lt(&other.time))
    }
}

/// The current UTC date and time, read from the system clock by
/// `chrono::Utc::now` and converted to plain values.  `chrono` builds it from
/// the duration since the Unix epoch (day 719163) and stops the program when
/// the clock lies before the epoch or beyond the dates it represents; so when
/// it returns, the time of day is valid, without a leap second, and the day
/// lies between the epoch and the last day `chrono` represents.  Which
/// instant is returned is left unsaid.
#[verifier::external_body]
pub(crate) fn current_utc() -> (r: DateTime)
    ensures
        r.wf(),
        UNIX_EPOCH_DAY <= r.days <= MAX_DAY,
{
    let now = chrono::Utc::now().naive_utc();
    DateTime {
        days: now.date().num_days_from_ce(),
        time: TimeOfDay { secs: now.time().num_seconds_from_midnight(), nanos: now.time().nanosecond() },
    }
}

/// Whole minutes from `earlier` to `later`, computed by `chrono` as
/// `(later - earlier).num_minutes()` on two `NaiveTime`s.  For times without
/// leap seconds `chrono` subtracts the nanosecond counts and `num_minutes`
/// rounds the quotient toward zero; that is what the contract states.
#[verifier::external_body]
pub(crate) fn minutes_between(later: &TimeOfDay, earlier: &TimeOfDay) -> (r: i64)
    requires
        later.wf(),
        earlier.wf(),
    ensures
        r == trunc_div(later.total_nanos() - earlier.total_nanos(), nanos_per_minute()),
{
    let a = chrono::NaiveTime::from_num_seconds_from_midnight_opt(later.secs, later.nanos).unwrap();
    let b = chrono::NaiveTime::from_num_seconds_from_midnight_opt(earlier.secs, earlier.nanos).unwrap();
    (a - b).num_minutes()
}

/// The first and last day (Monday and Sunday) of the week holding `day`,
/// computed by `chrono` as `date.week(Weekday::Mon).checked_first_day()` and
/// `checked_last_day()`.  The contract states the Monday on or before `day`
/// and the Sunday six days later; the bounds on `day` keep both inside the
/// range of `chrono::NaiveDate`, so neither computation fails.
#[verifier::external_body]
pub(crate) fn week_bounds(day: i32) -> (r: (i32, i32))
    requires
        MIN_WEEK_DAY <= day <= MAX_WEEK_DAY,
    ensures
        r.0 == week_start(day as int),
        r.1 == r.0 + 6,
{
    let date = chrono::NaiveDate::from_num_days_from_ce_opt(day).unwrap();
    let week = date.week(chrono::Weekday::Mon);
    (week.checked_first_day().unwrap().num_days_from_ce(), week.checked_last_day().unwrap().num_days_from_ce())
}

/// A time of day moved forward by whole minutes, wrapping around midnight.
pub open spec fn spec_add_minutes(t: TimeOfDay, minutes: int) -> TimeOfDay {
    TimeOfDay { secs: ((t.secs + 60 * minutes) % 86_400) as u32, nanos: t.nanos }
}

/// A time of day moved by whole minutes with `chrono` (`NaiveTime +
/// TimeDelta::minutes(minutes)`), which wraps around midnight and keeps the
/// nanoseconds: the contract states that arithmetic.
#[verifier::external_body]
pub(crate) fn add_minutes(t: &TimeOfDay, minutes: i64) -> (r: TimeOfDay)
    requires
        t.wf(),
        i32::MIN <= minutes <= i32::MAX,
    ensures
        r == spec_add_minutes(*t, minutes as int),
        r.wf(),
{
    let time = chrono::NaiveTime::from_num_seconds_from_midnight_opt(t.secs, t.nanos).unwrap()
        + chrono::TimeDelta::minutes(minutes);
    TimeOfDay { secs: chrono::Timelike::num_seconds_from_midnight(&time), nanos: chrono::Timelike::nanosecond(&time) }
}

} // verus!

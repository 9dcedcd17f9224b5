//! Random dates around today and random opening times.

use vstd::prelude::*;
use crate::seeder::random::{random_bool, random_i64_below, random_in_range, random_index};
use crate::time::{
    DateTime, TimeOfDay, MAX_DAY, MAX_WEEK_DAY, MIN_DAY, MIN_WEEK_DAY, UNIX_EPOCH_DAY, add_minutes, current_utc,
    lemma_week_contains_day, minutes_between, nanos_per_minute, trunc_div, week_bounds, week_start,
};
use vstd::arithmetic::div_mod::lemma_fundamental_div_mod_converse;

verus! {

/// The span of moments, as seconds since the Unix epoch, that seeded dates
/// are drawn from in the week that starts on day `week_first`: from 08:00 on
/// the Monday a week earlier up to (not including) 22:00 on the Sunday a
/// week later.
pub open spec fn relevant_window(week_first: int) -> (int, int) {
    (
        (week_first - 7 - UNIX_EPOCH_DAY) * 86_400 + 8 * 3600,
        (week_first + 13 - UNIX_EPOCH_DAY) * 86_400 + 22 * 3600,
    )
}

/// The window of seeded dates can be formed around `today`: its week and
/// the weeks before and after it are days `chrono` can represent.
pub open spec fn window_in_range(today: int) -> bool {
    &&& MIN_WEEK_DAY <= today <= MAX_WEEK_DAY
    &&& MIN_DAY <= week_start(today) - 7
    &&& week_start(today) + 13 <= MAX_DAY
}

/// The window of seeded dates around `today`: `None` when it reaches outside
/// the days `chrono` can represent.
pub fn relevant_window_for(today: i32) -> (r: Option<(i64, i64)>)
    ensures
        r is Some <==> window_in_range(today as int),
        r matches Some((lo, hi)) ==> lo == relevant_window(week_start(today as int)).0 && hi == relevant_window(
            week_start(today as int),
        ).1,
{
    if today < MIN_WEEK_DAY || today > MAX_WEEK_DAY {
        return None;
    }
    let (first, last) = week_bounds(today);
    if first - 7 < MIN_DAY || last + 7 > MAX_DAY {
        return None;
    }
    let start = (first as i64 - 7 - UNIX_EPOCH_DAY as i64) * 86_400 + 8 * 3600;
    let end = (last as i64 + 7 - UNIX_EPOCH_DAY as i64) * 86_400 + 22 * 3600;
    Some((start, end))
}

/// The date and time `t` seconds after the Unix epoch (before it, for a
/// negative `t`), as `chrono::DateTime::from_timestamp` reads it.
pub open spec fn datetime_at(t: int) -> DateTime {
    DateTime {
        days: (UNIX_EPOCH_DAY + t / 86_400) as i32,
        time: TimeOfDay { secs: (t % 86_400) as u32, nanos: 0 },
    }
}

/// Timestamps whose day is one `chrono` can represent.
pub open spec fn timestamp_in_range(t: int) -> bool {
    MIN_DAY <= UNIX_EPOCH_DAY + t / 86_400 <= MAX_DAY
}

/// The date and time `t` seconds after the Unix epoch.
pub fn datetime_at_timestamp(t: i64) -> (r: DateTime)
    requires
        timestamp_in_range(t as int),
    ensures
        r == datetime_at(t as int),
        r.wf(),
{
    let q: i64 = if t >= 0 { t / 86_400 } else { -((-t + 86_399) / 86_400) };
    let rem: i64 = t - q * 86_400;
    proof {
        assert(0 <= rem < 86_400) by (nonlinear_arith)
            requires
                q == (if t >= 0 { t / 86_400 } else { -((-t + 86_399) / 86_400) }),
                rem == t - q * 86_400,
        ;
        lemma_fundamental_div_mod_converse(t as int, 86_400, q as int, rem as int);
    }
    DateTime { days: UNIX_EPOCH_DAY + q as i32, time: TimeOfDay { secs: rem as u32, nanos: 0 } }
}

/// A moment in the window of seeded dates of the week of some day from the
/// Unix epoch on.
pub open spec fn is_relevant_datetime(d: DateTime) -> bool {
    exists|today: int, t: int|
        #![trigger window_in_range(today), datetime_at(t)]
        UNIX_EPOCH_DAY <= today && window_in_range(today) && relevant_window(week_start(today)).0 <= t
            < relevant_window(week_start(today)).1 && d == datetime_at(t)
}

/// A moment in the window of seeded dates of the week of `today`.
pub open spec fn in_window_of(today: int, d: DateTime) -> bool {
    exists|t: int|
        #![trigger datetime_at(t)]
        relevant_window(week_start(today)).0 <= t < relevant_window(week_start(today)).1 && d == datetime_at(t)
}

/// A random date and time, at whole seconds, from 08:00 on the Monday of the
/// week before the week of `today` up to 22:00 on the Sunday of the week
/// after it.  `None` exactly when those weeks reach outside the dates
/// `chrono` can represent.
pub fn random_datetime_around(today: i32) -> (r: Option<DateTime>)
    ensures
        r is Some <==> window_in_range(today as int),
        r matches Some(d) ==> d.wf() && in_window_of(today as int, d),
{
    match relevant_window_for(today) {
        None => None,
        Some((lo, hi)) => {
            proof {
                lemma_week_contains_day(today as int);
            }
            let t = random_i64_below(lo, hi);
            proof {
                assert(timestamp_in_range(t as int)) by (nonlinear_arith)
                    requires
                        lo <= t < hi,
                        lo == (week_start(today as int) - 7 - UNIX_EPOCH_DAY) * 86_400 + 8 * 3600,
                        hi == (week_start(today as int) + 13 - UNIX_EPOCH_DAY) * 86_400 + 22 * 3600,
                        MIN_DAY <= week_start(today as int) - 7,
                        week_start(today as int) + 13 <= MAX_DAY,
                ;
            }
            let d = datetime_at_timestamp(t);
            assert(in_window_of(today as int, d));
            Some(d)
        },
    }
}

/// A random date and time, at whole seconds, from 08:00 on the Monday of
/// last week up to 22:00 on the Sunday of next week, the weeks taken around
/// today's date.  `None` when those weeks reach outside the dates `chrono`
/// can represent.
pub fn random_relevant_datetime() -> (r: Option<DateTime>)
    ensures
        r matches Some(d) ==> d.wf() && is_relevant_datetime(d),
{
    let today = current_utc().days;
    let r = random_datetime_around(today);
    proof {
        if let Some(d) = r {
            let t = choose|t: int|
                relevant_window(week_start(today as int)).0 <= t < relevant_window(week_start(today as int)).1 && d
                    == #[trigger] datetime_at(t);
            assert(window_in_range(today as int));
            assert(is_relevant_datetime(d));
        }
    }
    r
}

/// An opening time to seed: where, on which day, from when to when, its seats,
/// when it takes reservations and who made it.
#[derive(Clone, Copy, Debug)]
pub struct SeedOpeningTime {
    pub location_id: i32,
    pub day: i32,
    pub start_time: TimeOfDay,
    pub end_time: TimeOfDay,
    pub seat_count: Option<i32>,
    pub reservable_from: Option<DateTime>,
    pub reservable_until: Option<DateTime>,
    pub created_by: i32,
}

/// The longest opening time, in minutes, that starts at `start`: six hours,
/// and no later than 23:59:59.
pub open spec fn max_opening_minutes(start: TimeOfDay) -> int {
    let until_midnight = trunc_div(86_399_000_000_000 - start.total_nanos(), nanos_per_minute());
    if 360 < until_midnight { 360 } else { until_midnight }
}

/// The longest opening time, in minutes, that starts at `start`: six hours,
/// and no later than 23:59:59.
pub fn max_opening_duration(start: &TimeOfDay) -> (r: i64)
    requires
        start.wf(),
    ensures
        r == max_opening_minutes(*start),
{
    let max_end_time = TimeOfDay { secs: 86_399, nanos: 0 };
    let until_end = minutes_between(&max_end_time, start);
    if 360 < until_end { 360 } else { until_end }
}

/// Seeded opening hours: starting on a whole minute from 06:00 to 17:59,
/// lasting a whole number of minutes from 15 up to the longest opening time
/// from that start.
pub open spec fn seeded_hours(start: TimeOfDay, end: TimeOfDay) -> bool {
    &&& start.nanos == 0 && end.nanos == 0
    &&& 6 * 3600 <= start.secs < 18 * 3600
    &&& start.secs % 60 == 0
    &&& (end.secs - start.secs) % 60 == 0
    &&& 15 * 60 <= end.secs - start.secs <= max_opening_minutes(start) * 60
}

/// A random opening time at one of `location_ids`, made by one of
/// `profile_ids`: hours as `seeded_hours` says, between 10 and 99 seats or
/// none, and a day and reservation bounds (each possibly none) drawn from the
/// window of seeded dates.  `None` when that window cannot be formed.
pub fn random_seed_opening_time(location_ids: &Vec<i32>, profile_ids: &Vec<i32>) -> (r: Option<SeedOpeningTime>)
    requires
        location_ids@.len() > 0,
        profile_ids@.len() > 0,
    ensures
        r matches Some(o) ==> {
            &&& location_ids@.contains(o.location_id)
            &&& profile_ids@.contains(o.created_by)
            &&& o.start_time.wf() && o.end_time.wf()
            &&& seeded_hours(o.start_time, o.end_time)
            &&& (o.seat_count matches Some(c) ==> 10 <= c < 100)
            &&& exists|d: DateTime| #[trigger] is_relevant_datetime(d) && d.days == o.day
            &&& (o.reservable_from matches Some(d) ==> is_relevant_datetime(d))
            &&& (o.reservable_until matches Some(d) ==> is_relevant_datetime(d))
        },
{
    let start_hour = random_in_range(6, 17);
    let start_minute = random_in_range(0, 59);
    let start_time = TimeOfDay { secs: (start_hour * 3600 + start_minute * 60) as u32, nanos: 0 };
    let max_duration = max_opening_duration(&start_time);
    let duration = random_in_range(15, max_duration as i32);
    let end_time = add_minutes(&start_time, duration as i64);
    let location_id = location_ids[random_index(location_ids.len())];
    let day = match random_relevant_datetime() {
        Some(d) => d.days,
        None => return None,
    };
    let seat_count = if random_bool() {
        Some(random_in_range(10, 99))
    } else {
        None
    };
    let reservable_from = if random_bool() {
        match random_relevant_datetime() {
            Some(d) => Some(d),
            None => return None,
        }
    } else {
        None
    };
    let reservable_until = if random_bool() {
        match random_relevant_datetime() {
            Some(d) => Some(d),
            None => return None,
        }
    } else {
        None
    };
    let created_by = profile_ids[random_index(profile_ids.len())];
    proof {
        assert(end_time.secs == start_time.secs + 60 * duration);
        assert(seeded_hours(start_time, end_time));
    }
    Some(SeedOpeningTime {
        location_id,
        day,
        start_time,
        end_time,
        seat_count,
        reservable_from,
        reservable_until,
        created_by,
    })
}

} // verus!

//! Time-window calculator: the next wall-clock occurrence of a fixed daily
//! time, and the compliance window of a run.
//!
//! All instants are seconds of the local wall clock in the bot's fixed
//! timezone, counted as if that local reading were a UTC timestamp. Only the
//! clock read itself goes through chrono; every computation on instants is
//! plain arithmetic and verified.

use vstd::prelude::*;

verus! {

/// Seconds in one day.
pub const SECS_PER_DAY: u64 = 86400;

/// Seconds in one hour.
pub const SECS_PER_HOUR: u64 = 3600;

/// Seconds in one minute.
pub const SECS_PER_MINUTE: u64 = 60;

/// Local hour at which the daily status-update run is anchored.
pub const CUTOFF_HOUR: u64 = 5;

/// Length of the compliance window, in hours.
pub const WINDOW_HOURS: u64 = 12;

/// The local midnight that starts the day containing `now`.
pub open spec fn day_start(now: int) -> int {
    now - (now % 86400)
}

/// The instant at `hour:minute` of the day containing `now`.
pub open spec fn spec_today_at(hour: int, minute: int, now: int) -> int {
    day_start(now) + hour * 3600 + minute * 60
}

/// The next instant at `hour:minute` strictly after `now` begins, or
/// tomorrow's occurrence when today's is already past (or is `now` itself).
pub open spec fn spec_next_occurrence(hour: int, minute: int, now: int) -> int {
    let today = spec_today_at(hour, minute, now);
    if now < today {
        today
    } else {
        today + 86400
    }
}

/// The next occurrence of the daily time `hour:minute` strictly after `now`.
pub fn next_occurrence(hour: u32, minute: u32, now: u64) -> (r: u64)
    requires
        hour < 24,
        minute < 60,
        now + 2 * SECS_PER_DAY <= u64::MAX,
    ensures
        r == spec_next_occurrence(hour as int, minute as int, now as int),
        now < r <= now + SECS_PER_DAY,
{
    let day: u64 = now - now % SECS_PER_DAY;
    let today: u64 = day + (hour as u64) * SECS_PER_HOUR + (minute as u64) * SECS_PER_MINUTE;
    if now < today {
        today
    } else {
        today + SECS_PER_DAY
    }
}

/// Whenever `now` does not fall exactly on the daily anchor, the next
/// occurrence lies at or after `now` and strictly within the next 24 hours.
/// (When `now` is exactly `hour:minute`, the next occurrence is tomorrow's,
/// exactly 24 hours away.)
pub proof fn lemma_next_occurrence_bounds(hour: int, minute: int, now: int)
    requires
        0 <= hour < 24,
        0 <= minute < 60,
        0 <= now,
        now % 86400 != hour * 3600 + minute * 60,
    ensures
        now <= spec_next_occurrence(hour, minute, now) < now + 86400,
{
}

/// Seconds from `now` until the next occurrence of the daily time.
pub fn duration_until(hour: u32, minute: u32, now: u64) -> (r: u64)
    requires
        hour < 24,
        minute < 60,
        now + 2 * SECS_PER_DAY <= u64::MAX,
    ensures
        r == spec_next_occurrence(hour as int, minute as int, now as int) - now,
        0 < r <= SECS_PER_DAY,
{
    next_occurrence(hour, minute, now) - now
}

/// The half-open interval `[start, end)` of instants whose messages count
/// toward the current run's report.
#[derive(Clone, Copy, Debug, PartialEq, Eq, Structural)]
pub struct ComplianceWindow {
    pub start: u64,
    pub end: u64,
}

/// The anchor of the window for a run at `now`: today's cutoff hour, or
/// yesterday's when `now` is still before today's.
pub open spec fn spec_window_anchor(now: int) -> int {
    let anchor = day_start(now) + 5 * 3600;
    if now < anchor {
        anchor - 86400
    } else {
        anchor
    }
}

/// The compliance window for a run at `now`: the 12 hours leading up to the
/// most recent cutoff-hour anchor.
pub fn compliance_window(now: u64) -> (w: ComplianceWindow)
    requires
        2 * SECS_PER_DAY <= now,
        now + SECS_PER_DAY <= u64::MAX,
    ensures
        w.end == spec_window_anchor(now as int),
        w.end - w.start == WINDOW_HOURS * SECS_PER_HOUR,
        w.start < w.end <= now,
{
    let day: u64 = now - now % SECS_PER_DAY;
    let today_anchor: u64 = day + CUTOFF_HOUR * SECS_PER_HOUR;
    let anchor: u64 = if now < today_anchor {
        today_anchor - SECS_PER_DAY
    } else {
        today_anchor
    };
    ComplianceWindow { start: anchor - WINDOW_HOURS * SECS_PER_HOUR, end: anchor }
}

/// The cutoff-hour instant of the day containing `now`.
pub fn get_five_am_timestamp(now: u64) -> (r: u64)
    requires
        now + SECS_PER_DAY <= u64::MAX,
    ensures
        r == spec_today_at(CUTOFF_HOUR as int, 0, now as int),
{
    now - now % SECS_PER_DAY + CUTOFF_HOUR * SECS_PER_HOUR
}

/// Relies on chrono's `Local::now` and chrono-tz's Asia/Kolkata table: the
/// current wall-clock time in the bot's fixed timezone, as seconds counted as
/// if that local reading were a UTC timestamp. Nothing is promised of the
/// value: callers must hold for every outcome.
#[verifier::external_body]
fn now_local() -> i64 {
    chrono::Local::now().with_timezone(&chrono_tz::Asia::Kolkata).naive_local().and_utc().timestamp()
}

/// Seconds until the next local occurrence of the daily time `hour:minute`,
/// read off the real clock. Whatever the clock says, the wait is positive and
/// at most one day.
pub fn time_until(hour: u32, minute: u32) -> (r: u64)
    requires
        hour < 24,
        minute < 60,
    ensures
        0 < r <= SECS_PER_DAY,
{
    let ts: i64 = now_local();
    let now: u64 = if ts < 0 {
        0
    } else {
        ts as u64
    };
    duration_until(hour, minute, now)
}

} // verus!

//! Calendar reminders: the two reminder kinds and the notification id that
//! each (schedule, kind) pair is scheduled under.

use vstd::prelude::*;
use chrono::Datelike;
use chrono::TimeZone;
use chrono::Timelike;

verus! {

/// When a reminder fires relative to the start of a schedule.
#[derive(Debug, Clone, Copy, PartialEq, Eq, Structural)]
pub enum ReminderKind {
    Before5Min,
    AtStart,
}

/// Minutes before the start at which a reminder fires.
pub open spec fn offset_of(k: ReminderKind) -> i64 {
    match k {
        ReminderKind::Before5Min => 5,
        ReminderKind::AtStart => 0,
    }
}

/// The last digit of a reminder's notification id.
pub open spec fn code_of(k: ReminderKind) -> i32 {
    match k {
        ReminderKind::Before5Min => 1,
        ReminderKind::AtStart => 2,
    }
}

impl ReminderKind {
    pub fn offset_minutes(self) -> (r: i64)
        ensures
            r == offset_of(self),
    {
        match self {
            ReminderKind::Before5Min => 5,
            ReminderKind::AtStart => 0,
        }
    }

    /// Second digit of the derived notification id.
    pub fn code(self) -> (r: i32)
        ensures
            r == code_of(self),
    {
        match self {
            ReminderKind::Before5Min => 1,
            ReminderKind::AtStart => 2,
        }
    }
}

/// The largest schedule id kept as is; larger ids are clamped to it.
pub open spec fn id_cap() -> i64 {
    214748364
}

/// The base of a notification id: the schedule id clamped to the cap, then
/// taken as an `i32`.
pub open spec fn id_base(schedule_id: i64) -> i32 {
    (if schedule_id < id_cap() { schedule_id } else { id_cap() }) as i32
}

/// The notification id of a reminder: ten times the base, plus the kind's
/// code. The computation fits an `i32` for every id above
/// `i32::MIN / 10`.
pub open spec fn notification_id_spec(schedule_id: i64, kind: ReminderKind) -> int {
    id_base(schedule_id) * 10 + code_of(kind)
}

/// The notification id for `(schedule_id, kind)`, derived so that the
/// reminders of a schedule can be cancelled and rescheduled without a job
/// table.
pub fn notification_id(schedule_id: i64, kind: ReminderKind) -> (r: i32)
    requires
        i32::MIN <= id_base(schedule_id) * 10,
        notification_id_spec(schedule_id, kind) <= i32::MAX,
    ensures
        r == notification_id_spec(schedule_id, kind),
{
    let cap: i64 = (i32::MAX as i64) / 10;
    let clamped: i64 = if schedule_id < cap { schedule_id } else { cap };
    let base = clamped as i32;
    base * 10 + kind.code()
}

/// Distinct reminders of schedules with ids up to the cap get distinct
/// notification ids, and the kind can be read back from the id.
pub proof fn lemma_notification_id_injective(a: i64, ka: ReminderKind, b: i64, kb: ReminderKind)
    requires
        0 <= a <= id_cap(),
        0 <= b <= id_cap(),
    ensures
        notification_id_spec(a, ka) == notification_id_spec(b, kb) ==> a == b && ka == kb,
        notification_id_spec(a, ka) % 10 == code_of(ka),
{
    assert(id_base(a) == a);
    assert(id_base(b) == b);
}

/// The day number (January 1 of year 1 is day 1) of a `YYYY-MM-DD` date,
/// as chrono reads it; none when it does not read it.
pub uninterp spec fn date_days(date: Seq<char>) -> Option<int>;

/// The hour and minute of an `HH:MM` time, as chrono reads it; none when it
/// does not read it.
pub uninterp spec fn time_hm(time: Seq<char>) -> Option<(int, int)>;

/// Calls `chrono::NaiveDate::parse_from_str(date, "%Y-%m-%d")` and, when it
/// reads a date, gives its `num_days_from_ce`. The result is only named.
#[verifier::external_body]
fn parse_date_days(date: &str) -> (r: Option<i32>)
    ensures
        match date_days(date@) {
            Some(d) => r == Some(d as i32) && d == d as i32,
            None => r is None,
        },
{
    chrono::NaiveDate::parse_from_str(date, "%Y-%m-%d").ok().map(|d| d.num_days_from_ce())
}

/// Calls `chrono::NaiveTime::parse_from_str(time, "%H:%M")` and, when it
/// reads a time, gives its hour and minute, which chrono documents as
/// 0..=23 and 0..=59.
#[verifier::external_body]
fn parse_time_hm(time: &str) -> (r: Option<(u32, u32)>)
    ensures
        match time_hm(time@) {
            Some(hm) => r matches Some(x) && x.0 == hm.0 && x.1 == hm.1 && x.0 < 24 && x.1 < 60,
            None => r is None,
        },
{
    chrono::NaiveTime::parse_from_str(time, "%H:%M").ok().map(|t| (t.hour(), t.minute()))
}

/// The Unix time in seconds of the wall-clock minute `hour:minute` of day
/// `days` (January 1 of year 1 is day 1), read as UTC.
pub open spec fn utc_seconds_of(days: int, hour: int, minute: int) -> int {
    (days - 719163) * 86400 + hour * 3600 + minute * 60
}

/// Calls `chrono::Local.from_local_datetime(..).single()` on the wall-clock
/// minute `hour:minute` of day `days` (counted as `num_days_from_ce`
/// counts) and gives the instant's Unix time in seconds. chrono takes the
/// local offset as a `FixedOffset`, which `east_opt` keeps strictly within
/// a day, and subtracts it from the wall-clock time; `timestamp` then counts
/// seconds from day 719163. So the result is less than a day away from the
/// wall-clock time read as UTC. Which offset the zone gives (and whether it
/// gives one: a skipped or repeated wall-clock time gives none) depends on
/// the machine's time zone and is not stated.
#[verifier::external_body]
fn local_timestamp(days: i32, hour: u32, minute: u32) -> (r: Option<i64>)
    ensures
        r matches Some(t) ==> -86400 < utc_seconds_of(days as int, hour as int, minute as int) - t
            < 86400,
{
    let naive = chrono::NaiveDate::from_num_days_from_ce_opt(days)?.and_hms_opt(hour, minute, 0)?;
    chrono::Local.from_local_datetime(&naive).single().map(|t| t.timestamp())
}

/// The wall-clock minute, counted from the start of day 0, at which a
/// reminder of kind `kind` fires for a schedule starting at `hour:minute`
/// on day `days`.
pub open spec fn reminder_minute(days: int, hour: int, minute: int, kind: ReminderKind) -> int {
    days * 1440 + hour * 60 + minute - offset_of(kind)
}

/// The reminder at the start fires five minutes after the one before it.
pub proof fn lemma_reminders_five_minutes_apart(days: int, hour: int, minute: int)
    ensures
        reminder_minute(days, hour, minute, ReminderKind::AtStart) == reminder_minute(
            days,
            hour,
            minute,
            ReminderKind::Before5Min,
        ) + 5,
{
}

/// The wall-clock minute a reminder fires at, for a schedule starting at
/// `hour:minute` on day `days`: its offset earlier, on the day before when
/// that crosses midnight. None only when that day has no `i32` number.
pub fn reminder_wall_clock(days: i32, hour: u32, minute: u32, kind: ReminderKind) -> (r: Option<
    (i32, u32, u32),
>)
    requires
        hour < 24,
        minute < 60,
    ensures
        match r {
            Some((d, h, m)) => h < 24 && m < 60 && d * 1440 + h * 60 + m == reminder_minute(
                days as int,
                hour as int,
                minute as int,
                kind,
            ),
            None => reminder_minute(days as int, hour as int, minute as int, kind) < i32::MIN
                * 1440,
        },
{
    let start: u32 = hour * 60 + minute;
    let off: u32 = kind.offset_minutes() as u32;
    if start >= off {
        let t = start - off;
        Some((days, t / 60, t % 60))
    } else {
        if days == i32::MIN {
            return None;
        }
        let t = start + 1440 - off;
        Some((days - 1, t / 60, t % 60))
    }
}

/// A reminder instant `t` for a schedule on `date` at `time`: both read, and
/// `t` less than a day away from the reminder's wall-clock minute read as UTC
/// (the local offset lies in between).
pub open spec fn fires_near(date: Seq<char>, time: Seq<char>, kind: ReminderKind, t: int) -> bool {
    &&& date_days(date) matches Some(d)
    &&& time_hm(time) matches Some(hm)
    &&& -86400 < (reminder_minute(d, hm.0, hm.1, kind) - 719163 * 1440) * 60 - t < 86400
}

/// When a reminder fires, as a Unix time in seconds: the schedule's date
/// and time read by chrono, made earlier by the reminder's offset, and
/// placed in the local time zone. None when the date or the time does not
/// read, or the local time zone has no single such instant.
pub fn compute_at(date: &str, time: &str, kind: ReminderKind) -> (r: Option<i64>)
    ensures
        date_days(date@) is None ==> r is None,
        time_hm(time@) is None ==> r is None,
        r matches Some(t) ==> fires_near(date@, time@, kind, t as int),
{
    let days = parse_date_days(date)?;
    let (h, m) = parse_time_hm(time)?;
    let (d, hh, mm) = reminder_wall_clock(days, h, m, kind)?;
    local_timestamp(d, hh, mm)
}

/// Whether a reminder is skipped because it would fire now or earlier.
pub fn should_skip_past(now: i64, at: i64) -> (r: bool)
    ensures
        r == (at <= now),
{
    at <= now
}

} // verus!

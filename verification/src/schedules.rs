//! Calendar schedules: the input the interface sends, the month filter of
//! the calendar, and how reminder flags are stored.

use vstd::prelude::*;

verus! {

/// A schedule as the interface sends it; reminders are off unless asked.
#[derive(Debug, Clone, PartialEq)]
pub struct ScheduleInput {
    pub date: String,
    pub time: Option<String>,
    pub location: Option<String>,
    pub description: Option<String>,
    pub notes: Option<String>,
    pub remind_before_5min: bool,
    pub remind_at_start: bool,
}

/// The `LIKE` pattern of the schedules of a month (`YYYY-MM`): the dates
/// that start with it.
pub fn month_pattern(month: &str) -> (r: String)
    ensures
        r@ == month@.push('%'),
{
    let mut r = String::from_str(month);
    r.push('%');
    r
}

/// How a reminder flag is stored: 1 for on, 0 for off.
pub fn flag_value(on: bool) -> (r: i64)
    ensures
        r == if on { 1i64 } else { 0i64 },
{
    if on {
        1
    } else {
        0
    }
}

/// A stored reminder flag read back: any value but 0 is on.
pub fn flag_of(stored: i64) -> (r: bool)
    ensures
        r == (stored != 0),
{
    stored != 0
}

/// Reading back what was stored gives the flag that was stored.
pub proof fn lemma_flag_round_trip(on: bool)
    ensures
        (if on { 1i64 } else { 0i64 }) != 0 == on,
{
}

} // verus!

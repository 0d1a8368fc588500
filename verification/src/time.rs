//! Reading the local wall clock.
use vstd::prelude::*;
use chrono::Datelike;
use chrono::Timelike;
use crate::structs::{CurrentTime, Weekday, weekday_number};

verus! {

/// The fields of one local clock reading, as plain numbers.
pub struct ClockReading {
    pub year: i32,
    pub month: u32,
    pub day: u32,
    pub iso_week: u32,
    pub days_from_monday: u32,
    pub hour: u32,
    pub minute: u32,
}

impl ClockReading {
    /// Every field lies in the range chrono gives it.
    pub open spec fn in_range(self) -> bool {
        &&& 1 <= self.month <= 12
        &&& 1 <= self.day <= 31
        &&& 1 <= self.iso_week <= 53
        &&& self.days_from_monday <= 6
        &&& self.hour <= 23
        &&& self.minute <= 59
    }
}

/// `t` is the reading `r` in the units the schedule uses: each field taken
/// from the matching part of the reading, the weekday counted from Sunday as 1.
pub open spec fn time_of_reading(r: ClockReading, t: CurrentTime) -> bool {
    &&& t.year == r.year
    &&& t.month == r.month
    &&& t.day_of_month == r.day
    &&& t.week == r.iso_week
    &&& weekday_number(t.day_of_week) == if r.days_from_monday == 6 {
        1
    } else {
        r.days_from_monday + 2
    }
    &&& t.day_of_week_num == weekday_number(t.day_of_week)
    &&& t.hour == r.hour
    &&& t.min == r.minute
}

/// Reads `chrono::Local::now()` and takes its calendar fields apart
/// (`year`, `month`, `day`, `iso_week().week()`, `weekday().num_days_from_monday()`,
/// `hour`, `minute`). Trusted: chrono documents the ranges stated here; which
/// instant is read depends on the time of the call and is not stated.
#[verifier::external_body]
fn local_clock() -> (r: ClockReading)
    ensures
        r.in_range(),
{
    let now = chrono::Local::now();
    ClockReading {
        year: now.year(),
        month: now.month(),
        day: now.day(),
        iso_week: now.iso_week().week(),
        days_from_monday: now.weekday().num_days_from_monday(),
        hour: now.hour(),
        minute: now.minute(),
    }
}

/// The weekday that lies `n` days after Monday.
pub fn weekday_from_monday(n: u32) -> (d: Weekday)
    requires
        n <= 6,
    ensures
        weekday_number(d) == if n == 6 { 1 } else { n + 2 },
{
    if n == 0 {
        Weekday::Mon
    } else if n == 1 {
        Weekday::Tue
    } else if n == 2 {
        Weekday::Wed
    } else if n == 3 {
        Weekday::Thu
    } else if n == 4 {
        Weekday::Fri
    } else if n == 5 {
        Weekday::Sat
    } else {
        Weekday::Sun
    }
}

impl CurrentTime {
    /// The time a clock reading stands for.
    pub fn from_reading(reading: &ClockReading) -> (t: CurrentTime)
        requires
            reading.in_range(),
        ensures
            time_of_reading(*reading, t),
            t.is_valid(),
    {
        let day_of_week = weekday_from_monday(reading.days_from_monday);
        let day_of_week_num = CurrentTime::convert_weekday_to_int(day_of_week);
        CurrentTime {
            year: reading.year,
            month: reading.month as i32,
            day_of_month: reading.day as i32,
            week: reading.iso_week as i32,
            day_of_week,
            day_of_week_num,
            hour: reading.hour as i32,
            min: reading.minute as i32,
        }
    }

    /// The current local time: one reading of the local clock. Which instant
    /// is read is up to the clock.
    pub fn now() -> (t: CurrentTime)
        ensures
            exists|r: ClockReading| r.in_range() && #[trigger] time_of_reading(r, t),
            t.is_valid(),
    {
        let reading = local_clock();
        CurrentTime::from_reading(&reading)
    }

    /// The number of a weekday: Sunday is 1, Monday 2, up to Saturday 7.
    pub fn convert_weekday_to_int(day: Weekday) -> (n: i32)
        ensures
            n == weekday_number(day),
            1 <= n <= 7,
    {
        match day {
            Weekday::Sun => 1,
            Weekday::Mon => 2,
            Weekday::Tue => 3,
            Weekday::Wed => 4,
            Weekday::Thu => 5,
            Weekday::Fri => 6,
            Weekday::Sat => 7,
        }
    }
}

} // verus!

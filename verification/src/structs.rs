//! The crate's data: a task as the user writes it, a log entry of one run,
//! their stored forms (one sealed byte string per field) and the wall-clock
//! reading that the scheduling rules compare against.
use vstd::prelude::*;

verus! {

/// A scheduled task. A schedule field left `None` matches every value.
#[derive(Debug, PartialEq)]
pub struct Task {
    pub name: Option<String>,
    pub shell: Option<String>,
    pub command: Option<String>,
    pub comment: Option<String>,
    pub month: Option<i32>,
    pub day_of_month: Option<i32>,
    pub day_of_week: Option<i32>,
    pub hour: Option<i32>,
    pub minute: Option<i32>,
    pub year_added: i32,
    pub month_added: i32,
    pub day_of_month_added: i32,
    pub hour_added: i32,
    pub minute_added: i32,
}

/// The stored form of a task: every field sealed on its own.
#[derive(Debug)]
pub struct TaskEncrypted {
    pub name: Vec<u8>,
    pub shell: Vec<u8>,
    pub command: Vec<u8>,
    pub comment: Vec<u8>,
    pub month: Option<Vec<u8>>,
    pub day_of_month: Option<Vec<u8>>,
    pub day_of_week: Option<Vec<u8>>,
    pub hour: Option<Vec<u8>>,
    pub minute: Option<Vec<u8>>,
    pub year_added: Vec<u8>,
    pub month_added: Vec<u8>,
    pub day_of_month_added: Vec<u8>,
    pub hour_added: Vec<u8>,
    pub minute_added: Vec<u8>,
}

/// One run of a task, as written to the log table.
#[derive(Debug, PartialEq)]
pub struct LogEntry {
    pub name: String,
    pub command: String,
    pub output: Option<String>,
    pub execution_year: i32,
    pub execution_month: i32,
    pub execution_week: i32,
    pub execution_day_of_month: i32,
    pub execution_day_of_week: i32,
    pub execution_hour: i32,
    pub execution_minute: i32,
}

/// The stored form of a log entry: every field sealed on its own.
#[derive(Debug)]
pub struct LogEntryEncrypted {
    pub name: Vec<u8>,
    pub command: Vec<u8>,
    pub output: Option<Vec<u8>>,
    pub execution_year: Vec<u8>,
    pub execution_month: Vec<u8>,
    pub execution_week: Vec<u8>,
    pub execution_day_of_month: Vec<u8>,
    pub execution_day_of_week: Vec<u8>,
    pub execution_hour: Vec<u8>,
    pub execution_minute: Vec<u8>,
}

/// A day of the week.
#[derive(Debug, Clone, Copy, PartialEq, Eq, Structural)]
pub enum Weekday {
    Mon,
    Tue,
    Wed,
    Thu,
    Fri,
    Sat,
    Sun,
}

/// A reading of the local wall clock, in the units the schedule uses.
#[derive(Debug, Clone, Copy, PartialEq, Eq, Structural)]
pub struct CurrentTime {
    pub year: i32,
    pub month: i32,
    pub day_of_month: i32,
    pub week: i32,
    pub day_of_week: Weekday,
    pub day_of_week_num: i32,
    pub hour: i32,
    pub min: i32,
}

/// The number of a weekday, counted from Sunday as 1 to Saturday as 7.
pub open spec fn weekday_number(day: Weekday) -> int {
    match day {
        Weekday::Sun => 1,
        Weekday::Mon => 2,
        Weekday::Tue => 3,
        Weekday::Wed => 4,
        Weekday::Thu => 5,
        Weekday::Fri => 6,
        Weekday::Sat => 7,
    }
}

impl CurrentTime {
    /// Every field lies in the range a calendar gives it, and the day number
    /// agrees with the weekday.
    pub open spec fn is_valid(self) -> bool {
        &&& 1 <= self.month <= 12
        &&& 1 <= self.day_of_month <= 31
        &&& 1 <= self.week <= 53
        &&& self.day_of_week_num == weekday_number(self.day_of_week)
        &&& 0 <= self.hour <= 23
        &&& 0 <= self.min <= 59
    }
}

/// Two optional texts are equal, comparing the texts by their characters.
pub open spec fn same_opt_text(a: Option<String>, b: Option<String>) -> bool {
    match (a, b) {
        (Some(x), Some(y)) => x@ == y@,
        (None, None) => true,
        _ => false,
    }
}

/// Two tasks are equal field by field (texts by their characters).
pub open spec fn same_task(a: Task, b: Task) -> bool {
    &&& same_opt_text(a.name, b.name)
    &&& same_opt_text(a.shell, b.shell)
    &&& same_opt_text(a.command, b.command)
    &&& same_opt_text(a.comment, b.comment)
    &&& a.month == b.month
    &&& a.day_of_month == b.day_of_month
    &&& a.day_of_week == b.day_of_week
    &&& a.hour == b.hour
    &&& a.minute == b.minute
    &&& a.year_added == b.year_added
    &&& a.month_added == b.month_added
    &&& a.day_of_month_added == b.day_of_month_added
    &&& a.hour_added == b.hour_added
    &&& a.minute_added == b.minute_added
}

/// Two log entries are equal field by field (texts by their characters).
pub open spec fn same_log(a: LogEntry, b: LogEntry) -> bool {
    &&& a.name@ == b.name@
    &&& a.command@ == b.command@
    &&& same_opt_text(a.output, b.output)
    &&& a.execution_year == b.execution_year
    &&& a.execution_month == b.execution_month
    &&& a.execution_week == b.execution_week
    &&& a.execution_day_of_month == b.execution_day_of_month
    &&& a.execution_day_of_week == b.execution_day_of_week
    &&& a.execution_hour == b.execution_hour
    &&& a.execution_minute == b.execution_minute
}

/// A copy of an optional text.
pub fn copy_opt_text(s: &Option<String>) -> (r: Option<String>)
    ensures
        r == *s,
{
    match s {
        Some(x) => Some(x.clone()),
        None => None,
    }
}

/// Whether two optional texts are equal.
pub fn opt_text_eq(a: &Option<String>, b: &Option<String>) -> (r: bool)
    ensures
        r == same_opt_text(*a, *b),
{
    match (a, b) {
        (Some(x), Some(y)) => *x == *y,
        (None, None) => true,
        _ => false,
    }
}

impl Clone for Task {
    fn clone(&self) -> (r: Self)
        ensures
            r == *self,
    {
        Task {
            name: copy_opt_text(&self.name),
            shell: copy_opt_text(&self.shell),
            command: copy_opt_text(&self.command),
            comment: copy_opt_text(&self.comment),
            month: self.month,
            day_of_month: self.day_of_month,
            day_of_week: self.day_of_week,
            hour: self.hour,
            minute: self.minute,
            year_added: self.year_added,
            month_added: self.month_added,
            day_of_month_added: self.day_of_month_added,
            hour_added: self.hour_added,
            minute_added: self.minute_added,
        }
    }
}

impl Clone for LogEntry {
    fn clone(&self) -> (r: Self)
        ensures
            r == *self,
    {
        LogEntry {
            name: self.name.clone(),
            command: self.command.clone(),
            output: copy_opt_text(&self.output),
            execution_year: self.execution_year,
            execution_month: self.execution_month,
            execution_week: self.execution_week,
            execution_day_of_month: self.execution_day_of_month,
            execution_day_of_week: self.execution_day_of_week,
            execution_hour: self.execution_hour,
            execution_minute: self.execution_minute,
        }
    }
}

impl Task {
    /// Whether two tasks are equal field by field.
    pub fn same_as(&self, other: &Task) -> (r: bool)
        ensures
            r == same_task(*self, *other),
    {
        opt_text_eq(&self.name, &other.name) && opt_text_eq(&self.shell, &other.shell)
            && opt_text_eq(&self.command, &other.command) && opt_text_eq(
            &self.comment,
            &other.comment,
        ) && self.month == other.month && self.day_of_month == other.day_of_month
            && self.day_of_week == other.day_of_week && self.hour == other.hour && self.minute
            == other.minute && self.year_added == other.year_added && self.month_added
            == other.month_added && self.day_of_month_added == other.day_of_month_added
            && self.hour_added == other.hour_added && self.minute_added == other.minute_added
    }
}

} // verus!

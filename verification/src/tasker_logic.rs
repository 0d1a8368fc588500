//! The service's decisions: which tasks are due now, which were missed, and how
//! long to sleep before looking again.
use vstd::prelude::*;
use crate::structs::{CurrentTime, LogEntry, Task, same_task, same_opt_text};
use crate::tables::{unique_names, all_named, unique_log_names, task_names_match};

verus! {

/// An optional schedule field agrees with the clock's value: it is unset, or equal.
pub open spec fn field_matches(field: Option<i32>, value: i32) -> bool {
    match field {
        Some(v) => v == value,
        None => true,
    }
}

/// A task is due at `now`: every schedule field it sets equals the clock's.
pub open spec fn due_at(task: Task, now: CurrentTime) -> bool {
    &&& field_matches(task.month, now.month)
    &&& field_matches(task.day_of_month, now.day_of_month)
    &&& field_matches(task.day_of_week, now.day_of_week_num)
    &&& field_matches(task.hour, now.hour)
    &&& field_matches(task.minute, now.min)
}

/// A daily task (only hour, and perhaps minute, set) whose hour has come
/// today, and whose log entry was not written today.
pub open spec fn daily_missed_at(task: Task, log: LogEntry, now: CurrentTime) -> bool {
    &&& task.month is None
    &&& task.day_of_month is None
    &&& task.day_of_week is None
    &&& task.hour matches Some(h) && h <= now.hour
    &&& log.execution_day_of_month != now.day_of_month
}

/// The log entry shows that the task already ran in its current period.
pub open spec fn executed_at(task: Task, log: LogEntry, now: CurrentTime) -> bool {
    ||| task.month == Some(log.execution_month) && log.execution_year == now.year
    ||| task.day_of_month == Some(log.execution_day_of_month) && log.execution_week == now.week
    ||| task.day_of_week == Some(log.execution_day_of_week) && log.execution_week == now.week
    ||| task.hour == Some(log.execution_hour) && log.execution_week == now.week
        && log.execution_day_of_month == now.day_of_month && log.execution_month == now.month
    ||| task.minute == Some(log.execution_minute) && log.execution_week == now.week
        && log.execution_day_of_month == now.month && log.execution_hour == now.hour
}

/// The task's name is the log entry's name.
pub open spec fn task_named_in_log(task: Task, log: LogEntry) -> bool {
    same_opt_text(task.name, Some(log.name))
}

/// Some task in `s` equals `t`.
pub open spec fn has_task(s: Seq<Task>, t: Task) -> bool {
    exists|i: int| 0 <= i < s.len() && same_task(#[trigger] s[i], t)
}

/// What one log entry adds to the list of tasks to run.
pub open spec fn log_step(acc: Seq<Task>, t: Task, l: LogEntry, now: CurrentTime) -> Seq<Task> {
    if task_named_in_log(t, l) && ((due_at(t, now) && !executed_at(t, l, now) && !has_task(acc, t))
        || daily_missed_at(t, l, now)) {
        acc.push(t)
    } else {
        acc
    }
}

/// The list of tasks to run after comparing `t` with each of `logs` in turn.
pub open spec fn scan_logs(acc: Seq<Task>, t: Task, logs: Seq<LogEntry>, now: CurrentTime) -> Seq<
    Task,
>
    decreases logs.len(),
{
    if logs.len() == 0 {
        acc
    } else {
        log_step(scan_logs(acc, t, logs.drop_last(), now), t, logs.last(), now)
    }
}

/// Some entry of `logs` carries the task's name.
pub open spec fn named_in_logs(t: Task, logs: Seq<LogEntry>) -> bool {
    exists|i: int| 0 <= i < logs.len() && task_named_in_log(t, #[trigger] logs[i])
}

/// What one task adds to the list of tasks to run, when a log table exists.
pub open spec fn task_step_logged(acc: Seq<Task>, t: Task, logs: Seq<LogEntry>, now: CurrentTime) -> Seq<
    Task,
> {
    let acc2 = scan_logs(acc, t, logs, now);
    if !named_in_logs(t, logs) && due_at(t, now) && !has_task(acc2, t) {
        acc2.push(t)
    } else {
        acc2
    }
}

/// What one task adds to the list of tasks to run, when there is no log table.
pub open spec fn task_step_unlogged(acc: Seq<Task>, t: Task, now: CurrentTime) -> Seq<Task> {
    if due_at(t, now) && !has_task(acc, t) {
        acc.push(t)
    } else {
        acc
    }
}

/// The tasks to run at `now`, in order, given the task table and the log table if any.
pub open spec fn tasks_to_run(tasks: Seq<Task>, logs: Option<Seq<LogEntry>>, now: CurrentTime) -> Seq<
    Task,
>
    decreases tasks.len(),
{
    if tasks.len() == 0 {
        Seq::empty()
    } else {
        let acc = tasks_to_run(tasks.drop_last(), logs, now);
        match logs {
            Some(l) => task_step_logged(acc, tasks.last(), l, now),
            None => task_step_unlogged(acc, tasks.last(), now),
        }
    }
}

/// Fits in an `i32`.
pub open spec fn fits_i32(x: int) -> bool {
    i32::MIN <= x <= i32::MAX
}

/// Seconds the month field adds to a task's wait.
pub open spec fn month_wait(m: int, now: int) -> int {
    if m > now {
        (m - now) * 2_628_000
    } else if m < now {
        (12 - now + m) * 2_628_000
    } else {
        0
    }
}

/// Seconds the day-of-month field adds to a task's wait (every month taken as 29 days).
pub open spec fn day_of_month_wait(d: int, now: int) -> int {
    if d > now {
        d * 86_400
    } else if d < now {
        (29 - now + d) * 86_400
    } else {
        0
    }
}

/// Seconds the day-of-week field adds to a task's wait.
pub open spec fn day_of_week_wait(d: int, now: int) -> int {
    if d > now {
        (d - now) * 86_400
    } else if d < now {
        (7 - now + d) * 86_400
    } else {
        0
    }
}

/// Seconds the hour field adds to a task's wait (an hour that has passed today
/// counts 36000 seconds an hour).
pub open spec fn hour_wait(h: int, now: int) -> int {
    if h > now {
        (h - now) * 3_600
    } else if h < now {
        (24 - now + h) * 36_000
    } else {
        0
    }
}

/// Seconds the minute field adds to a task's wait.
pub open spec fn minute_wait(m: int, now: int) -> int {
    if m > now {
        (m - now) * 60
    } else if m < now {
        (60 - now + m) * 60
    } else {
        0
    }
}

/// The wait a set field adds; an unset field adds nothing.
pub open spec fn opt_wait(field: Option<i32>, f: spec_fn(int) -> int) -> int {
    match field {
        Some(v) => f(v as int),
        None => 0,
    }
}

/// The wait estimate after its month field.
pub open spec fn wait_after_month(t: Task, now: CurrentTime) -> int {
    opt_wait(t.month, |m: int| month_wait(m, now.month as int))
}

/// The wait estimate after its month and day-of-month fields.
pub open spec fn wait_after_day_of_month(t: Task, now: CurrentTime) -> int {
    wait_after_month(t, now) + opt_wait(
        t.day_of_month,
        |d: int| day_of_month_wait(d, now.day_of_month as int),
    )
}

/// The wait estimate after its month and day fields.
pub open spec fn wait_after_day_of_week(t: Task, now: CurrentTime) -> int {
    wait_after_day_of_month(t, now) + opt_wait(
        t.day_of_week,
        |d: int| day_of_week_wait(d, now.day_of_week_num as int),
    )
}

/// The wait estimate after every field but the minute.
pub open spec fn wait_after_hour(t: Task, now: CurrentTime) -> int {
    wait_after_day_of_week(t, now) + opt_wait(t.hour, |h: int| hour_wait(h, now.hour as int))
}

/// The seconds until a task is next due, as the service estimates it.
pub open spec fn task_wait(t: Task, now: CurrentTime) -> int {
    wait_after_hour(t, now) + opt_wait(t.minute, |m: int| minute_wait(m, now.min as int))
}

/// Each step of the wait estimate for a task stays within `i32` (the estimate
/// is computed in `i32` and an overflow would stop the service).
pub open spec fn wait_fits(t: Task, now: CurrentTime) -> bool {
    &&& fits_i32(wait_after_month(t, now))
    &&& (t.day_of_month matches Some(d) ==> (d < now.day_of_month ==> fits_i32(29 - now.day_of_month + d)))
    &&& fits_i32(opt_wait(t.day_of_month, |d: int| day_of_month_wait(d, now.day_of_month as int)))
    &&& fits_i32(wait_after_day_of_month(t, now))
    &&& fits_i32(opt_wait(t.day_of_week, |d: int| day_of_week_wait(d, now.day_of_week_num as int)))
    &&& fits_i32(wait_after_day_of_week(t, now))
    &&& fits_i32(opt_wait(t.hour, |h: int| hour_wait(h, now.hour as int)))
    &&& fits_i32(wait_after_hour(t, now))
    &&& fits_i32(opt_wait(t.minute, |m: int| minute_wait(m, now.min as int)))
    &&& fits_i32(task_wait(t, now))
}

/// The smallest wait over a table, starting from two years.
pub open spec fn min_wait(tasks: Seq<Task>, now: CurrentTime) -> int
    decreases tasks.len(),
{
    if tasks.len() == 0 {
        64_281_600
    } else {
        let m = min_wait(tasks.drop_last(), now);
        let w = task_wait(tasks.last(), now);
        if w < m {
            w
        } else {
            m
        }
    }
}

/// The service sleeps the smallest wait, at most an hour, and a minute when the
/// smallest wait is not positive (zero, or negative as the 29-day month of the
/// estimate can make it).
pub open spec fn sleep_for(m: int) -> int {
    if m > 3_600 {
        3_600
    } else if m <= 0 {
        60
    } else {
        m
    }
}

/// Each task of the table has a wait estimate that fits in `i32`.
pub open spec fn table_wait_fits(tasks: Seq<Task>, now: CurrentTime) -> bool {
    forall|i: int| 0 <= i < tasks.len() ==> wait_fits(#[trigger] tasks[i], now)
}

/// Whether a task is due at `now`.
pub fn should_execute_at(task: &Task, now: &CurrentTime) -> (r: bool)
    ensures
        r == due_at(*task, *now),
{
    let month = match task.month {
        Some(m) => m == now.month,
        None => true,
    };
    let day_of_month = match task.day_of_month {
        Some(d) => d == now.day_of_month,
        None => true,
    };
    let day_of_week = match task.day_of_week {
        Some(d) => d == now.day_of_week_num,
        None => true,
    };
    let hour = match task.hour {
        Some(h) => h == now.hour,
        None => true,
    };
    let minute = match task.minute {
        Some(m) => m == now.min,
        None => true,
    };
    month && day_of_month && day_of_week && hour && minute
}

/// Whether a task is due now, by the local clock.
pub fn should_execute_now(task: &Task) -> (r: bool)
    ensures
        exists|now: CurrentTime| now.is_valid() && r == due_at(*task, now),
{
    let now = CurrentTime::now();
    should_execute_at(task, &now)
}

/// Whether a daily task was missed today, judged by its log entry.
pub fn is_daily_task_missed_logged_at(task: &Task, log: &LogEntry, now: &CurrentTime) -> (r: bool)
    ensures
        r == daily_missed_at(*task, *log, *now),
{
    if task.month.is_none() && task.day_of_month.is_none() && task.day_of_week.is_none() {
        if let Some(h) = task.hour {
            if h <= now.hour && log.execution_day_of_month != now.day_of_month {
                return true;
            }
        }
    }
    false
}

/// Whether a daily task was missed today, by the local clock.
pub fn is_daily_task_missed_logged(task: &Task, log: &LogEntry) -> (r: bool)
    ensures
        exists|now: CurrentTime| now.is_valid() && r == daily_missed_at(*task, *log, now),
{
    let now = CurrentTime::now();
    is_daily_task_missed_logged_at(task, log, &now)
}

/// Whether the log entry shows the task already ran in its current period.
pub fn was_task_executed_at(task: &Task, log: &LogEntry, now: &CurrentTime) -> (r: bool)
    ensures
        r == executed_at(*task, *log, *now),
{
    if task.month == Some(log.execution_month) && log.execution_year == now.year {
        true
    } else if task.day_of_month == Some(log.execution_day_of_month) && log.execution_week
        == now.week {
        true
    } else if task.day_of_week == Some(log.execution_day_of_week) && log.execution_week
        == now.week {
        true
    } else if task.hour == Some(log.execution_hour) && log.execution_week == now.week
        && log.execution_day_of_month == now.day_of_month && log.execution_month == now.month {
        true
    } else if task.minute == Some(log.execution_minute) && log.execution_week == now.week
        && log.execution_day_of_month == now.month && log.execution_hour == now.hour {
        true
    } else {
        false
    }
}

/// Whether the log entry shows the task already ran, by the local clock.
pub fn was_task_executed(task: &Task, log: &LogEntry) -> (r: bool)
    ensures
        exists|now: CurrentTime| now.is_valid() && r == executed_at(*task, *log, now),
{
    let now = CurrentTime::now();
    was_task_executed_at(task, log, &now)
}

/// Whether the list already holds a task equal to `t`.
pub fn contains_task(list: &Vec<Task>, t: &Task) -> (r: bool)
    ensures
        r == has_task(list@, *t),
{
    let mut i: usize = 0;
    while i < list.len()
        invariant
            i <= list.len(),
            forall|j: int| 0 <= j < i ==> !same_task(#[trigger] list@[j], *t),
        decreases list.len() - i,
    {
        if list[i].same_as(t) {
            return true;
        }
        i = i + 1;
    }
    false
}

/// Whether the task's name is the log entry's name.
fn named_in_log(task: &Task, log: &LogEntry) -> (r: bool)
    ensures
        r == task_named_in_log(*task, *log),
{
    match &task.name {
        Some(n) => *n == log.name,
        None => false,
    }
}

/// The tasks to run at `now`: a task is taken when it is due and its log entry
/// does not show it ran in its period, or when it is a missed daily task; with
/// no log table, every due task is taken. A task equal to one already taken is
/// not taken again on the first two grounds.
pub fn filter_table_at(tasks: &Vec<Task>, log_table: &Option<Vec<LogEntry>>, now: &CurrentTime) -> (r: Vec<Task>)
    ensures
        r@ == tasks_to_run(tasks@, match log_table {
            Some(l) => Some(l@),
            None => None,
        }, *now),
{
    let ghost logs_view: Option<Seq<LogEntry>> = match log_table {
        Some(l) => Some(l@),
        None => None,
    };
    let mut execution_table: Vec<Task> = Vec::new();
    let mut i: usize = 0;
    while i < tasks.len()
        invariant
            i <= tasks.len(),
            logs_view == match log_table {
                Some(l) => Some(l@),
                None => None,
            },
            execution_table@ == tasks_to_run(tasks@.subrange(0, i as int), logs_view, *now),
        decreases tasks.len() - i,
    {
        let task = &tasks[i];
        let ghost before = execution_table@;
        proof {
            assert(tasks@.subrange(0, i + 1).drop_last() =~= tasks@.subrange(0, i as int));
            assert(tasks@.subrange(0, i + 1).last() == tasks@[i as int]);
        }
        match log_table {
            Some(logs) => {
                let mut task_in_logs = false;
                let mut k: usize = 0;
                while k < logs.len()
                    invariant
                        k <= logs.len(),
                        execution_table@ == scan_logs(before, *task, logs@.subrange(0, k as int), *now),
                        task_in_logs == named_in_logs(*task, logs@.subrange(0, k as int)),
                    decreases logs.len() - k,
                {
                    let log = &logs[k];
                    proof {
                        assert(logs@.subrange(0, k + 1).drop_last() =~= logs@.subrange(0, k as int));
                        assert(logs@.subrange(0, k + 1).last() == logs@[k as int]);
                    }
                    if named_in_log(task, log) {
                        task_in_logs = true;
                        let to_execute = should_execute_at(task, now);
                        let daily_missed = is_daily_task_missed_logged_at(task, log, now);
                        if to_execute && !was_task_executed_at(task, log, now) && !contains_task(
                            &execution_table,
                            task,
                        ) || daily_missed {
                            execution_table.push(task.clone());
                        }
                        proof {
                            assert(task_named_in_log(*task, logs@.subrange(0, k + 1)[k as int]));
                        }
                    } else {
                        proof {
                            assert forall|j: int|
                                0 <= j < k + 1 && task_named_in_log(
                                    *task,
                                    #[trigger] logs@.subrange(0, k + 1)[j],
                                ) implies task_named_in_log(
                                *task,
                                logs@.subrange(0, k as int)[j],
                            ) by {
                                assert(logs@.subrange(0, k + 1)[j] == logs@[j]);
                            }
                            if task_in_logs {
                                let j = choose|j: int|
                                    0 <= j < k && task_named_in_log(
                                        *task,
                                        #[trigger] logs@.subrange(0, k as int)[j],
                                    );
                                assert(logs@.subrange(0, k + 1)[j] == logs@.subrange(0, k as int)[j]);
                            }
                        }
                    }
                    k = k + 1;
                }
                proof {
                    assert(logs@.subrange(0, logs.len() as int) =~= logs@);
                }
                if !task_in_logs && should_execute_at(task, now) && !contains_task(
                    &execution_table,
                    task,
                ) {
                    execution_table.push(task.clone());
                }
            },
            None => {
                if should_execute_at(task, now) && !contains_task(&execution_table, task) {
                    execution_table.push(task.clone());
                }
            },
        }
        i = i + 1;
    }
    proof {
        assert(tasks@.subrange(0, tasks.len() as int) =~= tasks@);
    }
    execution_table
}

/// The wait estimate of one task at `now`.
pub fn task_wait_at(task: &Task, now: &CurrentTime) -> (w: i32)
    requires
        now.is_valid(),
        wait_fits(*task, *now),
    ensures
        w == task_wait(*task, *now),
{
    let mut seconds: i32 = 0;
    if let Some(month) = task.month {
        if month > now.month {
            seconds = seconds + (month - now.month) * 2_628_000;
        } else if month < now.month {
            seconds = seconds + (12 - now.month + month) * 2_628_000;
        }
    }
    assert(seconds == wait_after_month(*task, *now));
    if let Some(dom) = task.day_of_month {
        if dom > now.day_of_month {
            seconds = seconds + dom * 86_400;
        } else if dom < now.day_of_month {
            seconds = seconds + (29 - now.day_of_month + dom) * 86_400;
        }
    }
    assert(seconds == wait_after_day_of_month(*task, *now));
    if let Some(dow) = task.day_of_week {
        if dow > now.day_of_week_num {
            seconds = seconds + (dow - now.day_of_week_num) * 86_400;
        } else if dow < now.day_of_week_num {
            seconds = seconds + (7 - now.day_of_week_num + dow) * 86_400;
        }
    }
    assert(seconds == wait_after_day_of_week(*task, *now));
    if let Some(hour) = task.hour {
        if hour > now.hour {
            seconds = seconds + (hour - now.hour) * 3_600;
        } else if hour < now.hour {
            seconds = seconds + (24 - now.hour + hour) * 36_000;
        }
    }
    assert(seconds == wait_after_hour(*task, *now));
    if let Some(minute) = task.minute {
        if minute > now.min {
            seconds = seconds + (minute - now.min) * 60;
        } else if minute < now.min {
            seconds = seconds + (60 - now.min + minute) * 60;
        }
    }
    seconds
}

/// How long the service sleeps at `now`: the smallest wait estimate over the
/// table, at most an hour, and a minute when that smallest wait is not positive.
pub fn time_until_next_task_at(tasks: &Vec<Task>, now: &CurrentTime) -> (s: i32)
    requires
        now.is_valid(),
        table_wait_fits(tasks@, *now),
    ensures
        s == sleep_for(min_wait(tasks@, *now)),
{
    let mut least_wait: i32 = 64_281_600;
    let mut i: usize = 0;
    while i < tasks.len()
        invariant
            i <= tasks.len(),
            now.is_valid(),
            table_wait_fits(tasks@, *now),
            least_wait == min_wait(tasks@.subrange(0, i as int), *now),
        decreases tasks.len() - i,
    {
        proof {
            assert(tasks@.subrange(0, i + 1).drop_last() =~= tasks@.subrange(0, i as int));
            assert(tasks@.subrange(0, i + 1).last() == tasks@[i as int]);
            assert(wait_fits(tasks@[i as int], *now));
        }
        let seconds_until_task = task_wait_at(&tasks[i], now);
        if seconds_until_task < least_wait {
            least_wait = seconds_until_task;
        }
        i = i + 1;
    }
    proof {
        assert(tasks@.subrange(0, tasks.len() as int) =~= tasks@);
    }
    if least_wait > 3_600 {
        3_600
    } else if least_wait <= 0 {
        60
    } else {
        least_wait
    }
}


/// How long the service sleeps now, by the local clock; `None` when a task's
/// wait estimate overflows `i32` at the reading taken.
pub fn time_until_next_task(tasks: &Vec<Task>) -> (s: Option<i32>)
    ensures
        exists|now: CurrentTime|
            now.is_valid() && (table_wait_fits(tasks@, now) ==> s == Some(
                sleep_for(min_wait(tasks@, now)) as i32,
            )) && (!table_wait_fits(tasks@, now) ==> s is None),
{
    let now = CurrentTime::now();
    if table_wait_fits_at(tasks, &now) {
        Some(time_until_next_task_at(tasks, &now))
    } else {
        None
    }
}

/// The tasks to run now and how long to sleep after, by one reading of the
/// local clock; `None` when a task's wait estimate overflows `i32` at that
/// reading.
pub fn filter_table(tasks: &Vec<Task>, log_table: &Option<Vec<LogEntry>>) -> (r: Option<(Vec<Task>, i32)>)
    ensures
        exists|now: CurrentTime|
            now.is_valid() && (table_wait_fits(tasks@, now) ==> (r matches Some(p) && p.0@
                == tasks_to_run(
                tasks@,
                match log_table {
                    Some(l) => Some(l@),
                    None => None,
                },
                now,
            ) && p.1 == sleep_for(min_wait(tasks@, now)))) && (!table_wait_fits(tasks@, now) ==> r is None),
{
    let now = CurrentTime::now();
    if !table_wait_fits_at(tasks, &now) {
        return None;
    }
    let execution_table = filter_table_at(tasks, log_table, &now);
    let sleep = time_until_next_task_at(tasks, &now);
    Some((execution_table, sleep))
}

/// The task table as the service sees it: none when it is empty.
pub fn get_tasks_table(tasks_vec: Vec<Task>) -> (r: Option<Vec<Task>>)
    ensures
        tasks_vec@.len() == 0 ==> r is None,
        tasks_vec@.len() > 0 ==> (r matches Some(t) && t@ == tasks_vec@),
{
    if tasks_vec.len() == 0 {
        None
    } else {
        Some(tasks_vec)
    }
}

/// The seconds the service sleeps after a round at `now`: an hour with no task
/// table, else the table's sleep.
pub open spec fn round_sleep(tasks_table: Option<Seq<Task>>, now: CurrentTime) -> int {
    match tasks_table {
        Some(t) => sleep_for(min_wait(t, now)),
        None => 3_600,
    }
}

/// Law: the service's rounds are at least a minute and at most an hour
/// apart, whether or not there is a task table.
pub proof fn lemma_rounds_at_most_an_hour_apart(tasks_table: Option<Seq<Task>>, now: CurrentTime)
    ensures
        60 <= round_sleep(tasks_table, now) <= 3_600,
{
    if let Some(t) = tasks_table {
        lemma_sleep_bounded(t, now);
    }
}

/// One cycle of the service at `now`: the tasks to run and the seconds to
/// sleep. With no task table nothing runs and the service sleeps an hour.
pub fn next_cycle_at(
    tasks_table: &Option<Vec<Task>>,
    logs_table: &Option<Vec<LogEntry>>,
    now: &CurrentTime,
) -> (r: (Vec<Task>, i32))
    requires
        now.is_valid(),
        tasks_table matches Some(t) ==> table_wait_fits(t@, *now),
    ensures
        tasks_table is None ==> r.0@.len() == 0 && r.1 == 3_600,
        tasks_table matches Some(t) ==> r.0@ == tasks_to_run(
            t@,
            match logs_table {
                Some(l) => Some(l@),
                None => None,
            },
            *now,
        ) && r.1 == sleep_for(min_wait(t@, *now)),
        r.1 == round_sleep(
            match tasks_table {
                Some(t) => Some(t@),
                None => None,
            },
            *now,
        ),
{
    match tasks_table {
        Some(tasks) => {
            let execution_table = filter_table_at(tasks, logs_table, now);
            let sleep = time_until_next_task_at(tasks, now);
            (execution_table, sleep)
        },
        None => (Vec::new(), 3_600),
    }
}

/// One cycle of the service, by one reading of the local clock; `None` when a
/// task's wait estimate overflows `i32` at that reading.
pub fn next_cycle(tasks_table: &Option<Vec<Task>>, logs_table: &Option<Vec<LogEntry>>) -> (r: Option<(
    Vec<Task>,
    i32,
)>)
    ensures
        exists|now: CurrentTime|
            now.is_valid() && (tasks_table is None ==> (r matches Some(p) && p.0@.len() == 0 && p.1
                == 3_600)) && (tasks_table matches Some(t) ==> (table_wait_fits(t@, now) ==> (r matches Some(p)
                && p.0@ == tasks_to_run(
                t@,
                match logs_table {
                    Some(l) => Some(l@),
                    None => None,
                },
                now,
            ) && p.1 == sleep_for(min_wait(t@, now))))) && (tasks_table matches Some(t) ==> (
            !table_wait_fits(t@, now) ==> r is None)),
{
    let now = CurrentTime::now();
    if let Some(t) = tasks_table {
        if !table_wait_fits_at(t, &now) {
            return None;
        }
    }
    Some(next_cycle_at(tasks_table, logs_table, &now))
}

/// Every wait estimate is a whole number of minutes.
proof fn lemma_wait_in_minutes(t: Task, now: CurrentTime)
    ensures
        task_wait(t, now) % 60 == 0,
{
    let a = opt_wait(t.month, |m: int| month_wait(m, now.month as int));
    let b = opt_wait(t.day_of_month, |d: int| day_of_month_wait(d, now.day_of_month as int));
    let c = opt_wait(t.day_of_week, |d: int| day_of_week_wait(d, now.day_of_week_num as int));
    let e = opt_wait(t.hour, |h: int| hour_wait(h, now.hour as int));
    let f = opt_wait(t.minute, |m: int| minute_wait(m, now.min as int));
    assert forall|x: int| #[trigger] (x * 2_628_000) % 60 == 0 by {
        vstd::arithmetic::div_mod::lemma_mod_multiples_basic(x * 43_800, 60);
    }
    assert forall|x: int| #[trigger] (x * 86_400) % 60 == 0 by {
        vstd::arithmetic::div_mod::lemma_mod_multiples_basic(x * 1_440, 60);
    }
    assert forall|x: int| #[trigger] (x * 3_600) % 60 == 0 by {
        vstd::arithmetic::div_mod::lemma_mod_multiples_basic(x * 60, 60);
    }
    assert forall|x: int| #[trigger] (x * 36_000) % 60 == 0 by {
        vstd::arithmetic::div_mod::lemma_mod_multiples_basic(x * 600, 60);
    }
    assert forall|x: int| #[trigger] (x * 60) % 60 == 0 by {
        vstd::arithmetic::div_mod::lemma_mod_multiples_basic(x, 60);
    }
    assert(a % 60 == 0 && b % 60 == 0 && c % 60 == 0 && e % 60 == 0 && f % 60 == 0);
    assert(task_wait(t, now) == a + b + c + e + f);
    assert((a + b + c + e + f) % 60 == 0) by (nonlinear_arith)
        requires
            a % 60 == 0,
            b % 60 == 0,
            c % 60 == 0,
            e % 60 == 0,
            f % 60 == 0,
    ;
}

/// Law: the service sleeps until the next task or an hour, whichever is
/// smaller: never more than an hour, never less than a minute (every wait is
/// a whole number of minutes), exactly the smallest wait when that is positive
/// and at most an hour; the smallest wait is no larger than any task's wait,
/// nor than two years.
pub proof fn lemma_sleep_bounded(tasks: Seq<Task>, now: CurrentTime)
    ensures
        60 <= sleep_for(min_wait(tasks, now)) <= 3_600,
        min_wait(tasks, now) % 60 == 0,
        min_wait(tasks, now) <= 64_281_600,
        forall|i: int| 0 <= i < tasks.len() ==> min_wait(tasks, now) <= task_wait(#[trigger] tasks[i], now),
        0 < min_wait(tasks, now) <= 3_600 ==> sleep_for(min_wait(tasks, now)) == min_wait(tasks, now),
    decreases tasks.len(),
{
    if tasks.len() > 0 {
        let d = tasks.drop_last();
        lemma_sleep_bounded(d, now);
        lemma_wait_in_minutes(tasks.last(), now);
        assert forall|i: int| 0 <= i < tasks.len() implies min_wait(tasks, now) <= task_wait(
            #[trigger] tasks[i],
            now,
        ) by {
            if i < tasks.len() - 1 {
                assert(tasks[i] == d[i]);
            }
        }
    }
}

/// Law: every task chosen to run is a task of the table.
pub proof fn lemma_chosen_from_table(tasks: Seq<Task>, logs: Option<Seq<LogEntry>>, now: CurrentTime)
    ensures
        forall|k: int|
            0 <= k < tasks_to_run(tasks, logs, now).len() ==> exists|i: int|
                0 <= i < tasks.len() && tasks[i] == #[trigger] tasks_to_run(tasks, logs, now)[k],
    decreases tasks.len(),
{
    if tasks.len() > 0 {
        let d = tasks.drop_last();
        let t = tasks.last();
        lemma_chosen_from_table(d, logs, now);
        let acc = tasks_to_run(d, logs, now);
        match logs {
            Some(l) => {
                lemma_scan_logs_grows(acc, t, l, now);
            },
            None => {},
        }
        let r = tasks_to_run(tasks, logs, now);
        assert forall|k: int| 0 <= k < r.len() implies exists|i: int|
            0 <= i < tasks.len() && tasks[i] == #[trigger] r[k] by {
            if k < acc.len() {
                let i = choose|i: int| 0 <= i < d.len() && d[i] == acc[k];
                assert(tasks[i] == d[i]);
            } else {
                assert(r[k] == t);
                assert(tasks[tasks.len() - 1] == t);
            }
        }
    }
}

/// Comparing a task with the log table only appends that task to the list.
proof fn lemma_scan_logs_grows(acc: Seq<Task>, t: Task, logs: Seq<LogEntry>, now: CurrentTime)
    ensures
        scan_logs(acc, t, logs, now).len() >= acc.len(),
        forall|k: int| 0 <= k < acc.len() ==> #[trigger] scan_logs(acc, t, logs, now)[k] == acc[k],
        forall|k: int|
            acc.len() <= k < scan_logs(acc, t, logs, now).len() ==> #[trigger] scan_logs(acc, t, logs, now)[k] == t,
        task_step_logged(acc, t, logs, now).len() >= acc.len(),
        forall|k: int| 0 <= k < acc.len() ==> #[trigger] task_step_logged(acc, t, logs, now)[k] == acc[k],
        forall|k: int|
            acc.len() <= k < task_step_logged(acc, t, logs, now).len() ==> #[trigger] task_step_logged(acc, t, logs, now)[k] == t,
    decreases logs.len(),
{
    if logs.len() > 0 {
        lemma_scan_logs_grows(acc, t, logs.drop_last(), now);
    }
}

/// Law: with no log table, the tasks chosen are exactly the due tasks of the
/// table, each once: every chosen task is due, and every due task is chosen.
pub proof fn lemma_unlogged_runs_due_tasks(tasks: Seq<Task>, now: CurrentTime)
    ensures
        forall|k: int|
            0 <= k < tasks_to_run(tasks, None, now).len() ==> due_at(
                #[trigger] tasks_to_run(tasks, None, now)[k],
                now,
            ),
        forall|i: int|
            0 <= i < tasks.len() && due_at(#[trigger] tasks[i], now) ==> has_task(
                tasks_to_run(tasks, None, now),
                tasks[i],
            ),
    decreases tasks.len(),
{
    if tasks.len() > 0 {
        let d = tasks.drop_last();
        let t = tasks.last();
        lemma_unlogged_runs_due_tasks(d, now);
        let acc = tasks_to_run(d, None, now);
        let r = tasks_to_run(tasks, None, now);
        assert forall|i: int| 0 <= i < tasks.len() && due_at(#[trigger] tasks[i], now) implies has_task(
            r,
            tasks[i],
        ) by {
            if i < tasks.len() - 1 {
                assert(tasks[i] == d[i]);
                assert(has_task(acc, d[i]));
                let j = choose|j: int| 0 <= j < acc.len() && same_task(#[trigger] acc[j], d[i]);
                assert(r[j] == acc[j]);
            } else {
                if has_task(acc, t) {
                    let j = choose|j: int| 0 <= j < acc.len() && same_task(#[trigger] acc[j], t);
                    assert(r[j] == acc[j]);
                } else {
                    assert(r[acc.len() as int] == t);
                    assert(same_task(t, t));
                }
            }
        }
    }
}


/// Whether a number fits in an `i32`.
fn fits(x: i64) -> (r: bool)
    ensures
        r == fits_i32(x as int),
{
    -2147483648i64 <= x && x <= 2147483647i64
}

/// The seconds one set field adds, and whether its inner sum fits in `i32`.
fn field_term(v: i32, now: i32, under: i64, over: i64, over_base: i64, factor: i64) -> (r: (i64, bool))
    requires
        -100 <= now <= 100,
        over_base == 12 || over_base == 29 || over_base == 7 || over_base == 24 || over_base == 60,
        0 < factor <= 2_628_000,
        under == factor || under == 1,
        over == factor || over == 36_000,
    ensures
        r.0 == if v > now {
            if under == 1 {
                (v as int) * factor
            } else {
                (v - now) * factor
            }
        } else if v < now {
            (over_base - now + v) * over
        } else {
            0
        },
        r.1 == (v < now ==> fits_i32(over_base - now + v)),
{
    if v > now {
        if under == 1 {
            assert(-6000000000000000 <= (v as int) * factor <= 6000000000000000) by (nonlinear_arith)
                requires
                    -100 < v <= 2147483647,
                    0 < factor <= 2628000,
            ;
            ((v as i64) * factor, true)
        } else {
            let d = (v as i64) - (now as i64);
            assert(-6000000000000000 <= d * factor <= 6000000000000000) by (nonlinear_arith)
                requires
                    0 < d <= 2147483747,
                    0 < factor <= 2628000,
            ;
            (d * factor, true)
        }
    } else if v < now {
        let d = over_base - (now as i64) + (v as i64);
        assert(-6000000000000000 <= d * over <= 6000000000000000) by (nonlinear_arith)
            requires
                -2147483800 <= d <= 300,
                0 < over <= 2628000,
        ;
        (d * over, fits(d))
    } else {
        (0, true)
    }
}

/// Whether every step of the wait estimate of `task` at `now` fits in `i32`.
pub fn wait_fits_at(task: &Task, now: &CurrentTime) -> (r: bool)
    requires
        now.is_valid(),
    ensures
        r == wait_fits(*task, *now),
{
    let mut ok = true;
    let mut total: i64 = 0;
    if let Some(m) = task.month {
        let (w, _inner) = field_term(m, now.month, 2_628_000, 2_628_000, 12, 2_628_000);
        ok = fits(w);
        total = w;
    }
    assert(total == wait_after_month(*task, *now));
    ok = ok && fits(total);
    let mut inner_dom = true;
    let mut w_dom: i64 = 0;
    if let Some(d) = task.day_of_month {
        let (w, inner) = field_term(d, now.day_of_month, 1, 86_400, 29, 86_400);
        inner_dom = inner;
        w_dom = w;
    }
    ok = ok && inner_dom && fits(w_dom);
    if !ok {
        return false;
    }
    total = total + w_dom;
    assert(total == wait_after_day_of_month(*task, *now));
    ok = fits(total);
    let mut w_dow: i64 = 0;
    if let Some(d) = task.day_of_week {
        let (w, _inner) = field_term(d, now.day_of_week_num, 86_400, 86_400, 7, 86_400);
        w_dow = w;
    }
    ok = ok && fits(w_dow);
    if !ok {
        return false;
    }
    total = total + w_dow;
    assert(total == wait_after_day_of_week(*task, *now));
    ok = fits(total);
    let mut w_hour: i64 = 0;
    if let Some(h) = task.hour {
        let (w, _inner) = field_term(h, now.hour, 3_600, 36_000, 24, 3_600);
        w_hour = w;
    }
    ok = ok && fits(w_hour);
    if !ok {
        return false;
    }
    total = total + w_hour;
    assert(total == wait_after_hour(*task, *now));
    ok = fits(total);
    let mut w_min: i64 = 0;
    if let Some(m) = task.minute {
        let (w, _inner) = field_term(m, now.min, 60, 60, 60, 60);
        w_min = w;
    }
    ok = ok && fits(w_min);
    if !ok {
        return false;
    }
    total = total + w_min;
    assert(total == task_wait(*task, *now));
    fits(total)
}

/// Whether every task's wait estimate at `now` fits in `i32`.
pub fn table_wait_fits_at(tasks: &Vec<Task>, now: &CurrentTime) -> (r: bool)
    requires
        now.is_valid(),
    ensures
        r == table_wait_fits(tasks@, *now),
{
    let mut i: usize = 0;
    while i < tasks.len()
        invariant
            i <= tasks@.len(),
            now.is_valid(),
            forall|j: int| 0 <= j < i ==> wait_fits(#[trigger] tasks@[j], *now),
        decreases tasks@.len() - i,
    {
        if !wait_fits_at(&tasks[i], now) {
            return false;
        }
        i = i + 1;
    }
    true
}


/// A task is chosen on good grounds: it is due, or it is a daily task whose
/// log entry was written on another day.
pub open spec fn chosen_for_reason(t: Task, logs: Seq<LogEntry>, now: CurrentTime) -> bool {
    due_at(t, now) || exists|i: int| 0 <= i < logs.len() && daily_missed_at(t, #[trigger] logs[i], now)
}

/// What comparing with the log table adds is chosen on good grounds.
proof fn lemma_scan_logs_reasons(acc: Seq<Task>, t: Task, logs: Seq<LogEntry>, all: Seq<LogEntry>, now: CurrentTime)
    requires
        forall|i: int| 0 <= i < logs.len() ==> exists|j: int| 0 <= j < all.len() && all[j] == #[trigger] logs[i],
    ensures
        forall|k: int|
            acc.len() <= k < scan_logs(acc, t, logs, now).len() ==> chosen_for_reason(
                #[trigger] scan_logs(acc, t, logs, now)[k],
                all,
                now,
            ),
    decreases logs.len(),
{
    if logs.len() > 0 {
        let d = logs.drop_last();
        assert forall|i: int| 0 <= i < d.len() implies exists|j: int| 0 <= j < all.len() && all[j] == #[trigger] d[i] by {
            assert(d[i] == logs[i]);
        }
        lemma_scan_logs_reasons(acc, t, d, all, now);
        lemma_scan_logs_grows(acc, t, d, now);
        let l = logs.last();
        let j = choose|j: int| 0 <= j < all.len() && all[j] == logs[logs.len() - 1];
        let before = scan_logs(acc, t, d, now);
        let after = scan_logs(acc, t, logs, now);
        assert forall|k: int| acc.len() <= k < after.len() implies chosen_for_reason(#[trigger] after[k], all, now) by {
            if k < before.len() {
                assert(after[k] == before[k]);
            } else {
                assert(after[k] == t);
                if !due_at(t, now) {
                    assert(daily_missed_at(t, l, now));
                    assert(daily_missed_at(t, all[j], now));
                }
            }
        }
    }
}

/// Law: with a log table, every task chosen to run is due now, or is a daily
/// task whose log entry was written on another day.
pub proof fn lemma_logged_runs_for_reason(tasks: Seq<Task>, logs: Seq<LogEntry>, now: CurrentTime)
    ensures
        forall|k: int|
            0 <= k < tasks_to_run(tasks, Some(logs), now).len() ==> chosen_for_reason(
                #[trigger] tasks_to_run(tasks, Some(logs), now)[k],
                logs,
                now,
            ),
    decreases tasks.len(),
{
    if tasks.len() > 0 {
        let d = tasks.drop_last();
        let t = tasks.last();
        lemma_logged_runs_for_reason(d, logs, now);
        let acc = tasks_to_run(d, Some(logs), now);
        assert forall|i: int| 0 <= i < logs.len() implies exists|j: int| 0 <= j < logs.len() && logs[j] == #[trigger] logs[i] by {
            assert(logs[i] == logs[i]);
        }
        lemma_scan_logs_reasons(acc, t, logs, logs, now);
        lemma_scan_logs_grows(acc, t, logs, now);
        let mid = scan_logs(acc, t, logs, now);
        let r = tasks_to_run(tasks, Some(logs), now);
        assert forall|k: int| 0 <= k < r.len() implies chosen_for_reason(#[trigger] r[k], logs, now) by {
            if k < acc.len() {
                assert(r[k] == acc[k]);
            } else if k < mid.len() {
                assert(r[k] == mid[k]);
            } else {
                assert(r[k] == t);
            }
        }
    }
}

/// Appending keeps every task already in the list.
proof fn lemma_push_keeps(acc: Seq<Task>, y: Task, x: Task)
    requires
        has_task(acc, x),
    ensures
        has_task(acc.push(y), x),
{
    let j = choose|j: int| 0 <= j < acc.len() && same_task(#[trigger] acc[j], x);
    assert(acc.push(y)[j] == acc[j]);
}

/// A due task that some entry of the log names, and that no entry naming it
/// shows as run, is in the list once the log table has been compared.
proof fn lemma_scan_logs_finds(acc: Seq<Task>, t: Task, logs: Seq<LogEntry>, now: CurrentTime)
    requires
        due_at(t, now),
        named_in_logs(t, logs),
        forall|j: int|
            0 <= j < logs.len() && task_named_in_log(t, #[trigger] logs[j]) ==> !executed_at(t, logs[j], now),
    ensures
        has_task(scan_logs(acc, t, logs, now), t),
    decreases logs.len(),
{
    let d = logs.drop_last();
    let l = logs.last();
    let before = scan_logs(acc, t, d, now);
    assert(same_task(t, t));
    if task_named_in_log(t, l) {
        assert(!executed_at(t, logs[logs.len() - 1], now));
        if has_task(before, t) {
            lemma_push_keeps(before, t, t);
        } else {
            assert(before.push(t)[before.len() as int] == t);
        }
    } else {
        let k = choose|k: int| 0 <= k < logs.len() && task_named_in_log(t, #[trigger] logs[k]);
        assert(k < logs.len() - 1);
        assert(d[k] == logs[k]);
        assert forall|j: int|
            0 <= j < d.len() && task_named_in_log(t, #[trigger] d[j]) implies !executed_at(t, d[j], now) by {
            assert(d[j] == logs[j]);
        }
        lemma_scan_logs_finds(acc, t, d, now);
        lemma_push_keeps(before, t, t);
    }
}

/// The list for a first part of the table is the start of the list for the
/// whole table.
proof fn lemma_run_prefix(tasks: Seq<Task>, logs: Option<Seq<LogEntry>>, now: CurrentTime, n: int)
    requires
        0 <= n <= tasks.len(),
    ensures
        tasks_to_run(tasks.take(n), logs, now).len() <= tasks_to_run(tasks, logs, now).len(),
        forall|k: int|
            0 <= k < tasks_to_run(tasks.take(n), logs, now).len() ==> #[trigger] tasks_to_run(tasks, logs, now)[k]
                == tasks_to_run(tasks.take(n), logs, now)[k],
    decreases tasks.len(),
{
    if n == tasks.len() {
        assert(tasks.take(n) =~= tasks);
    } else {
        let d = tasks.drop_last();
        assert(d.take(n) =~= tasks.take(n));
        lemma_run_prefix(d, logs, now, n);
        let acc = tasks_to_run(d, logs, now);
        match logs {
            Some(l) => {
                lemma_scan_logs_grows(acc, tasks.last(), l, now);
            },
            None => {},
        }
    }
}

/// Law: with a log table, a task of the table that is due now, and that no
/// log entry of its name shows as already run in its period, is chosen to run.
pub proof fn lemma_logged_runs_due_tasks(tasks: Seq<Task>, logs: Seq<LogEntry>, now: CurrentTime, i: int)
    requires
        0 <= i < tasks.len(),
        due_at(tasks[i], now),
        forall|j: int|
            0 <= j < logs.len() && task_named_in_log(tasks[i], #[trigger] logs[j]) ==> !executed_at(
                tasks[i],
                logs[j],
                now,
            ),
    ensures
        has_task(tasks_to_run(tasks, Some(logs), now), tasks[i]),
{
    let t = tasks[i];
    let pre = tasks.take(i + 1);
    assert(pre.drop_last() =~= tasks.take(i));
    assert(pre.last() == t);
    let acc = tasks_to_run(tasks.take(i), Some(logs), now);
    let mid = scan_logs(acc, t, logs, now);
    assert(same_task(t, t));
    if named_in_logs(t, logs) {
        lemma_scan_logs_finds(acc, t, logs, now);
    } else if !has_task(mid, t) {
        assert(mid.push(t)[mid.len() as int] == t);
    }
    assert(has_task(tasks_to_run(pre, Some(logs), now), t));
    lemma_run_prefix(tasks, Some(logs), now, i + 1);
    let r = tasks_to_run(tasks, Some(logs), now);
    let rp = tasks_to_run(pre, Some(logs), now);
    let k = choose|k: int| 0 <= k < rp.len() && same_task(#[trigger] rp[k], t);
    assert(r[k] == rp[k]);
}

/// No task appears twice in the list.
pub open spec fn no_repeats(s: Seq<Task>) -> bool {
    forall|k: int, m: int| 0 <= k < m < s.len() ==> !same_task(#[trigger] s[k], #[trigger] s[m])
}

/// With distinct log names, comparing a task with the log table adds it at
/// most once, and not at all when no entry names it.
proof fn lemma_scan_logs_at_most_once(acc: Seq<Task>, t: Task, logs: Seq<LogEntry>, now: CurrentTime)
    requires
        unique_log_names(logs),
    ensures
        scan_logs(acc, t, logs, now).len() <= acc.len() + if named_in_logs(t, logs) {
            1int
        } else {
            0int
        },
    decreases logs.len(),
{
    if logs.len() > 0 {
        let d = logs.drop_last();
        let l = logs.last();
        assert forall|i: int, j: int| 0 <= i < j < d.len() implies (#[trigger] d[i]).name@ != (
        #[trigger] d[j]).name@ by {
            assert(d[i] == logs[i] && d[j] == logs[j]);
        }
        lemma_scan_logs_at_most_once(acc, t, d, now);
        if task_named_in_log(t, l) {
            if named_in_logs(t, d) {
                let k = choose|k: int| 0 <= k < d.len() && task_named_in_log(t, #[trigger] d[k]);
                assert(d[k] == logs[k]);
                assert(logs[k].name@ != logs[logs.len() - 1].name@);
            }
            assert(task_named_in_log(t, logs[logs.len() - 1]));
        } else if named_in_logs(t, d) {
            let k = choose|k: int| 0 <= k < d.len() && task_named_in_log(t, #[trigger] d[k]);
            assert(d[k] == logs[k]);
        }
    }
}

/// Law: no task is chosen twice. Without a log table this always holds; with
/// one, it holds when the tasks are named, by distinct names, and the log
/// entries carry distinct names.
pub proof fn lemma_runs_each_once(tasks: Seq<Task>, logs: Option<Seq<LogEntry>>, now: CurrentTime)
    requires
        logs is Some ==> unique_names(tasks) && all_named(tasks) && unique_log_names(logs->0),
    ensures
        no_repeats(tasks_to_run(tasks, logs, now)),
    decreases tasks.len(),
{
    if tasks.len() > 0 {
        let d = tasks.drop_last();
        let t = tasks.last();
        if logs is Some {
            assert forall|i: int, j: int| 0 <= i < j < d.len() implies !task_names_match(
                #[trigger] d[i],
                #[trigger] d[j],
            ) by {
                assert(d[i] == tasks[i] && d[j] == tasks[j]);
            }
            assert forall|i: int| 0 <= i < d.len() implies (#[trigger] d[i]).name is Some by {
                assert(d[i] == tasks[i]);
            }
        }
        lemma_runs_each_once(d, logs, now);
        lemma_chosen_from_table(d, logs, now);
        let acc = tasks_to_run(d, logs, now);
        let r = tasks_to_run(tasks, logs, now);
        match logs {
            Some(l) => {
                lemma_scan_logs_grows(acc, t, l, now);
                lemma_scan_logs_at_most_once(acc, t, l, now);
                assert forall|k: int, m: int| 0 <= k < m < r.len() implies !same_task(
                    #[trigger] r[k],
                    #[trigger] r[m],
                ) by {
                    assert(r[k] == acc[k]);
                    if m < acc.len() {
                        assert(r[m] == acc[m]);
                    } else {
                        assert(r[m] == t);
                        let i = choose|i: int| 0 <= i < d.len() && d[i] == acc[k];
                        assert(tasks[i] == d[i]);
                        assert(tasks[tasks.len() - 1] == t);
                        assert(!task_names_match(tasks[i], tasks[tasks.len() - 1]));
                    }
                }
            },
            None => {
                assert forall|k: int, m: int| 0 <= k < m < r.len() implies !same_task(
                    #[trigger] r[k],
                    #[trigger] r[m],
                ) by {
                    assert(r[k] == acc[k]);
                    if m < acc.len() {
                        assert(r[m] == acc[m]);
                    } else {
                        assert(r[m] == t);
                        if same_task(acc[k], t) {
                            assert(has_task(acc, t));
                        }
                    }
                }
            },
        }
    }
}

/// Law: a task is due only when each schedule field it sets equals the
/// clock's value: a set month, day of the month, weekday, hour or minute that
/// differs from the clock's makes the task not due.
pub proof fn lemma_due_needs_each_set_field(t: Task, now: CurrentTime)
    ensures
        (t.month matches Some(v) && v != now.month) ==> !due_at(t, now),
        (t.day_of_month matches Some(v) && v != now.day_of_month) ==> !due_at(t, now),
        (t.day_of_week matches Some(v) && v != now.day_of_week_num) ==> !due_at(t, now),
        (t.hour matches Some(v) && v != now.hour) ==> !due_at(t, now),
        (t.minute matches Some(v) && v != now.min) ==> !due_at(t, now),
{
}

/// Law: a task whose every set schedule field equals the clock's value is due;
/// in particular a task with no schedule field set is due at every minute.
pub proof fn lemma_due_when_set_fields_match(t: Task, now: CurrentTime)
    requires
        t.month is None || t.month == Some(now.month),
        t.day_of_month is None || t.day_of_month == Some(now.day_of_month),
        t.day_of_week is None || t.day_of_week == Some(now.day_of_week_num),
        t.hour is None || t.hour == Some(now.hour),
        t.minute is None || t.minute == Some(now.min),
    ensures
        due_at(t, now),
{
}

/// Law: a log entry shows a task as already run in its current period when
/// it ran in the task's month this year; on the task's day of the month or
/// weekday this week; in the task's hour today; or in the task's minute this
/// week, on a day numbered as the current month, in the current hour.
pub proof fn lemma_run_in_period_counts(t: Task, l: LogEntry, now: CurrentTime)
    ensures
        t.month == Some(l.execution_month) && l.execution_year == now.year ==> executed_at(t, l, now),
        t.day_of_month == Some(l.execution_day_of_month) && l.execution_week == now.week
            ==> executed_at(t, l, now),
        t.day_of_week == Some(l.execution_day_of_week) && l.execution_week == now.week ==> executed_at(
            t,
            l,
            now,
        ),
        t.hour == Some(l.execution_hour) && l.execution_week == now.week && l.execution_day_of_month
            == now.day_of_month && l.execution_month == now.month ==> executed_at(t, l, now),
        t.minute == Some(l.execution_minute) && l.execution_week == now.week
            && l.execution_day_of_month == now.month && l.execution_hour == now.hour ==> executed_at(
            t,
            l,
            now,
        ),
{
}

/// Law: a log entry shows a task as already run only for one of those
/// reasons; a task with no schedule field set never counts as already run.
pub proof fn lemma_run_in_period_only_so(t: Task, l: LogEntry, now: CurrentTime)
    ensures
        executed_at(t, l, now) ==> (t.month == Some(l.execution_month) && l.execution_year == now.year)
            || (t.day_of_month == Some(l.execution_day_of_month) && l.execution_week == now.week)
            || (t.day_of_week == Some(l.execution_day_of_week) && l.execution_week == now.week)
            || (t.hour == Some(l.execution_hour) && l.execution_week == now.week
            && l.execution_day_of_month == now.day_of_month && l.execution_month == now.month)
            || (t.minute == Some(l.execution_minute) && l.execution_week == now.week
            && l.execution_day_of_month == now.month && l.execution_hour == now.hour),
        t.month is None && t.day_of_month is None && t.day_of_week is None && t.hour is None
            && t.minute is None ==> !executed_at(t, l, now),
{
}

/// Law: a task that sets an hour but no month, day of the month or weekday
/// (whether or not it sets a minute), whose hour has come today, and whose log
/// entry was written on another day of the month, was missed today; and only
/// such a task counts as missed.
pub proof fn lemma_daily_missed_exactly(t: Task, l: LogEntry, now: CurrentTime)
    ensures
        (t.month is None && t.day_of_month is None && t.day_of_week is None && (t.hour matches Some(
            h,
        ) && h <= now.hour) && l.execution_day_of_month != now.day_of_month) ==> daily_missed_at(
            t,
            l,
            now,
        ),
        daily_missed_at(t, l, now) ==> t.month is None && t.day_of_month is None && t.day_of_week is None
            && l.execution_day_of_month != now.day_of_month,
        daily_missed_at(t, l, now) ==> (t.hour matches Some(h) && h <= now.hour),
{
}

/// Law: a schedule field set to the clock's value adds nothing to a task's
/// wait: the wait is the same as with that field unset.
pub proof fn lemma_matching_field_adds_nothing(t: Task, now: CurrentTime)
    ensures
        task_wait(Task { month: Some(now.month), ..t }, now) == task_wait(Task { month: None, ..t }, now),
        task_wait(Task { day_of_month: Some(now.day_of_month), ..t }, now) == task_wait(
            Task { day_of_month: None, ..t },
            now,
        ),
        task_wait(Task { day_of_week: Some(now.day_of_week_num), ..t }, now) == task_wait(
            Task { day_of_week: None, ..t },
            now,
        ),
        task_wait(Task { hour: Some(now.hour), ..t }, now) == task_wait(Task { hour: None, ..t }, now),
        task_wait(Task { minute: Some(now.min), ..t }, now) == task_wait(Task { minute: None, ..t }, now),
{
}

/// Law: a task with no schedule field set waits nothing; one due later in the
/// current hour, at minute `m`, waits `(m - now.min) * 60` seconds, and the
/// service, with that task alone, sleeps exactly that long.
pub proof fn lemma_wait_later_this_hour(t: Task, now: CurrentTime, m: i32)
    requires
        now.is_valid(),
        t.month is None || t.month == Some(now.month),
        t.day_of_month is None || t.day_of_month == Some(now.day_of_month),
        t.day_of_week is None || t.day_of_week == Some(now.day_of_week_num),
        t.hour is None || t.hour == Some(now.hour),
        t.minute == Some(m),
        now.min < m <= 59,
    ensures
        task_wait(t, now) == (m - now.min) * 60,
        sleep_for(min_wait(seq![t], now)) == (m - now.min) * 60,
        task_wait(Task { minute: None, ..t }, now) == 0,
{
    let s = seq![t];
    assert(s.drop_last() =~= Seq::<Task>::empty());
    assert(s.last() == t);
    assert(min_wait(s.drop_last(), now) == 64_281_600);
    assert(min_wait(s, now) == task_wait(t, now));
}

/// Comparing a task with log entries that each show it as already run, and
/// none as a missed daily task, adds nothing.
proof fn lemma_scan_adds_nothing(acc: Seq<Task>, t: Task, logs: Seq<LogEntry>, now: CurrentTime)
    requires
        forall|j: int|
            0 <= j < logs.len() && task_named_in_log(t, #[trigger] logs[j]) ==> executed_at(t, logs[j], now)
                && !daily_missed_at(t, logs[j], now),
    ensures
        scan_logs(acc, t, logs, now) == acc,
    decreases logs.len(),
{
    if logs.len() > 0 {
        let d = logs.drop_last();
        assert forall|j: int| 0 <= j < d.len() && task_named_in_log(t, #[trigger] d[j]) implies executed_at(
            t,
            d[j],
            now,
        ) && !daily_missed_at(t, d[j], now) by {
            assert(d[j] == logs[j]);
        }
        lemma_scan_adds_nothing(acc, t, d, now);
        if task_named_in_log(t, logs.last()) {
            assert(logs.last() == logs[logs.len() - 1]);
        }
    }
}

/// No task of `t`'s name but `t` itself is in the table, and `t`, named in the
/// log table, is shown by every entry of its name as already run and not as a
/// missed daily task: then `t` is never chosen.
proof fn lemma_not_chosen(tasks: Seq<Task>, logs: Seq<LogEntry>, now: CurrentTime, t: Task)
    requires
        t.name is Some,
        named_in_logs(t, logs),
        forall|i: int| 0 <= i < tasks.len() && same_opt_text((#[trigger] tasks[i]).name, t.name) ==> tasks[i] == t,
        forall|j: int|
            0 <= j < logs.len() && task_named_in_log(t, #[trigger] logs[j]) ==> executed_at(t, logs[j], now)
                && !daily_missed_at(t, logs[j], now),
    ensures
        forall|k: int|
            0 <= k < tasks_to_run(tasks, Some(logs), now).len() ==> !same_task(
                #[trigger] tasks_to_run(tasks, Some(logs), now)[k],
                t,
            ),
    decreases tasks.len(),
{
    if tasks.len() > 0 {
        let d = tasks.drop_last();
        let last = tasks.last();
        assert forall|i: int| 0 <= i < d.len() && same_opt_text((#[trigger] d[i]).name, t.name) implies d[i] == t by {
            assert(d[i] == tasks[i]);
        }
        lemma_not_chosen(d, logs, now, t);
        let acc = tasks_to_run(d, Some(logs), now);
        let r = tasks_to_run(tasks, Some(logs), now);
        lemma_scan_logs_grows(acc, last, logs, now);
        if same_opt_text(last.name, t.name) {
            assert(tasks[tasks.len() - 1] == t);
            lemma_scan_adds_nothing(acc, t, logs, now);
            assert(r == acc);
        } else {
            assert forall|k: int| 0 <= k < r.len() implies !same_task(#[trigger] r[k], t) by {
                if k < acc.len() {
                    assert(r[k] == acc[k]);
                } else {
                    assert(r[k] == last);
                }
            }
        }
    }
}

/// Law: with a log table, a task whose log entry shows it already ran in its
/// current period, and does not show it as a missed daily task, is not chosen
/// to run again (for a table of tasks with distinct names and a log table with
/// distinct names).
pub proof fn lemma_logged_skips_tasks_already_run(
    tasks: Seq<Task>,
    logs: Seq<LogEntry>,
    now: CurrentTime,
    i: int,
    j: int,
)
    requires
        unique_names(tasks),
        all_named(tasks),
        unique_log_names(logs),
        0 <= i < tasks.len(),
        0 <= j < logs.len(),
        task_named_in_log(tasks[i], logs[j]),
        executed_at(tasks[i], logs[j], now),
        !daily_missed_at(tasks[i], logs[j], now),
    ensures
        !has_task(tasks_to_run(tasks, Some(logs), now), tasks[i]),
{
    let t = tasks[i];
    assert forall|k: int| 0 <= k < tasks.len() && same_opt_text((#[trigger] tasks[k]).name, t.name) implies tasks[k]
        == t by {
        if k != i {
            assert(tasks[k].name is Some);
            assert(task_names_match(tasks[k], tasks[i]));
            if k < i {
                assert(!task_names_match(tasks[k], tasks[i]));
            } else {
                assert(!task_names_match(tasks[i], tasks[k]));
            }
        }
    }
    assert forall|m: int| 0 <= m < logs.len() && task_named_in_log(t, #[trigger] logs[m]) implies executed_at(
        t,
        logs[m],
        now,
    ) && !daily_missed_at(t, logs[m], now) by {
        if m != j {
            if m < j {
                assert(logs[m].name@ != logs[j].name@);
            } else {
                assert(logs[j].name@ != logs[m].name@);
            }
        }
    }
    lemma_not_chosen(tasks, logs, now, t);
}

/// The task with only its month kept among the schedule fields.
pub open spec fn only_month(t: Task) -> Task {
    Task { day_of_month: None, day_of_week: None, hour: None, minute: None, ..t }
}

/// The task with only its day of the month kept among the schedule fields.
pub open spec fn only_day_of_month(t: Task) -> Task {
    Task { month: None, day_of_week: None, hour: None, minute: None, ..t }
}

/// The task with only its weekday kept among the schedule fields.
pub open spec fn only_day_of_week(t: Task) -> Task {
    Task { month: None, day_of_month: None, hour: None, minute: None, ..t }
}

/// The task with only its hour kept among the schedule fields.
pub open spec fn only_hour(t: Task) -> Task {
    Task { month: None, day_of_month: None, day_of_week: None, minute: None, ..t }
}

/// The task with only its minute kept among the schedule fields.
pub open spec fn only_minute(t: Task) -> Task {
    Task { month: None, day_of_month: None, day_of_week: None, hour: None, ..t }
}

/// Law: a task's wait is the sum of what each of its schedule fields adds on
/// its own.
pub proof fn lemma_wait_adds_up(t: Task, now: CurrentTime)
    ensures
        task_wait(t, now) == task_wait(only_month(t), now) + task_wait(only_day_of_month(t), now)
            + task_wait(only_day_of_week(t), now) + task_wait(only_hour(t), now) + task_wait(
            only_minute(t),
            now,
        ),
{
}

/// Law: what each schedule field adds to the wait on its own, in seconds. A
/// later month adds 2628000 a month; an earlier one the months until it comes
/// round again. A later day of the month adds its own number of days, an
/// earlier one the days until it comes round in a 29-day month. A later
/// weekday adds the days until it, an earlier one the days until it comes
/// round next week. A later hour adds 3600 an hour; an earlier one 36000 for
/// each hour until it comes round tomorrow. A later minute adds 60 a minute,
/// an earlier one the minutes until it comes round next hour.
pub proof fn lemma_field_waits(t: Task, now: CurrentTime)
    ensures
        t.month matches Some(v) ==> (v > now.month ==> task_wait(only_month(t), now) == (v - now.month)
            * 2_628_000),
        t.month matches Some(v) ==> (v < now.month ==> task_wait(only_month(t), now) == (12 - now.month
            + v) * 2_628_000),
        t.day_of_month matches Some(v) ==> (v > now.day_of_month ==> task_wait(only_day_of_month(t), now)
            == v * 86_400),
        t.day_of_month matches Some(v) ==> (v < now.day_of_month ==> task_wait(only_day_of_month(t), now)
            == (29 - now.day_of_month + v) * 86_400),
        t.day_of_week matches Some(v) ==> (v > now.day_of_week_num ==> task_wait(only_day_of_week(t), now)
            == (v - now.day_of_week_num) * 86_400),
        t.day_of_week matches Some(v) ==> (v < now.day_of_week_num ==> task_wait(only_day_of_week(t), now)
            == (7 - now.day_of_week_num + v) * 86_400),
        t.hour matches Some(v) ==> (v > now.hour ==> task_wait(only_hour(t), now) == (v - now.hour)
            * 3_600),
        t.hour matches Some(v) ==> (v < now.hour ==> task_wait(only_hour(t), now) == (24 - now.hour + v)
            * 36_000),
        t.minute matches Some(v) ==> (v > now.min ==> task_wait(only_minute(t), now) == (v - now.min) * 60),
        t.minute matches Some(v) ==> (v < now.min ==> task_wait(only_minute(t), now) == (60 - now.min + v)
            * 60),
        t.month is None ==> task_wait(only_month(t), now) == 0,
        t.day_of_month is None ==> task_wait(only_day_of_month(t), now) == 0,
        t.day_of_week is None ==> task_wait(only_day_of_week(t), now) == 0,
        t.hour is None ==> task_wait(only_hour(t), now) == 0,
        t.minute is None ==> task_wait(only_minute(t), now) == 0,
        t.month == Some(now.month) ==> task_wait(only_month(t), now) == 0,
        t.day_of_month == Some(now.day_of_month) ==> task_wait(only_day_of_month(t), now) == 0,
        t.day_of_week == Some(now.day_of_week_num) ==> task_wait(only_day_of_week(t), now) == 0,
        t.hour == Some(now.hour) ==> task_wait(only_hour(t), now) == 0,
        t.minute == Some(now.min) ==> task_wait(only_minute(t), now) == 0,
{
}

/// Law: the smallest wait over a table is the wait of one of its tasks, or two
/// years when no task waits less; and the service sleeps an hour when that is
/// more than an hour, a minute when it is not positive, and exactly that long
/// otherwise.
pub proof fn lemma_sleep_is_smallest_wait(tasks: Seq<Task>, now: CurrentTime)
    ensures
        min_wait(tasks, now) == 64_281_600 || exists|i: int|
            0 <= i < tasks.len() && min_wait(tasks, now) == task_wait(#[trigger] tasks[i], now),
        min_wait(tasks, now) > 3_600 ==> sleep_for(min_wait(tasks, now)) == 3_600,
        min_wait(tasks, now) <= 0 ==> sleep_for(min_wait(tasks, now)) == 60,
        0 < min_wait(tasks, now) <= 3_600 ==> sleep_for(min_wait(tasks, now)) == min_wait(tasks, now),
    decreases tasks.len(),
{
    if tasks.len() > 0 {
        let d = tasks.drop_last();
        lemma_sleep_is_smallest_wait(d, now);
        if min_wait(tasks, now) != 64_281_600 {
            if min_wait(tasks, now) == task_wait(tasks.last(), now) {
                assert(tasks[tasks.len() - 1] == tasks.last());
            } else {
                let i = choose|i: int| 0 <= i < d.len() && min_wait(d, now) == task_wait(#[trigger] d[i], now);
                assert(tasks[i] == d[i]);
            }
        }
    }
}

/// A task that an entry of the log shows as a missed daily task is in the
/// list once the log table has been compared.
proof fn lemma_scan_logs_catches_up(acc: Seq<Task>, t: Task, logs: Seq<LogEntry>, now: CurrentTime, j: int)
    requires
        0 <= j < logs.len(),
        task_named_in_log(t, logs[j]),
        daily_missed_at(t, logs[j], now),
    ensures
        has_task(scan_logs(acc, t, logs, now), t),
    decreases logs.len(),
{
    let d = logs.drop_last();
    let before = scan_logs(acc, t, d, now);
    assert(same_task(t, t));
    if j == logs.len() - 1 {
        assert(before.push(t)[before.len() as int] == t);
    } else {
        assert(d[j] == logs[j]);
        lemma_scan_logs_catches_up(acc, t, d, now, j);
        lemma_push_keeps(before, t, t);
    }
}

/// Law: with a log table, a task that a log entry of its name shows as a
/// missed daily task (only its hour set among month, day and weekday, the hour
/// come, the entry written on another day) is chosen to run.
pub proof fn lemma_logged_catches_up_missed_daily(tasks: Seq<Task>, logs: Seq<LogEntry>, now: CurrentTime, i: int, j: int)
    requires
        0 <= i < tasks.len(),
        0 <= j < logs.len(),
        task_named_in_log(tasks[i], logs[j]),
        tasks[i].month is None,
        tasks[i].day_of_month is None,
        tasks[i].day_of_week is None,
        tasks[i].hour matches Some(h) && h <= now.hour,
        logs[j].execution_day_of_month != now.day_of_month,
    ensures
        has_task(tasks_to_run(tasks, Some(logs), now), tasks[i]),
{
    let t = tasks[i];
    let pre = tasks.take(i + 1);
    assert(pre.drop_last() =~= tasks.take(i));
    assert(pre.last() == t);
    let acc = tasks_to_run(tasks.take(i), Some(logs), now);
    lemma_scan_logs_catches_up(acc, t, logs, now, j);
    assert(named_in_logs(t, logs));
    assert(has_task(tasks_to_run(pre, Some(logs), now), t));
    lemma_run_prefix(tasks, Some(logs), now, i + 1);
    let r = tasks_to_run(tasks, Some(logs), now);
    let rp = tasks_to_run(pre, Some(logs), now);
    let k = choose|k: int| 0 <= k < rp.len() && same_task(#[trigger] rp[k], t);
    assert(r[k] == rp[k]);
}

} // verus!

//! What the command line and the window offer: new tasks, the task and log
//! tables, removing a task, turning the service on or off, taking tasks over
//! from a crontab, and the rows shown in the task list.
use vstd::prelude::*;
use crate::structs::{Task, TaskEncrypted, LogEntry, LogEntryEncrypted, CurrentTime};
use crate::enums::Configure;
use crate::shell::{ShellCommand, execute_for_install, install_command};
use crate::secure::{callable, task_opened, task_unopenable, log_opened, log_unopenable};
use crate::tables::{
    upsert_task, upsert_task_defined, table_sealed, sealable, rebuild, rebuild_defined,
    remove_first_named,
};

verus! {

/// `random_string::generate(length, charset)`: a random text. Trusted: the
/// crate's source draws `length` characters, each from `charset`, and panics
/// on an empty charset. Which characters are drawn is up to chance.
#[verifier::external_body]
fn random_text(length: usize, charset: &str) -> (r: String)
    requires
        charset@.len() > 0,
    ensures
        r@.len() == length,
        forall|i: int| 0 <= i < r@.len() ==> charset@.contains(#[trigger] r@[i]),
{
    random_string::generate(length, charset)
}

/// The letters a new task's name is drawn from.
pub open spec fn name_letters() -> Seq<char> {
    "abcdefghijklmnopqrstuvwxyz"@
}

/// A name drawn for a new task: six lower-case letters.
pub open spec fn drawn_name(t: Task) -> bool {
    t.name matches Some(n) && n@.len() == 6 && forall|i: int|
        0 <= i < 6 ==> name_letters().contains(#[trigger] n@[i])
}

/// The task's time added is the time `now`.
pub open spec fn added_at(t: Task, now: CurrentTime) -> bool {
    &&& t.year_added == now.year
    &&& t.month_added == now.month
    &&& t.day_of_month_added == now.day_of_month
    &&& t.hour_added == now.hour
    &&& t.minute_added == now.min
}

/// A task made at `now`: nothing but its name set, and `now` as the time
/// it was added.
pub open spec fn made_at(t: Task, now: CurrentTime) -> bool {
    &&& t.shell is None
    &&& t.command is None
    &&& t.comment is None
    &&& t.month is None
    &&& t.day_of_month is None
    &&& t.day_of_week is None
    &&& t.hour is None
    &&& t.minute is None
    &&& added_at(t, now)
}

impl Task {
    /// A task named `name`, made at `now`.
    pub fn fresh(name: String, now: &CurrentTime) -> (t: Task)
        ensures
            t.name == Some(name),
            made_at(t, *now),
    {
        Task {
            name: Some(name),
            shell: None,
            command: None,
            comment: None,
            month: None,
            day_of_month: None,
            day_of_week: None,
            hour: None,
            minute: None,
            year_added: now.year,
            month_added: now.month,
            day_of_month_added: now.day_of_month,
            hour_added: now.hour,
            minute_added: now.min,
        }
    }

    /// A new task with a random six-letter name, made at one reading of the
    /// local clock.
    pub fn new() -> (t: Task)
        ensures
            drawn_name(t),
            exists|now: CurrentTime| now.is_valid() && #[trigger] made_at(t, now),
    {
        proof {
            reveal_strlit("abcdefghijklmnopqrstuvwxyz");
        }
        let name_holder = random_text(6, "abcdefghijklmnopqrstuvwxyz");
        let now = CurrentTime::now();
        Task::fresh(name_holder, &now)
    }
}

/// The command line that turns the service on or off (`shell_var` is the
/// `SHELL` variable, when set and readable).
pub fn execute_command_install(enable_disable: Configure, shell_var: Option<String>) -> (c: ShellCommand)
    ensures
        c.program@ == match shell_var {
            Some(s) => s@,
            None => "bash"@,
        },
        c.args@.len() == 2,
        c.args@[0]@ == "-c"@,
        c.args@[1]@ == install_command(enable_disable),
{
    execute_for_install(enable_disable, shell_var)
}

/// The task table, opened from its stored rows; empty when no cell could be
/// made from the key (`open` is `None`) or a row cannot be opened.
pub fn read_tasks_db<F: Fn(Vec<u8>) -> Option<Vec<u8>>>(rows: Vec<TaskEncrypted>, open: Option<&F>) -> (r: Vec<
    Task,
>)
    requires
        open matches Some(f) ==> callable(*f),
    ensures
        open is None ==> r@.len() == 0,
        open matches Some(f) ==> ((r@.len() == rows@.len() && forall|i: int|
            0 <= i < r@.len() ==> task_opened(*f, rows@[i], #[trigger] r@[i])) || (r@.len() == 0
            && exists|i: int| 0 <= i < rows@.len() && task_unopenable(*f, #[trigger] rows@[i]))),
{
    TaskEncrypted::read_db(rows, open)
}

/// The log table, opened from its stored rows; `None` when no cell could be
/// made from the key (`open` is `None`) or a row cannot be opened.
pub fn read_logs_db<F: Fn(Vec<u8>) -> Option<Vec<u8>>>(rows: Vec<LogEntryEncrypted>, open: Option<&F>) -> (r: Option<
    Vec<LogEntry>,
>)
    requires
        open matches Some(f) ==> callable(*f),
    ensures
        open is None ==> r is None,
        open matches Some(f) ==> (r matches Some(ls) ==> ls@.len() == rows@.len() && forall|i: int|
            0 <= i < ls@.len() ==> log_opened(*f, rows@[i], #[trigger] ls@[i])),
        open matches Some(f) ==> (r is None ==> exists|i: int|
            0 <= i < rows@.len() && log_unopenable(*f, #[trigger] rows@[i])),
{
    LogEntryEncrypted::read_logs(rows, open)
}

/// The rows to store after adding `task` to the task table `current`.
pub fn add_task<F: Fn(Vec<u8>) -> Option<Vec<u8>>>(current: Vec<Task>, task: Task, seal: Option<&F>) -> (r: Vec<
    TaskEncrypted,
>)
    requires
        seal matches Some(f) ==> callable(*f),
        upsert_task_defined(current@, task),
        forall|i: int|
            0 <= i < upsert_task(current@, task).len() ==> sealable(
                #[trigger] upsert_task(current@, task)[i],
            ),
    ensures
        seal matches Some(f) ==> table_sealed(*f, upsert_task(current@, task), r@),
        seal is None ==> r@.len() == 0,
{
    TaskEncrypted::add_task(current, task, seal)
}

/// The rows to store after removing the task named `task_name` from `current`.
pub fn rm_task<F: Fn(Vec<u8>) -> Option<Vec<u8>>>(current: Vec<Task>, task_name: &String, seal: Option<&F>) -> (r: Vec<
    TaskEncrypted,
>)
    requires
        seal matches Some(f) ==> callable(*f),
        rebuild_defined(remove_first_named(current@, task_name@)),
        forall|i: int|
            0 <= i < rebuild(remove_first_named(current@, task_name@)).len() ==> sealable(
                #[trigger] rebuild(remove_first_named(current@, task_name@))[i],
            ),
    ensures
        seal matches Some(f) ==> table_sealed(*f, rebuild(remove_first_named(current@, task_name@)), r@),
        seal is None ==> r@.len() == 0,
{
    TaskEncrypted::rm_task(current, task_name, seal)
}

/// A crontab entry, as the crontab reader gives it.
pub struct CronJob {
    pub id: i32,
    pub minute: Option<u8>,
    pub hour: Option<u8>,
    pub day_of_month: Option<u8>,
    pub month: Option<u8>,
    pub day_of_week: Option<u8>,
    pub command: Option<String>,
}

/// A crontab field as a schedule field.
pub open spec fn widen(o: Option<u8>) -> Option<i32> {
    match o {
        Some(n) => Some(n as i32),
        None => None,
    }
}

/// A crontab field as a schedule field.
pub fn convert_options_u8_i32(option_u8: Option<u8>) -> (r: Option<i32>)
    ensures
        r == widen(option_u8),
{
    match option_u8 {
        Some(number) => Some(number as i32),
        None => None,
    }
}

/// The shell new tasks run in: the `shell` variable when set and readable,
/// else `bash`.
pub fn shell(shell_var: Option<String>) -> (r: Option<String>)
    ensures
        r matches Some(s) && s@ == match shell_var {
            Some(v) => v@,
            None => "bash"@,
        },
{
    match shell_var {
        Some(v) => Some(v),
        None => Some("bash".to_owned()),
    }
}

/// `t` takes over the crontab entry `job`, run in `sh`.
pub open spec fn task_of_job(t: Task, job: CronJob, sh: Seq<char>) -> bool {
    &&& t.shell matches Some(s) && s@ == sh
    &&& t.minute == widen(job.minute)
    &&& t.hour == widen(job.hour)
    &&& t.day_of_month == widen(job.day_of_month)
    &&& t.month == widen(job.month)
    &&& t.day_of_week == widen(job.day_of_week)
    &&& t.command == job.command
    &&& drawn_name(t)
    &&& t.comment is None
    &&& exists|now: CurrentTime| now.is_valid() && #[trigger] added_at(t, now)
}

/// A new task that takes over a crontab entry.
pub fn task_from_cron(job: &CronJob, shell_var: Option<String>) -> (t: Task)
    ensures
        task_of_job(
            t,
            *job,
            match shell_var {
                Some(v) => v@,
                None => "bash"@,
            },
        ),
{
    let mut task = Task::new();
    let ghost made = choose|now: CurrentTime| now.is_valid() && #[trigger] made_at(task, now);
    task.shell = shell(shell_var);
    task.minute = convert_options_u8_i32(job.minute);
    task.hour = convert_options_u8_i32(job.hour);
    task.day_of_month = convert_options_u8_i32(job.day_of_month);
    task.month = convert_options_u8_i32(job.month);
    task.day_of_week = convert_options_u8_i32(job.day_of_week);
    task.command = crate::structs::copy_opt_text(&job.command);
    assert(added_at(task, made));
    task
}

/// The shell a crontab task runs in.
pub open spec fn shell_of(shell_var: Option<String>) -> Seq<char> {
    match shell_var {
        Some(v) => v@,
        None => "bash"@,
    }
}

/// `r` holds, in order, one task for each crontab entry with the given id;
/// `idx` lists the positions of those entries.
pub open spec fn picks_jobs(crontab: Seq<CronJob>, id: i32, sh: Seq<char>, r: Seq<Task>, idx: Seq<int>) -> bool {
    &&& idx.len() == r.len()
    &&& forall|k: int|
        0 <= k < idx.len() ==> 0 <= #[trigger] idx[k] < crontab.len() && crontab[idx[k]].id == id
            && task_of_job(r[k], crontab[idx[k]], sh)
    &&& forall|k: int, m: int| 0 <= k < m < idx.len() ==> idx[k] < idx[m]
    &&& forall|j: int|
        0 <= j < crontab.len() && (#[trigger] crontab[j]).id == id ==> exists|k: int|
            0 <= k < idx.len() && #[trigger] idx[k] == j
}

/// The new tasks for the crontab entries with the given id, in order.
pub fn sync_crontab_by_id(crontab: &Vec<CronJob>, id_cronjob: i32, shell_var: &Option<String>) -> (r: Vec<
    Task,
>)
    ensures
        exists|idx: Seq<int>| #[trigger] picks_jobs(crontab@, id_cronjob, shell_of(*shell_var), r@, idx),
{
    let mut out: Vec<Task> = Vec::new();
    let ghost mut idx: Seq<int> = Seq::empty();
    let mut i: usize = 0;
    while i < crontab.len()
        invariant
            i <= crontab@.len(),
            idx.len() == out@.len(),
            forall|k: int|
                0 <= k < idx.len() ==> 0 <= #[trigger] idx[k] < i && crontab@[idx[k]].id == id_cronjob
                    && task_of_job(out@[k], crontab@[idx[k]], shell_of(*shell_var)),
            forall|k: int, m: int| 0 <= k < m < idx.len() ==> idx[k] < idx[m],
            forall|j: int|
                0 <= j < i && (#[trigger] crontab@[j]).id == id_cronjob ==> exists|k: int|
                    0 <= k < idx.len() && #[trigger] idx[k] == j,
        decreases crontab@.len() - i,
    {
        if crontab[i].id == id_cronjob {
            let shell_copy = crate::structs::copy_opt_text(shell_var);
            let t = task_from_cron(&crontab[i], shell_copy);
            out.push(t);
            proof {
                let old_idx = idx;
                idx = idx.push(i as int);
                assert(idx[idx.len() - 1] == i);
                assert forall|j: int|
                    0 <= j < i + 1 && (#[trigger] crontab@[j]).id == id_cronjob implies exists|k: int|
                        0 <= k < idx.len() && #[trigger] idx[k] == j by {
                    if j < i {
                        let k = choose|k: int| 0 <= k < old_idx.len() && #[trigger] old_idx[k] == j;
                        assert(idx[k] == j);
                    } else {
                        assert(idx[idx.len() - 1] == j);
                    }
                }
            }
        }
        i = i + 1;
    }
    assert(picks_jobs(crontab@, id_cronjob, shell_of(*shell_var), out@, idx));
    out
}

/// The new tasks for every crontab entry, in order.
pub fn sync_all_crontab(crontab: &Vec<CronJob>, shell_var: &Option<String>) -> (r: Vec<Task>)
    ensures
        r@.len() == crontab@.len(),
        forall|k: int|
            0 <= k < r@.len() ==> task_of_job(
                #[trigger] r@[k],
                crontab@[k],
                match shell_var {
                    Some(v) => v@,
                    None => "bash"@,
                },
            ),
{
    let mut out: Vec<Task> = Vec::new();
    let mut i: usize = 0;
    while i < crontab.len()
        invariant
            i <= crontab@.len(),
            out@.len() == i,
            forall|k: int|
                0 <= k < i ==> task_of_job(
                    #[trigger] out@[k],
                    crontab@[k],
                    match shell_var {
                        Some(v) => v@,
                        None => "bash"@,
                    },
                ),
        decreases crontab@.len() - i,
    {
        let shell_copy = crate::structs::copy_opt_text(shell_var);
        let t = task_from_cron(&crontab[i], shell_copy);
        out.push(t);
        i = i + 1;
    }
    out
}

/// The fields the `add` command takes.
pub struct AddOptions {
    pub name: Option<String>,
    pub shell: Option<String>,
    pub command: Option<String>,
    pub comment: Option<String>,
    pub month: Option<i32>,
    pub day_of_month: Option<i32>,
    pub day_of_week: Option<i32>,
    pub hour: Option<i32>,
    pub minute: Option<i32>,
}

/// A new task filled from the `add` command: a given name, shell or command
/// replaces the new task's; comment, month, day of week, hour and minute are
/// taken as given, and so are the month and the day of the month.
pub fn apply_add_options(new_task: Task, options: AddOptions) -> (t: Task)
    ensures
        t.name == match options.name {
            Some(n) => Some(n),
            None => new_task.name,
        },
        t.shell == match options.shell {
            Some(s) => Some(s),
            None => new_task.shell,
        },
        t.command == match options.command {
            Some(c) => Some(c),
            None => new_task.command,
        },
        t.comment == options.comment,
        t.month == options.month,
        t.day_of_month == options.day_of_month,
        t.day_of_week == options.day_of_week,
        t.hour == options.hour,
        t.minute == options.minute,
        t.year_added == new_task.year_added,
        t.month_added == new_task.month_added,
        t.day_of_month_added == new_task.day_of_month_added,
        t.hour_added == new_task.hour_added,
        t.minute_added == new_task.minute_added,
{
    let mut task = new_task;
    if let Some(name) = options.name {
        task.name = Some(name);
    }
    if let Some(shell) = options.shell {
        task.shell = Some(shell);
    }
    if let Some(command) = options.command {
        task.command = Some(command);
    }
    task.comment = options.comment;
    task.month = options.month;
    task.day_of_month = options.day_of_month;
    task.day_of_week = options.day_of_week;
    task.hour = options.hour;
    task.minute = options.minute;
    task
}

/// A task as the window shows it: unset texts are empty.
pub struct TaskFmt {
    pub name: String,
    pub shell: String,
    pub command: String,
    pub comment: String,
    pub month: Option<i32>,
    pub day_of_month: Option<i32>,
    pub day_of_week: Option<i32>,
    pub hour: Option<i32>,
    pub minute: Option<i32>,
}

/// A text, or the empty text when unset.
pub open spec fn text_or_empty(s: Option<String>) -> Seq<char> {
    match s {
        Some(x) => x@,
        None => Seq::empty(),
    }
}

/// `f` is how the window shows `t`.
pub open spec fn shown_as(t: Task, f: TaskFmt) -> bool {
    &&& f.name@ == text_or_empty(t.name)
    &&& f.shell@ == text_or_empty(t.shell)
    &&& f.command@ == text_or_empty(t.command)
    &&& f.comment@ == text_or_empty(t.comment)
    &&& f.month == t.month
    &&& f.day_of_month == t.day_of_month
    &&& f.day_of_week == t.day_of_week
    &&& f.hour == t.hour
    &&& f.minute == t.minute
}

/// An unset text as the window shows it.
fn text_or_blank(s: &Option<String>) -> (r: String)
    ensures
        r@ == text_or_empty(*s),
{
    match s {
        Some(x) => x.clone(),
        None => String::new(),
    }
}

impl TaskFmt {
    /// An empty row.
    pub fn new() -> (f: TaskFmt)
        ensures
            f.name@.len() == 0 && f.shell@.len() == 0 && f.command@.len() == 0
                && f.comment@.len() == 0,
            f.month is None && f.day_of_month is None && f.day_of_week is None && f.hour is None
                && f.minute is None,
    {
        TaskFmt {
            name: String::new(),
            shell: String::new(),
            command: String::new(),
            comment: String::new(),
            month: None,
            day_of_month: None,
            day_of_week: None,
            hour: None,
            minute: None,
        }
    }
}

/// The rows the window shows for the task table, in order.
pub fn get_tasks_fmt(current_tasks: &Vec<Task>) -> (r: Vec<TaskFmt>)
    ensures
        r@.len() == current_tasks@.len(),
        forall|k: int| 0 <= k < r@.len() ==> shown_as(current_tasks@[k], #[trigger] r@[k]),
{
    let mut out: Vec<TaskFmt> = Vec::new();
    let mut i: usize = 0;
    while i < current_tasks.len()
        invariant
            i <= current_tasks@.len(),
            out@.len() == i,
            forall|k: int| 0 <= k < i ==> shown_as(current_tasks@[k], #[trigger] out@[k]),
        decreases current_tasks@.len() - i,
    {
        let task = &current_tasks[i];
        let mut task_fmt = TaskFmt::new();
        task_fmt.name = text_or_blank(&task.name);
        task_fmt.shell = text_or_blank(&task.shell);
        task_fmt.command = text_or_blank(&task.command);
        task_fmt.comment = text_or_blank(&task.comment);
        task_fmt.month = task.month;
        task_fmt.day_of_month = task.day_of_month;
        task_fmt.day_of_week = task.day_of_week;
        task_fmt.hour = task.hour;
        task_fmt.minute = task.minute;
        out.push(task_fmt);
        i = i + 1;
    }
    out
}


/// A schedule number as the list shows it: its value, or 0 when unset.
pub open spec fn number_or_zero(o: Option<i32>) -> i32 {
    match o {
        Some(v) => v,
        None => 0,
    }
}

/// A comment as the list shows it: its text, or the text "None" when unset.
pub open spec fn comment_or_none(o: Option<String>) -> Seq<char> {
    match o {
        Some(c) => c@,
        None => "None"@,
    }
}

/// One row of the task list.
pub struct ListRow {
    pub name: String,
    pub shell: String,
    pub command: String,
    pub month: i32,
    pub day_of_month: i32,
    pub day_of_week: i32,
    pub hour: i32,
    pub minute: i32,
    pub comment: String,
}

/// `row` is the list row of `t`: its texts, each schedule number or 0, and
/// its comment or "None".
pub open spec fn list_row_of(t: Task, row: ListRow) -> bool {
    &&& row.name@ == t.name->0@
    &&& row.shell@ == t.shell->0@
    &&& row.command@ == t.command->0@
    &&& row.month == number_or_zero(t.month)
    &&& row.day_of_month == number_or_zero(t.day_of_month)
    &&& row.day_of_week == number_or_zero(t.day_of_week)
    &&& row.hour == number_or_zero(t.hour)
    &&& row.minute == number_or_zero(t.minute)
    &&& row.comment@ == comment_or_none(t.comment)
}

/// A schedule number, or 0 when unset.
fn or_zero(o: Option<i32>) -> (r: i32)
    ensures
        r == number_or_zero(o),
{
    match o {
        Some(v) => v,
        None => 0,
    }
}

/// The rows of the task list, one per task, in order.
pub fn list_rows(task_db: &Vec<Task>) -> (rows: Vec<ListRow>)
    requires
        forall|i: int| 0 <= i < task_db@.len() ==> sealable(#[trigger] task_db@[i]),
    ensures
        rows@.len() == task_db@.len(),
        forall|k: int| 0 <= k < rows@.len() ==> list_row_of(task_db@[k], #[trigger] rows@[k]),
{
    let mut rows: Vec<ListRow> = Vec::new();
    let mut i: usize = 0;
    while i < task_db.len()
        invariant
            i <= task_db@.len(),
            forall|j: int| 0 <= j < task_db@.len() ==> sealable(#[trigger] task_db@[j]),
            rows@.len() == i,
            forall|k: int| 0 <= k < i ==> list_row_of(task_db@[k], #[trigger] rows@[k]),
        decreases task_db@.len() - i,
    {
        let task = &task_db[i];
        proof {
            assert(sealable(task_db@[i as int]));
        }
        let comment = match &task.comment {
            Some(c) => c.clone(),
            None => "None".to_owned(),
        };
        proof {
            reveal_strlit("None");
        }
        let row = ListRow {
            name: task.name.as_ref().unwrap().clone(),
            shell: task.shell.as_ref().unwrap().clone(),
            command: task.command.as_ref().unwrap().clone(),
            month: or_zero(task.month),
            day_of_month: or_zero(task.day_of_month),
            day_of_week: or_zero(task.day_of_week),
            hour: or_zero(task.hour),
            minute: or_zero(task.minute),
            comment,
        };
        rows.push(row);
        i = i + 1;
    }
    rows
}

/// One row of the crontab listing.
pub struct CronRow {
    pub id: i32,
    pub minute: u8,
    pub hour: u8,
    pub day_of_month: u8,
    pub month: u8,
    pub day_of_week: u8,
    pub command: String,
}

/// What `str::trim_start` leaves of a text.
pub uninterp spec fn trimmed_start(s: Seq<char>) -> Seq<char>;

/// `str::trim_start`, as an owned text. Trusted: std documents that it returns
/// the text with its leading whitespace removed, so the result is an end part
/// of the text; which characters count as whitespace (Unicode's White_Space)
/// is left to the name `trimmed_start` and not stated here.
#[verifier::external_body]
fn trim_leading_space(s: &str) -> (r: String)
    ensures
        r@ == trimmed_start(s@),
        r@.len() <= s@.len(),
        r@ == s@.subrange(s@.len() - r@.len(), s@.len() as int),
{
    s.trim_start().to_string()
}

/// A crontab command as the listing shows it: trimmed of leading whitespace,
/// or a single space when there is none.
pub open spec fn shown_command(c: Option<String>) -> Seq<char> {
    match c {
        Some(x) => trimmed_start(x@),
        None => " "@,
    }
}

/// A crontab field as the listing shows it: its value, or 0 when unset.
pub open spec fn u8_or_zero(o: Option<u8>) -> u8 {
    match o {
        Some(v) => v,
        None => 0,
    }
}

/// `row` is the listing row of the crontab entry `job`: its id, each field
/// or 0, and its own command as shown.
pub open spec fn cron_row_of(job: CronJob, row: CronRow) -> bool {
    &&& row.id == job.id
    &&& row.minute == u8_or_zero(job.minute)
    &&& row.hour == u8_or_zero(job.hour)
    &&& row.day_of_month == u8_or_zero(job.day_of_month)
    &&& row.month == u8_or_zero(job.month)
    &&& row.day_of_week == u8_or_zero(job.day_of_week)
    &&& row.command@ == shown_command(job.command)
}

/// A crontab field, or 0 when unset.
fn u8_or_zero_exec(o: Option<u8>) -> (r: u8)
    ensures
        r == u8_or_zero(o),
{
    match o {
        Some(v) => v,
        None => 0,
    }
}

/// The rows of the crontab listing, one per entry, in order.
pub fn cron_rows(cronjobs_list: &Vec<CronJob>) -> (rows: Vec<CronRow>)
    ensures
        rows@.len() == cronjobs_list@.len(),
        forall|k: int| 0 <= k < rows@.len() ==> cron_row_of(cronjobs_list@[k], #[trigger] rows@[k]),
{
    let mut rows: Vec<CronRow> = Vec::new();
    let mut i: usize = 0;
    while i < cronjobs_list.len()
        invariant
            i <= cronjobs_list@.len(),
            rows@.len() == i,
            forall|k: int| 0 <= k < i ==> cron_row_of(cronjobs_list@[k], #[trigger] rows@[k]),
        decreases cronjobs_list@.len() - i,
    {
        let job = &cronjobs_list[i];
        let command = match &job.command {
            Some(c) => trim_leading_space(c.as_str()),
            None => " ".to_owned(),
        };
        proof {
            reveal_strlit(" ");
        }
        let row = CronRow {
            id: job.id,
            minute: u8_or_zero_exec(job.minute),
            hour: u8_or_zero_exec(job.hour),
            day_of_month: u8_or_zero_exec(job.day_of_month),
            month: u8_or_zero_exec(job.month),
            day_of_week: u8_or_zero_exec(job.day_of_week),
            command,
        };
        rows.push(row);
        i = i + 1;
    }
    rows
}

/// One row of the log listing.
pub struct LogRow {
    pub name: String,
    pub command: String,
    pub execution_month: i32,
    pub execution_day_of_month: i32,
    pub execution_hour: i32,
    pub execution_minute: i32,
}

/// `row` is the listing row of the log entry `l`: its name, command, and the
/// month, day, hour and minute it ran.
pub open spec fn log_row_of(l: LogEntry, row: LogRow) -> bool {
    &&& row.name@ == l.name@
    &&& row.command@ == l.command@
    &&& row.execution_month == l.execution_month
    &&& row.execution_day_of_month == l.execution_day_of_month
    &&& row.execution_hour == l.execution_hour
    &&& row.execution_minute == l.execution_minute
}

/// The rows of the log listing, one per entry, in order.
pub fn log_rows(logs: &Vec<LogEntry>) -> (rows: Vec<LogRow>)
    ensures
        rows@.len() == logs@.len(),
        forall|k: int| 0 <= k < rows@.len() ==> log_row_of(logs@[k], #[trigger] rows@[k]),
{
    let mut rows: Vec<LogRow> = Vec::new();
    let mut i: usize = 0;
    while i < logs.len()
        invariant
            i <= logs@.len(),
            rows@.len() == i,
            forall|k: int| 0 <= k < i ==> log_row_of(logs@[k], #[trigger] rows@[k]),
        decreases logs@.len() - i,
    {
        let l = &logs[i];
        let row = LogRow {
            name: l.name.clone(),
            command: l.command.clone(),
            execution_month: l.execution_month,
            execution_day_of_month: l.execution_day_of_month,
            execution_hour: l.execution_hour,
            execution_minute: l.execution_minute,
        };
        rows.push(row);
        i = i + 1;
    }
    rows
}

} // verus!

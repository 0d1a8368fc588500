//! The command lines the service runs, and the log entry it writes for a run.
use vstd::prelude::*;
use vstd::utf8::{valid_utf8, decode_utf8};
use crate::structs::{Task, LogEntry, CurrentTime};
use crate::enums::{OS, Configure, ErrorType};

verus! {

/// A program and its arguments.
#[derive(Debug)]
pub struct ShellCommand {
    pub program: String,
    pub args: Vec<String>,
}

/// The text `String::from_utf8_lossy` makes of some bytes.
pub uninterp spec fn utf8_lossy(bytes: Seq<u8>) -> Seq<char>;

/// `String::from_utf8_lossy` on the bytes, as an owned string. Trusted: the
/// result is named by `utf8_lossy` of the bytes; std documents that valid
/// UTF-8 is kept as it is. How invalid sequences are replaced is left unsaid.
#[verifier::external_body]
fn string_from_utf8_lossy(bytes: &[u8]) -> (s: String)
    ensures
        s@ == utf8_lossy(bytes@),
        valid_utf8(bytes@) ==> s@ == decode_utf8(bytes@),
{
    String::from_utf8_lossy(bytes).into_owned()
}

/// The flag that makes a shell run the command that follows it.
pub open spec fn command_flag(os: OS) -> Seq<char> {
    if os == OS::Windows {
        "/c"@
    } else {
        "-c"@
    }
}

/// The systemd command that turns the user service on or off.
pub open spec fn install_command(com_type: Configure) -> Seq<char> {
    match com_type {
        Configure::EnableTaskerService => "systemctl --user enable tasker.service"@,
        Configure::DisableTaskerService => "systemctl --user disable tasker.service"@,
    }
}

/// The command line that turns the user service on or off: the shell named by
/// `shell_var` (the `SHELL` variable, when set and readable), else `bash`,
/// running the systemd command.
pub fn execute_for_install(com_type: Configure, shell_var: Option<String>) -> (c: ShellCommand)
    ensures
        c.program@ == match shell_var {
            Some(s) => s@,
            None => "bash"@,
        },
        c.args@.len() == 2,
        c.args@[0]@ == "-c"@,
        c.args@[1]@ == install_command(com_type),
{
    let shell = match shell_var {
        Some(s) => s,
        None => "bash".to_owned(),
    };
    let mut args: Vec<String> = Vec::new();
    args.push("-c".to_owned());
    match com_type {
        Configure::EnableTaskerService => {
            args.push("systemctl --user enable tasker.service".to_owned());
        },
        Configure::DisableTaskerService => {
            args.push("systemctl --user disable tasker.service".to_owned());
        },
    }
    ShellCommand { program: shell, args }
}

/// What runs a task: its shell, the flag, and its command; an unset shell or
/// command is run as an empty text, and reported.
pub struct TaskRun {
    pub command: ShellCommand,
    pub errors: Vec<ErrorType>,
}

/// The command line that runs a task on the given platform.
pub fn task_invocation(task: &Task, os: OS) -> (r: TaskRun)
    ensures
        r.command.program@ == match task.shell {
            Some(s) => s@,
            None => Seq::<char>::empty(),
        },
        r.command.args@.len() == 2,
        r.command.args@[0]@ == command_flag(os),
        r.command.args@[1]@ == match task.command {
            Some(s) => s@,
            None => Seq::<char>::empty(),
        },
        r.errors@ == (if task.shell is None {
            seq![ErrorType::ShellNotFound]
        } else {
            Seq::empty()
        }) + (if task.command is None {
            seq![ErrorType::CommandError]
        } else {
            Seq::empty()
        }),
{
    let mut errors: Vec<ErrorType> = Vec::new();
    let task_shell = match &task.shell {
        Some(s) => s.clone(),
        None => {
            errors.push(ErrorType::ShellNotFound);
            String::new()
        },
    };
    let task_command = match &task.command {
        Some(c) => c.clone(),
        None => {
            errors.push(ErrorType::CommandError);
            String::new()
        },
    };
    let mut args: Vec<String> = Vec::new();
    if os == OS::Windows {
        args.push("/c".to_owned());
    } else {
        args.push("-c".to_owned());
    }
    args.push(task_command);
    proof {
        assert(errors@ =~= (if task.shell is None {
            seq![ErrorType::ShellNotFound]
        } else {
            Seq::empty()
        }) + (if task.command is None {
            seq![ErrorType::CommandError]
        } else {
            Seq::empty()
        }));
    }
    TaskRun { command: ShellCommand { program: task_shell, args }, errors }
}

/// The log entry for one run of a task at `now`: its name and command, the
/// run's standard output read as UTF-8 (invalid bytes replaced), or no output
/// when the command could not be started.
pub fn log_entry_for(task: &Task, stdout: Option<Vec<u8>>, now: &CurrentTime) -> (l: LogEntry)
    requires
        task.name is Some,
        task.command is Some,
    ensures
        l.name@ == task.name->0@,
        l.command@ == task.command->0@,
        match stdout {
            Some(b) => l.output matches Some(o) && o@ == utf8_lossy(b@),
            None => l.output is None,
        },
        l.execution_year == now.year,
        l.execution_month == now.month,
        l.execution_week == now.week,
        l.execution_day_of_month == now.day_of_month,
        l.execution_day_of_week == now.day_of_week_num,
        l.execution_hour == now.hour,
        l.execution_minute == now.min,
{
    let output = match stdout {
        Some(b) => Some(string_from_utf8_lossy(b.as_slice())),
        None => None,
    };
    LogEntry {
        name: task.name.as_ref().unwrap().clone(),
        command: task.command.as_ref().unwrap().clone(),
        output,
        execution_year: now.year,
        execution_month: now.month,
        execution_week: now.week,
        execution_day_of_month: now.day_of_month,
        execution_day_of_week: now.day_of_week_num,
        execution_hour: now.hour,
        execution_minute: now.min,
    }
}

/// The log entry for a run that just ended, by the local clock.
pub fn log_entry_now(task: &Task, stdout: Option<Vec<u8>>) -> (l: LogEntry)
    requires
        task.name is Some,
        task.command is Some,
    ensures
        l.name@ == task.name->0@,
        l.command@ == task.command->0@,
        match stdout {
            Some(b) => l.output matches Some(o) && o@ == utf8_lossy(b@),
            None => l.output is None,
        },
        exists|now: CurrentTime|
            now.is_valid() && l.execution_year == now.year && l.execution_month == now.month
                && l.execution_week == now.week && l.execution_day_of_month == now.day_of_month
                && l.execution_day_of_week == now.day_of_week_num && l.execution_hour == now.hour
                && l.execution_minute == now.min,
{
    let now = CurrentTime::now();
    log_entry_for(task, stdout, &now)
}

} // verus!

use tasker_lib::bytes::{bytes_to_text, i32_to_le_bytes};
use tasker_lib::config::set_db_path;
use tasker_lib::enums::{Configure, ConvertBytesToHumanReadable, ErrorType, NewRowTableBuilder, OS, RowType, TableType};
use tasker_lib::shell::{log_entry_for, task_invocation};
use tasker_lib::structs::{CurrentTime, LogEntry, LogEntryEncrypted, Task, TaskEncrypted, Weekday};
use tasker_lib::taskerctl::{
    apply_add_options, convert_options_u8_i32, cron_rows, execute_command_install, get_tasks_fmt,
    list_rows, log_rows, shell, sync_all_crontab, sync_crontab_by_id, AddOptions, CronJob, TaskFmt,
};
use tasker_lib::time::ClockReading;

fn named(name: &str) -> Task {
    let mut t = Task::new();
    t.name = Some(name.to_owned());
    t.shell = Some("sh".to_owned());
    t.command = Some("ls".to_owned());
    t
}

#[test]
fn le_bytes_read_back() {
    assert_eq!(i32_to_le_bytes(258), vec![2, 1, 0, 0]);
    assert_eq!(i32_to_le_bytes(-1), vec![255, 255, 255, 255]);
    assert_eq!(<Task as ConvertBytesToHumanReadable>::convert_le_bytes_i32(&[2, 1, 0, 0]), 258);
    assert_eq!(
        <LogEntry as ConvertBytesToHumanReadable>::convert_le_bytes_i32(&i32_to_le_bytes(2_000_000_000)),
        2_000_000_000
    );
    assert_eq!(<Task as ConvertBytesToHumanReadable>::convert_le_bytes_i32(&[255, 255, 255, 255]), -1);
    assert_eq!(
        <LogEntry as ConvertBytesToHumanReadable>::convert_le_bytes_i32(&i32_to_le_bytes(i32::MIN)),
        i32::MIN
    );
    assert_eq!(
        <Task as ConvertBytesToHumanReadable>::convert_le_bytes_i32(&[0, 0, 0, 128, 9]),
        i32::MIN
    );
}

#[test]
fn bytes_that_are_not_utf8_read_as_error_text() {
    assert_eq!(bytes_to_text(b"hello".to_vec()), "hello");
    assert_eq!(
        <Task as ConvertBytesToHumanReadable>::convert_bytes_to_string(vec![0xff, 0xfe]),
        "Error Encypting/Decrypting.."
    );
}

#[test]
fn os_from_target_name() {
    assert_eq!(OS::get_os("linux"), OS::Linux);
    assert_eq!(OS::get_os("windows"), OS::Windows);
    assert_eq!(OS::get_os("macos"), OS::Mac);
    assert_eq!(OS::get_os("freebsd"), OS::Unknown);
}

#[test]
fn database_path_rules() {
    assert_eq!(set_db_path(false, OS::Linux, Some("/home/ann".to_owned())), "/home/ann/.config/tasker/tasker.db");
    assert_eq!(set_db_path(false, OS::Linux, Some("/home/ann/".to_owned())), "/home/ann/.config/tasker/tasker.db");
    assert_eq!(set_db_path(false, OS::Linux, None), "./databases/tasker.db");
    assert_eq!(set_db_path(true, OS::Linux, None), "/etc/tasker/tasker.db");
    assert_eq!(set_db_path(false, OS::Mac, Some("/Users/ann".to_owned())), "./databases/tasker.db");
}

#[test]
fn install_command_lines() {
    let c = execute_command_install(Configure::EnableTaskerService, None);
    assert_eq!(c.program, "bash");
    assert_eq!(c.args, vec!["-c".to_owned(), "systemctl --user enable tasker.service".to_owned()]);
    let c = execute_command_install(Configure::DisableTaskerService, Some("/bin/zsh".to_owned()));
    assert_eq!(c.program, "/bin/zsh");
    assert_eq!(c.args[1], "systemctl --user disable tasker.service");
}

#[test]
fn task_command_line_and_errors() {
    let mut t = named("x");
    let run = task_invocation(&t, OS::Windows);
    assert_eq!(run.command.program, "sh");
    assert_eq!(run.command.args, vec!["/c".to_owned(), "ls".to_owned()]);
    assert!(run.errors.is_empty());
    t.shell = None;
    let run = task_invocation(&t, OS::Linux);
    assert_eq!(run.command.program, "");
    assert_eq!(run.command.args[0], "-c");
    assert_eq!(run.errors, vec![ErrorType::ShellNotFound]);
}

#[test]
fn log_entry_of_a_run() {
    let now = CurrentTime {
        year: 2024,
        month: 3,
        day_of_month: 9,
        week: 10,
        day_of_week: Weekday::Sat,
        day_of_week_num: 7,
        hour: 8,
        min: 5,
    };
    let t = named("x");
    let l = log_entry_for(&t, Some(b"out\xffput".to_vec()), &now);
    assert_eq!(l.name, "x");
    assert_eq!(l.output, Some("out\u{fffd}put".to_owned()));
    assert_eq!(l.execution_day_of_week, 7);
    assert_eq!(log_entry_for(&t, None, &now).output, None);
}

#[test]
fn error_reports() {
    assert_eq!(ErrorType::EmptyTable.report(), None);
    assert_eq!(
        ErrorType::ConnectionError.report(),
        Some("error connectiong to the database, please ensure read/write permissions.")
    );
    assert_eq!(
        ErrorType::RusqliteError.report(),
        Some("error, writing or reading in the database, please ensure read/write permissions")
    );
    assert_eq!(
        ErrorType::KeyringError.report(),
        Some("error getting keyring, please check keyring installation")
    );
}

#[test]
fn new_task_has_a_random_lowercase_name() {
    let t = Task::new();
    let name = t.name.clone().unwrap();
    assert_eq!(name.chars().count(), 6);
    assert!(name.chars().all(|c| c.is_ascii_lowercase()));
    assert!(t.shell.is_none() && t.command.is_none() && t.month.is_none());
    assert!((1..=12).contains(&t.month_added));
}

#[test]
fn add_options_fill_the_new_task() {
    let base = named("keep");
    let t = apply_add_options(
        base,
        AddOptions {
            name: None,
            shell: Some("zsh".to_owned()),
            command: None,
            comment: Some("c".to_owned()),
            month: Some(5),
            day_of_month: Some(20),
            day_of_week: None,
            hour: Some(1),
            minute: None,
        },
    );
    assert_eq!(t.name, Some("keep".to_owned()));
    assert_eq!(t.shell, Some("zsh".to_owned()));
    assert_eq!(t.command, Some("ls".to_owned()));
    assert_eq!(t.month, Some(5));
    assert_eq!(t.day_of_month, Some(20));
    assert_eq!(t.comment, Some("c".to_owned()));
    assert_eq!(t.hour, Some(1));
    assert_eq!(t.minute, None);
}

fn job(id: i32, minute: Option<u8>, command: Option<&str>) -> CronJob {
    CronJob {
        id,
        minute,
        hour: Some(2),
        day_of_month: None,
        month: None,
        day_of_week: None,
        command: command.map(|c| c.to_owned()),
    }
}

#[test]
fn crontab_sync() {
    assert_eq!(convert_options_u8_i32(Some(7)), Some(7));
    assert_eq!(convert_options_u8_i32(None), None);
    assert_eq!(shell(None), Some("bash".to_owned()));
    let jobs = vec![job(1, Some(5), Some("a")), job(2, None, Some("b")), job(1, Some(9), None)];
    let picked = sync_crontab_by_id(&jobs, 1, &Some("fish".to_owned()));
    assert_eq!(picked.len(), 2);
    assert_eq!(picked[0].minute, Some(5));
    assert_eq!(picked[0].command, Some("a".to_owned()));
    assert_eq!(picked[1].minute, Some(9));
    assert_eq!(picked[1].shell, Some("fish".to_owned()));
    let all = sync_all_crontab(&jobs, &None);
    assert_eq!(all.len(), 3);
    assert_eq!(all[1].hour, Some(2));
    assert_eq!(all[1].shell, Some("bash".to_owned()));
}

#[test]
fn list_rows_show_each_tasks_own_values() {
    let mut a = named("a");
    a.month = Some(3);
    a.hour = Some(4);
    a.comment = Some("first".to_owned());
    let b = named("b");
    let rows = list_rows(&vec![a, b]);
    assert_eq!(rows[0].name, "a");
    assert_eq!(rows[0].month, 3);
    assert_eq!(rows[0].hour, 4);
    assert_eq!(rows[0].comment, "first");
    assert_eq!(rows[0].minute, 0);
    assert_eq!(rows[1].name, "b");
    assert_eq!(rows[1].shell, "sh");
    assert_eq!(rows[1].command, "ls");
    assert_eq!(rows[1].month, 0);
    assert_eq!(rows[1].hour, 0);
    assert_eq!(rows[1].comment, "None");
}

#[test]
fn cron_rows_show_each_entrys_own_values() {
    let crow = cron_rows(&vec![job(4, Some(1), Some(" \t x y")), job(5, None, None)]);
    assert_eq!(crow[0].id, 4);
    assert_eq!(crow[0].minute, 1);
    assert_eq!(crow[0].hour, 2);
    assert_eq!(crow[0].command, "x y");
    assert_eq!(crow[1].id, 5);
    assert_eq!(crow[1].minute, 0);
    assert_eq!(crow[1].day_of_month, 0);
    assert_eq!(crow[1].command, " ");
}

#[test]
fn window_rows() {
    let f = TaskFmt::new();
    assert!(f.name.is_empty() && f.month.is_none());
    let mut t = named("w");
    t.comment = None;
    t.hour = Some(6);
    let rows = get_tasks_fmt(&vec![t]);
    assert_eq!(rows[0].name, "w");
    assert_eq!(rows[0].comment, "");
    assert_eq!(rows[0].hour, Some(6));
}

#[test]
fn is_duplicate_replaces_or_appends() {
    let a = named("a");
    let mut a2 = named("a");
    a2.command = Some("pwd".to_owned());
    let r = <TaskEncrypted as NewRowTableBuilder>::is_duplicate(
        RowType::TaskRow(a2.clone()),
        TableType::TaskTable(vec![a.clone(), named("b")]),
    );
    match r {
        TableType::TaskTable(t) => {
            assert_eq!(t.len(), 2);
            assert_eq!(t[0], a2);
        }
        _ => panic!("wrong table"),
    }
    let l = LogEntry {
        name: "n".to_owned(),
        command: "c".to_owned(),
        output: None,
        execution_year: 1,
        execution_month: 1,
        execution_week: 1,
        execution_day_of_month: 1,
        execution_day_of_week: 1,
        execution_hour: 1,
        execution_minute: 1,
    };
    let r = <LogEntryEncrypted as NewRowTableBuilder>::is_duplicate(
        RowType::LogRow(l.clone()),
        TableType::LogTable(vec![]),
    );
    match r {
        TableType::LogTable(t) => assert_eq!(t, vec![l]),
        _ => panic!("wrong table"),
    }
}

#[test]
fn clock_reading_becomes_current_time() {
    let r = ClockReading {
        year: 2024,
        month: 6,
        day: 15,
        iso_week: 24,
        days_from_monday: 5,
        hour: 10,
        minute: 30,
    };
    let t = CurrentTime::from_reading(&r);
    assert_eq!(
        (t.year, t.month, t.day_of_month, t.week, t.hour, t.min),
        (2024, 6, 15, 24, 10, 30)
    );
    assert_eq!(t.day_of_week, Weekday::Sat);
    assert_eq!(t.day_of_week_num, 7);
    let sunday = ClockReading { days_from_monday: 6, ..r };
    let t = CurrentTime::from_reading(&sunday);
    assert_eq!((t.day_of_week, t.day_of_week_num), (Weekday::Sun, 1));
}

#[test]
fn fresh_task_takes_the_time_given() {
    let now = CurrentTime {
        year: 2023,
        month: 11,
        day_of_month: 28,
        week: 48,
        day_of_week: Weekday::Tue,
        day_of_week_num: 3,
        hour: 17,
        min: 42,
    };
    let t = Task::fresh("abcdef".to_owned(), &now);
    assert_eq!(t.name, Some("abcdef".to_owned()));
    assert!(t.shell.is_none() && t.command.is_none() && t.comment.is_none());
    assert!(t.month.is_none() && t.day_of_month.is_none() && t.hour.is_none());
    assert_eq!(
        (t.year_added, t.month_added, t.day_of_month_added, t.hour_added, t.minute_added),
        (2023, 11, 28, 17, 42)
    );
}

#[test]
fn log_rows_show_each_entry() {
    let l = LogEntry {
        name: "job".to_owned(),
        command: "echo".to_owned(),
        output: Some("hi".to_owned()),
        execution_year: 2024,
        execution_month: 5,
        execution_week: 20,
        execution_day_of_month: 14,
        execution_day_of_week: 3,
        execution_hour: 9,
        execution_minute: 7,
    };
    let rows = log_rows(&vec![l]);
    assert_eq!(rows.len(), 1);
    assert_eq!(rows[0].name, "job");
    assert_eq!(rows[0].command, "echo");
    assert_eq!(
        (rows[0].execution_month, rows[0].execution_day_of_month, rows[0].execution_hour, rows[0].execution_minute),
        (5, 14, 9, 7)
    );
}

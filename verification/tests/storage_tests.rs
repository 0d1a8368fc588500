use tasker_lib::structs::{LogEntry, LogEntryEncrypted, Task, TaskEncrypted, CurrentTime};
use tasker_lib::taskerctl::{add_task, read_logs_db, read_tasks_db, rm_task};
use tasker_lib::tasker_logic::next_cycle;

/// A toy symmetric cipher for the tests: XOR with the key, behind a tag byte.
fn seal_with(key: Vec<u8>) -> impl Fn(Vec<u8>) -> Option<Vec<u8>> {
    move |plain: Vec<u8>| {
        if key.is_empty() {
            return None;
        }
        let mut out = vec![0xA5u8];
        for (i, b) in plain.iter().enumerate() {
            out.push(b ^ key[i % key.len()]);
        }
        Some(out)
    }
}

fn open_with(key: Vec<u8>) -> impl Fn(Vec<u8>) -> Option<Vec<u8>> {
    move |sealed: Vec<u8>| {
        if key.is_empty() || sealed.first() != Some(&0xA5u8) {
            return None;
        }
        Some(
            sealed[1..]
                .iter()
                .enumerate()
                .map(|(i, b)| b ^ key[i % key.len()])
                .collect(),
        )
    }
}

/// An in-memory task table: add a task as the service does (read, add, rewrite).
fn store_task(store: &mut Vec<TaskEncrypted>, task: Task, key: &[u8]) {
    let seal = seal_with(key.to_vec());
    let open = open_with(key.to_vec());
    let current = read_tasks_db(std::mem::take(store), Some(&open));
    *store = add_task(current, task, Some(&seal));
}

fn store_log(store: &mut Vec<LogEntryEncrypted>, log: LogEntry, key: &[u8]) -> bool {
    let seal = seal_with(key.to_vec());
    let open = open_with(key.to_vec());
    let current = read_logs_db(std::mem::take(store), Some(&open));
    let rows = LogEntryEncrypted::add_log(current, log, Some(&seal));
    let success = !rows.is_empty();
    *store = rows;
    success
}

#[test]
fn test_tasks_write_read() {
    let key: Vec<u8> = b"0123456789abcdef0123456789abcdef".to_vec();
    let mut store: Vec<TaskEncrypted> = Vec::new();
    let num_arr = [
        0, 1, 2, 3, 4, 5, 6, 7, 8, 9, 10, 11, 12, 13, 14, 15, 16, 17, 18, 19, 29,
    ];
    for i in num_arr.iter() {
        let task = Task {
            name: Some(i.to_string()),
            shell: Some("fish".to_owned()),
            command: Some("echo fish".to_owned()),
            comment: Some("testing testing".to_owned()),
            month: Some(1),
            day_of_month: Some(3),
            day_of_week: None,
            hour: Some(12),
            minute: Some(12),
            year_added: 2023,
            month_added: 12,
            day_of_month_added: 12,
            hour_added: 12,
            minute_added: 11,
        };
        store_task(&mut store, task, &key);
    }

    let res_read = read_tasks_db(store, Some(&open_with(key.clone())));

    if res_read.len() < 1 {
        panic!("error reading tasks from database");
    }
    assert_eq!(res_read.len(), num_arr.len());
    assert_eq!(res_read[20].name, Some("29".to_owned()));
    assert_eq!(res_read[3].command, Some("echo fish".to_owned()));
    assert_eq!(res_read[3].year_added, 2023);
}

#[test]
fn test_log_write_read() {
    let mut log_vec: Vec<LogEntry> = vec![];
    let key: Vec<u8> = "testingtesting".as_bytes().to_vec();
    let mut store: Vec<LogEntryEncrypted> = Vec::new();
    for i in 0..5 {
        let log = LogEntry {
            name: i.to_string(),
            command: "no command".to_owned(),
            output: None,
            execution_year: 2022,
            execution_month: 2,
            execution_week: 3,
            execution_day_of_month: 4,
            execution_day_of_week: 5,
            execution_hour: 6,
            execution_minute: 7,
        };
        log_vec.push(log);
    }

    for log in log_vec {
        let res_add = store_log(&mut store, log, &key);
        if res_add == false {
            panic!("error adding log to database!");
        }
    }
    let res_read = read_logs_db(store, Some(&open_with(key.clone())));
    if let None = res_read {
        panic!("error reading from log database")
    }
    let logs = res_read.unwrap();
    assert_eq!(logs.len(), 5);
    assert_eq!(logs[4].name, "4");
    assert_eq!(logs[4].execution_minute, 7);
}

#[test]
fn test_tasker_logic() {
    let (to_run, sleep) = next_cycle(&None, &None).unwrap();
    assert!(to_run.is_empty());
    assert_eq!(sleep, 3_600);
}

fn sample_task(name: &str) -> Task {
    Task {
        name: Some(name.to_owned()),
        shell: Some("bash".to_owned()),
        command: Some("echo hi".to_owned()),
        comment: None,
        month: Some(4),
        day_of_month: None,
        day_of_week: Some(3),
        hour: None,
        minute: Some(30),
        year_added: 2024,
        month_added: 1,
        day_of_month_added: 2,
        hour_added: 3,
        minute_added: 4,
    }
}

#[test]
fn task_seal_open_roundtrip_keeps_every_field() {
    let key = b"k3y".to_vec();
    let task = sample_task("backup");
    let sealed = Task::encrypt_fields(&task, Some(&seal_with(key.clone()))).expect("sealed");
    assert!(sealed.day_of_month.is_none());
    assert!(sealed.month.is_some());
    let opened = Task::decrypt_fields(vec![sealed], Some(&open_with(key))).expect("opened");
    let mut expected = task.clone();
    expected.comment = Some("None".to_owned());
    assert_eq!(opened, vec![expected]);
}

#[test]
fn task_seal_refused_gives_none() {
    let task = sample_task("backup");
    assert!(Task::encrypt_fields(&task, Some(&seal_with(Vec::new()))).is_none());
}

#[test]
fn refused_number_field_is_stored_unset() {
    let key = b"k".to_vec();
    let inner = seal_with(key.clone());
    // Refuses exactly the four bytes of the number 4 (the month).
    let seal = move |plain: Vec<u8>| {
        if plain == vec![4u8, 0, 0, 0] {
            None
        } else {
            inner(plain)
        }
    };
    let mut task = sample_task("backup");
    task.minute_added = 5;
    let sealed = Task::encrypt_fields(&task, Some(&seal)).expect("sealed");
    assert!(sealed.month.is_none());
    let opened = Task::decrypt_fields(vec![sealed], Some(&open_with(key))).expect("opened");
    assert_eq!(opened[0].month, None);
    assert_eq!(opened[0].minute, Some(30));
}

#[test]
fn opening_with_wrong_tag_fails() {
    let key = b"k".to_vec();
    let task = sample_task("backup");
    let mut sealed = Task::encrypt_fields(&task, Some(&seal_with(key.clone()))).expect("sealed");
    sealed.shell[0] = 0;
    assert!(Task::decrypt_fields(vec![sealed], Some(&open_with(key.clone()))).is_none());
    // An unreadable table reads as empty.
    let mut sealed = Task::encrypt_fields(&task, Some(&seal_with(key.clone()))).expect("sealed");
    sealed.name[0] = 0;
    assert!(TaskEncrypted::read_db(vec![sealed], Some(&open_with(key))).is_empty());
}

#[test]
fn negative_numbers_read_back() {
    let key = b"k".to_vec();
    let mut task = sample_task("backup");
    task.year_added = -1;
    task.month = Some(-1);
    task.minute = Some(i32::MIN);
    let sealed = Task::encrypt_fields(&task, Some(&seal_with(key.clone()))).expect("sealed");
    let opened = Task::decrypt_fields(vec![sealed], Some(&open_with(key))).expect("opened");
    assert_eq!(opened[0].year_added, -1);
    assert_eq!(opened[0].month, Some(-1));
    assert_eq!(opened[0].minute, Some(i32::MIN));
}

#[test]
fn negative_month_task_is_listed_after_storing() {
    let key = b"secret".to_vec();
    let mut store: Vec<TaskEncrypted> = Vec::new();
    let mut task = sample_task("neg");
    task.month = Some(-1);
    store_task(&mut store, task.clone(), &key);
    let tasks = read_tasks_db(store, Some(&open_with(key)));
    let mut expected = task;
    expected.comment = Some("None".to_owned());
    assert_eq!(tasks, vec![expected]);
}

type Opener = fn(Vec<u8>) -> Option<Vec<u8>>;

#[test]
fn no_cell_gives_no_table() {
    // Without a cell even an empty log table is not read.
    assert_eq!(read_logs_db(Vec::new(), None::<&Opener>), None);
    assert_eq!(LogEntry::decrypt_fields(Vec::new(), None::<&Opener>), None);
    assert_eq!(Task::decrypt_fields(Vec::new(), None::<&Opener>), None);
    assert!(read_tasks_db(Vec::new(), None::<&Opener>).is_empty());
    // With a cell an empty log table reads as empty.
    assert_eq!(read_logs_db(Vec::new(), Some(&open_with(b"k".to_vec()))), Some(Vec::new()));
    // Without a cell nothing is sealed.
    assert!(Task::encrypt_fields(&sample_task("a"), None::<&Opener>).is_none());
    let mut unnamed = sample_task("a");
    unnamed.name = None;
    assert!(Task::encrypt_fields(&unnamed, None::<&Opener>).is_none());
    assert!(add_task(Vec::new(), sample_task("a"), None::<&Opener>).is_empty());
}

#[test]
fn adding_a_task_of_the_same_name_replaces_it() {
    let key = b"secret".to_vec();
    let mut store: Vec<TaskEncrypted> = Vec::new();
    store_task(&mut store, sample_task("a"), &key);
    store_task(&mut store, sample_task("b"), &key);
    let mut changed = sample_task("a");
    changed.command = Some("echo changed".to_owned());
    store_task(&mut store, changed, &key);
    let tasks = read_tasks_db(store, Some(&open_with(key)));
    assert_eq!(tasks.len(), 2);
    assert_eq!(tasks[0].command, Some("echo changed".to_owned()));
    assert_eq!(tasks[1].name, Some("b".to_owned()));
}

#[test]
fn removing_a_task_keeps_the_others_in_order() {
    let key = b"secret".to_vec();
    let mut store: Vec<TaskEncrypted> = Vec::new();
    for n in ["a", "b", "c"] {
        store_task(&mut store, sample_task(n), &key);
    }
    let current = read_tasks_db(store, Some(&open_with(key.clone())));
    let rows = rm_task(current, &"b".to_owned(), Some(&seal_with(key.clone())));
    let tasks = read_tasks_db(rows, Some(&open_with(key.clone())));
    let names: Vec<String> = tasks.iter().map(|t| t.name.clone().unwrap()).collect();
    assert_eq!(names, vec!["a".to_owned(), "c".to_owned()]);
    // Removing a name that is not there leaves the table as it was.
    let rows = rm_task(tasks.clone(), &"zz".to_owned(), Some(&seal_with(key.clone())));
    assert_eq!(read_tasks_db(rows, Some(&open_with(key))), tasks);
}

#[test]
fn log_of_the_same_name_replaces_the_entry() {
    let key = b"testingtesting".to_vec();
    let mut store: Vec<LogEntryEncrypted> = Vec::new();
    let mut log = LogEntry {
        name: "job".to_owned(),
        command: "echo".to_owned(),
        output: Some("first".to_owned()),
        execution_year: 2024,
        execution_month: 5,
        execution_week: 20,
        execution_day_of_month: 14,
        execution_day_of_week: 3,
        execution_hour: 9,
        execution_minute: 0,
    };
    assert!(store_log(&mut store, log.clone(), &key));
    log.output = Some("second".to_owned());
    assert!(store_log(&mut store, log.clone(), &key));
    let logs = read_logs_db(store, Some(&open_with(key))).unwrap();
    assert_eq!(logs, vec![log]);
}

#[test]
fn current_time_is_in_calendar_range() {
    let now = CurrentTime::now();
    assert!((1..=12).contains(&now.month));
    assert!((1..=31).contains(&now.day_of_month));
    assert!((1..=53).contains(&now.week));
    assert!((1..=7).contains(&now.day_of_week_num));
    assert!((0..=23).contains(&now.hour));
    assert!((0..=59).contains(&now.min));
}

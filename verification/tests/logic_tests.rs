use tasker_lib::structs::{CurrentTime, LogEntry, Task, Weekday};
use tasker_lib::tasker_logic::{
    filter_table_at, get_tasks_table, is_daily_task_missed_logged_at, next_cycle_at,
    should_execute_at, task_wait_at, time_until_next_task_at, was_task_executed_at,
};

fn now_at(month: i32, day: i32, week: i32, dow: Weekday, dow_num: i32, hour: i32, min: i32) -> CurrentTime {
    CurrentTime {
        year: 2024,
        month,
        day_of_month: day,
        week,
        day_of_week: dow,
        day_of_week_num: dow_num,
        hour,
        min,
    }
}

fn bare(name: &str) -> Task {
    Task {
        name: Some(name.to_owned()),
        shell: Some("bash".to_owned()),
        command: Some("true".to_owned()),
        comment: None,
        month: None,
        day_of_month: None,
        day_of_week: None,
        hour: None,
        minute: None,
        year_added: 2024,
        month_added: 1,
        day_of_month_added: 1,
        hour_added: 0,
        minute_added: 0,
    }
}

fn log_for(name: &str, month: i32, day: i32, week: i32, dow: i32, hour: i32, min: i32) -> LogEntry {
    LogEntry {
        name: name.to_owned(),
        command: "true".to_owned(),
        output: None,
        execution_year: 2024,
        execution_month: month,
        execution_week: week,
        execution_day_of_month: day,
        execution_day_of_week: dow,
        execution_hour: hour,
        execution_minute: min,
    }
}

#[test]
fn due_when_every_set_field_matches() {
    let now = now_at(6, 15, 24, Weekday::Sat, 7, 10, 30);
    let mut t = bare("t");
    assert!(should_execute_at(&t, &now));
    t.hour = Some(10);
    t.minute = Some(30);
    t.day_of_week = Some(7);
    assert!(should_execute_at(&t, &now));
    t.minute = Some(31);
    assert!(!should_execute_at(&t, &now));
}

#[test]
fn daily_task_missed_when_logged_another_day() {
    let now = now_at(6, 15, 24, Weekday::Sat, 7, 10, 30);
    let mut t = bare("t");
    t.hour = Some(8);
    assert!(is_daily_task_missed_logged_at(&t, &log_for("t", 6, 14, 24, 6, 8, 0), &now));
    assert!(!is_daily_task_missed_logged_at(&t, &log_for("t", 6, 15, 24, 7, 8, 0), &now));
    t.month = Some(6);
    assert!(!is_daily_task_missed_logged_at(&t, &log_for("t", 6, 14, 24, 6, 8, 0), &now));
}

#[test]
fn daily_task_not_missed_before_its_hour() {
    let now = now_at(6, 15, 24, Weekday::Sat, 7, 0, 5);
    let mut t = bare("late");
    t.hour = Some(23);
    assert!(!is_daily_task_missed_logged_at(&t, &log_for("late", 6, 14, 24, 6, 23, 0), &now));
    let later = now_at(6, 15, 24, Weekday::Sat, 7, 23, 5);
    assert!(is_daily_task_missed_logged_at(&t, &log_for("late", 6, 14, 24, 6, 23, 0), &later));
}

#[test]
fn executed_in_the_current_period() {
    let now = now_at(6, 15, 24, Weekday::Sat, 7, 10, 30);
    let mut t = bare("t");
    t.hour = Some(10);
    assert!(was_task_executed_at(&t, &log_for("t", 6, 15, 24, 7, 10, 0), &now));
    assert!(!was_task_executed_at(&t, &log_for("t", 6, 14, 24, 6, 10, 0), &now));
    let mut m = bare("m");
    m.month = Some(6);
    assert!(was_task_executed_at(&m, &log_for("m", 6, 1, 22, 1, 0, 0), &now));
}

#[test]
fn wait_terms_follow_each_rule() {
    let now = now_at(6, 15, 24, Weekday::Wed, 4, 10, 30);
    let mut t = bare("t");
    t.month = Some(8);
    assert_eq!(task_wait_at(&t, &now), 2 * 2_628_000);
    t.month = Some(2);
    assert_eq!(task_wait_at(&t, &now), 8 * 2_628_000);
    let mut d = bare("d");
    d.day_of_month = Some(20);
    assert_eq!(task_wait_at(&d, &now), 20 * 86_400);
    d.day_of_month = Some(10);
    assert_eq!(task_wait_at(&d, &now), 24 * 86_400);
    let mut w = bare("w");
    w.day_of_week = Some(6);
    assert_eq!(task_wait_at(&w, &now), 2 * 86_400);
    w.day_of_week = Some(2);
    assert_eq!(task_wait_at(&w, &now), 5 * 86_400);
    let mut h = bare("h");
    h.hour = Some(12);
    assert_eq!(task_wait_at(&h, &now), 2 * 3_600);
    h.hour = Some(9);
    assert_eq!(task_wait_at(&h, &now), 23 * 36_000);
    let mut m = bare("m");
    m.minute = Some(45);
    assert_eq!(task_wait_at(&m, &now), 15 * 60);
    m.minute = Some(0);
    assert_eq!(task_wait_at(&m, &now), 30 * 60);
}

#[test]
fn sleep_is_capped_at_an_hour_and_never_zero() {
    let now = now_at(6, 15, 24, Weekday::Wed, 4, 10, 30);
    assert_eq!(time_until_next_task_at(&vec![], &now), 3_600);
    let mut soon = bare("soon");
    soon.minute = Some(45);
    let mut later = bare("later");
    later.hour = Some(12);
    assert_eq!(time_until_next_task_at(&vec![later.clone(), soon.clone()], &now), 15 * 60);
    assert_eq!(time_until_next_task_at(&vec![later], &now), 3_600);
    let mut now_task = bare("now");
    now_task.minute = Some(30);
    assert_eq!(time_until_next_task_at(&vec![now_task], &now), 60);
}

#[test]
fn negative_wait_sleeps_a_minute() {
    // On the 31st the 29-day month estimate gives a negative wait.
    let now = now_at(1, 31, 5, Weekday::Wed, 3, 10, 30);
    let mut t = bare("first");
    t.day_of_month = Some(1);
    assert_eq!(task_wait_at(&t, &now), -86_400);
    assert_eq!(time_until_next_task_at(&vec![t], &now), 60);
}

#[test]
fn filter_without_logs_takes_each_due_task_once() {
    let now = now_at(6, 15, 24, Weekday::Wed, 4, 10, 30);
    let a = bare("a");
    let mut b = bare("b");
    b.hour = Some(11);
    let run = filter_table_at(&vec![a.clone(), b, a.clone()], &None, &now);
    assert_eq!(run, vec![a]);
}

#[test]
fn filter_with_logs_skips_tasks_already_run() {
    let now = now_at(6, 15, 24, Weekday::Wed, 4, 10, 30);
    let mut ran = bare("ran");
    ran.hour = Some(10);
    ran.minute = Some(30);
    let mut fresh = bare("fresh");
    fresh.minute = Some(30);
    let mut missed = bare("missed");
    missed.hour = Some(3);
    let logs = vec![
        log_for("ran", 6, 15, 24, 4, 10, 30),
        log_for("missed", 6, 14, 24, 3, 3, 0),
    ];
    let run = filter_table_at(&vec![ran, fresh.clone(), missed.clone()], &Some(logs), &now);
    assert_eq!(run, vec![fresh, missed]);
}

#[test]
fn cycle_plans_tasks_and_sleep() {
    let now = now_at(6, 15, 24, Weekday::Wed, 4, 10, 30);
    let mut t = bare("t");
    t.minute = Some(30);
    let (run, sleep) = next_cycle_at(&get_tasks_table(vec![t.clone()]), &None, &now);
    assert_eq!(run, vec![t]);
    assert_eq!(sleep, 60);
    assert!(get_tasks_table(vec![]).is_none());
}

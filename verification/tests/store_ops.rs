use rtask::model::Task;
use rtask::tasks::{
    add_task_at, complete_task, complete_task_at, count_with_status, find_task_index, list_tasks,
    remove_task, today_tasks, today_tasks_on, update_task_progress_at, TaskError,
};

fn add(tasks: &mut Vec<Task>, name: &str, priority: &str, due: Option<&str>, tags: Option<&str>) {
    let r = add_task_at(
        tasks,
        name.to_string(),
        priority.to_string(),
        due.map(|d| d.to_string()),
        tags.map(|t| t.to_string()),
        "2024-01-01 10:00",
    );
    assert!(r.is_ok());
}

#[test]
fn add_assigns_dense_ids_and_defaults() {
    let mut tasks: Vec<Task> = Vec::new();
    add(&mut tasks, "write report", "HIGH", None, None);
    add(&mut tasks, "buy milk", "MeDiUm", None, None);
    assert_eq!(tasks.len(), 2);
    assert_eq!(tasks[0].id, 1);
    assert_eq!(tasks[1].id, 2);
    assert_eq!(tasks[0].name, "write report");
    assert_eq!(tasks[0].priority, "high");
    assert_eq!(tasks[1].priority, "medium");
    assert_eq!(tasks[0].status, "pending");
    assert_eq!(tasks[0].progress, 0);
    assert_eq!(tasks[0].due_date, None);
    assert!(tasks[0].tags.is_empty());
    assert_eq!(tasks[0].created_at, "2024-01-01 10:00");
    assert_eq!(tasks[0].completed_at, None);
    assert!(tasks[0].subtasks.is_empty());
}

#[test]
fn add_with_invalid_due_date_leaves_store_unchanged() {
    let mut tasks: Vec<Task> = Vec::new();
    add(&mut tasks, "a", "low", None, None);
    let r = add_task_at(
        &mut tasks,
        "b".to_string(),
        "low".to_string(),
        Some("2099-13-40".to_string()),
        None,
        "2024-01-01 10:00",
    );
    assert_eq!(r, Err(TaskError::InvalidDueDate));
    assert_eq!(tasks.len(), 1);
    assert_eq!(tasks[0].name, "a");
}

#[test]
fn add_with_valid_due_date_keeps_it() {
    let mut tasks: Vec<Task> = Vec::new();
    add(&mut tasks, "a", "low", Some("2099-12-31"), None);
    add(&mut tasks, "b", "low", Some("2024-02-29"), None);
    assert_eq!(tasks.len(), 2);
    assert_eq!(tasks[0].due_date, Some("2099-12-31".to_string()));
    assert_eq!(tasks[1].due_date, Some("2024-02-29".to_string()));
}

#[test]
fn add_rejects_dates_in_other_shapes() {
    let mut tasks: Vec<Task> = Vec::new();
    for bad in ["2023-02-29", "31-12-2099", "not a date"] {
        let r = add_task_at(
            &mut tasks,
            "a".to_string(),
            "low".to_string(),
            Some(bad.to_string()),
            None,
            "t",
        );
        assert_eq!(r, Err(TaskError::InvalidDueDate));
    }
    assert!(tasks.is_empty());
}

#[test]
fn add_splits_and_trims_tags() {
    let mut tasks: Vec<Task> = Vec::new();
    add(&mut tasks, "a", "low", None, Some(" work , , home "));
    assert_eq!(tasks[0].tags, vec!["work".to_string(), "home".to_string()]);
}

#[test]
fn add_without_tags_gives_no_tags() {
    let mut tasks: Vec<Task> = Vec::new();
    add(&mut tasks, "a", "low", None, Some(""));
    assert!(tasks[0].tags.is_empty());
}

#[test]
fn remove_renumbers_densely_in_order() {
    let mut tasks: Vec<Task> = Vec::new();
    add(&mut tasks, "a", "low", None, None);
    add(&mut tasks, "b", "low", None, None);
    add(&mut tasks, "c", "low", None, None);
    let r = remove_task(&mut tasks, 2);
    assert_eq!(r, Ok("b".to_string()));
    assert_eq!(tasks.len(), 2);
    let ids: Vec<usize> = tasks.iter().map(|t| t.id).collect();
    assert_eq!(ids, vec![1, 2]);
    let names: Vec<&str> = tasks.iter().map(|t| t.name.as_str()).collect();
    assert_eq!(names, vec!["a", "c"]);
}

#[test]
fn remove_unknown_id_is_not_found() {
    let mut tasks: Vec<Task> = Vec::new();
    add(&mut tasks, "a", "low", None, None);
    let r = remove_task(&mut tasks, 9);
    assert_eq!(r, Err(TaskError::NotFound));
    assert_eq!(tasks.len(), 1);
}

#[test]
fn complete_forces_subtasks_and_full_progress() {
    let mut tasks: Vec<Task> = Vec::new();
    add(&mut tasks, "a", "low", None, None);
    rtask::subtasks::add_subtask(&mut tasks, 1, "s1".to_string()).unwrap();
    rtask::subtasks::add_subtask(&mut tasks, 1, "s2".to_string()).unwrap();
    let r = complete_task_at(&mut tasks, 1, "2024-02-02 08:30");
    assert_eq!(r, Ok(()));
    assert_eq!(tasks[0].status, "done");
    assert_eq!(tasks[0].progress, 100);
    assert_eq!(tasks[0].completed_at, Some("2024-02-02 08:30".to_string()));
    assert!(tasks[0].subtasks.iter().all(|s| s.completed));
    assert_eq!(tasks[0].subtasks.len(), 2);
}

#[test]
fn complete_twice_is_already_done() {
    let mut tasks: Vec<Task> = Vec::new();
    add(&mut tasks, "a", "low", None, None);
    complete_task_at(&mut tasks, 1, "t").unwrap();
    let r = complete_task_at(&mut tasks, 1, "t2");
    assert_eq!(r, Err(TaskError::AlreadyDone));
    assert_eq!(tasks[0].completed_at, Some("t".to_string()));
}

#[test]
fn complete_unknown_id_is_not_found() {
    let mut tasks: Vec<Task> = Vec::new();
    let r = complete_task_at(&mut tasks, 1, "t");
    assert_eq!(r, Err(TaskError::NotFound));
}

#[test]
fn complete_with_clock_records_a_time() {
    let mut tasks: Vec<Task> = Vec::new();
    add(&mut tasks, "a", "low", None, None);
    let r = complete_task(&mut tasks, 1);
    assert_eq!(r, Ok(()));
    assert_eq!(tasks[0].status, "done");
    assert!(tasks[0].completed_at.is_some());
}

#[test]
fn progress_150_clamps_to_100_and_completes() {
    let mut tasks: Vec<Task> = Vec::new();
    add(&mut tasks, "a", "low", None, None);
    rtask::subtasks::add_subtask(&mut tasks, 1, "s1".to_string()).unwrap();
    let r = update_task_progress_at(&mut tasks, 1, 150, "2024-03-03 07:00");
    assert_eq!(r, Ok(100));
    assert_eq!(tasks[0].progress, 100);
    assert_eq!(tasks[0].status, "done");
    assert_eq!(tasks[0].completed_at, Some("2024-03-03 07:00".to_string()));
    assert!(tasks[0].subtasks[0].completed);
}

#[test]
fn progress_below_100_stays_pending() {
    let mut tasks: Vec<Task> = Vec::new();
    add(&mut tasks, "a", "low", None, None);
    let r = update_task_progress_at(&mut tasks, 1, 40, "t");
    assert_eq!(r, Ok(40));
    assert_eq!(tasks[0].progress, 40);
    assert_eq!(tasks[0].status, "pending");
    assert_eq!(tasks[0].completed_at, None);
}

#[test]
fn progress_on_done_task_is_rejected() {
    let mut tasks: Vec<Task> = Vec::new();
    add(&mut tasks, "a", "low", None, None);
    complete_task_at(&mut tasks, 1, "t").unwrap();
    let r = update_task_progress_at(&mut tasks, 1, 10, "t2");
    assert_eq!(r, Err(TaskError::AlreadyDone));
    assert_eq!(tasks[0].progress, 100);
}

#[test]
fn progress_unknown_id_is_not_found() {
    let mut tasks: Vec<Task> = Vec::new();
    let r = update_task_progress_at(&mut tasks, 3, 10, "t");
    assert_eq!(r, Err(TaskError::NotFound));
}

#[test]
fn list_filters_by_tag_and_status() {
    let mut tasks: Vec<Task> = Vec::new();
    add(&mut tasks, "a", "low", None, Some("work"));
    add(&mut tasks, "b", "low", None, Some("home"));
    add(&mut tasks, "c", "low", None, Some("work"));
    complete_task_at(&mut tasks, 3, "t").unwrap();
    let kept = list_tasks(&tasks, &Some("work".to_string()), false, false);
    assert_eq!(kept.len(), 1);
    assert_eq!(kept[0].name, "a");
}

#[test]
fn list_all_keeps_everything() {
    let mut tasks: Vec<Task> = Vec::new();
    add(&mut tasks, "a", "low", None, None);
    add(&mut tasks, "b", "low", None, None);
    complete_task_at(&mut tasks, 1, "t").unwrap();
    let kept = list_tasks(&tasks, &None, true, false);
    assert_eq!(kept.len(), 2);
}

#[test]
fn list_completed_keeps_only_done() {
    let mut tasks: Vec<Task> = Vec::new();
    add(&mut tasks, "a", "low", None, None);
    add(&mut tasks, "b", "low", None, None);
    complete_task_at(&mut tasks, 2, "t").unwrap();
    let kept = list_tasks(&tasks, &None, false, true);
    assert_eq!(kept.len(), 1);
    assert_eq!(kept[0].name, "b");
}

#[test]
fn list_tag_filter_matches_substrings() {
    let mut tasks: Vec<Task> = Vec::new();
    add(&mut tasks, "a", "low", None, Some("homework"));
    let kept = list_tasks(&tasks, &Some("work".to_string()), false, false);
    assert_eq!(kept.len(), 1);
    let none = list_tasks(&tasks, &Some("Work".to_string()), false, false);
    assert!(none.is_empty());
}

#[test]
fn counts_report_pending_and_done() {
    let mut tasks: Vec<Task> = Vec::new();
    add(&mut tasks, "a", "low", None, None);
    add(&mut tasks, "b", "low", None, None);
    add(&mut tasks, "c", "low", None, None);
    complete_task_at(&mut tasks, 1, "t").unwrap();
    assert_eq!(count_with_status(&tasks, "pending"), 2);
    assert_eq!(count_with_status(&tasks, "done"), 1);
}

#[test]
fn today_filter_matches_exact_date_of_pending_tasks() {
    let mut tasks: Vec<Task> = Vec::new();
    add(&mut tasks, "a", "low", Some("2099-05-01"), None);
    add(&mut tasks, "b", "low", Some("2099-05-02"), None);
    add(&mut tasks, "c", "low", Some("2099-05-01"), None);
    complete_task_at(&mut tasks, 3, "t").unwrap();
    let due = today_tasks_on(&tasks, "2099-05-01");
    assert_eq!(due.len(), 1);
    assert_eq!(due[0].name, "a");
}

#[test]
fn today_with_clock_finds_a_task_due_today() {
    let mut tasks: Vec<Task> = Vec::new();
    let (none_due, today) = today_tasks(&tasks);
    assert!(none_due.is_empty());
    let r = add_task_at(
        &mut tasks,
        "a".to_string(),
        "low".to_string(),
        Some(today.clone()),
        None,
        "t",
    );
    assert!(r.is_ok());
    let (due, _) = today_tasks(&tasks);
    assert_eq!(due.len(), 1);
    assert_eq!(due[0].name, "a");
}

#[test]
fn find_returns_first_match() {
    let mut tasks: Vec<Task> = Vec::new();
    add(&mut tasks, "a", "low", None, None);
    add(&mut tasks, "b", "low", None, None);
    assert_eq!(find_task_index(&tasks, 2), Some(1));
    assert_eq!(find_task_index(&tasks, 5), None);
}

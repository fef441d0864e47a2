use rtask::model::Task;
use rtask::subtasks::{add_subtask, remove_subtask, toggle_subtask, toggle_subtask_at};
use rtask::tasks::{add_task_at, TaskError};

fn one_task(name: &str) -> Vec<Task> {
    let mut tasks: Vec<Task> = Vec::new();
    let r = add_task_at(
        &mut tasks,
        name.to_string(),
        "medium".to_string(),
        None,
        None,
        "2024-01-01 10:00",
    );
    assert!(r.is_ok());
    tasks
}

#[test]
fn add_subtask_appends_uncompleted() {
    let mut tasks = one_task("a");
    let r = add_subtask(&mut tasks, 1, "s1".to_string());
    assert_eq!(r, Ok(()));
    assert_eq!(tasks[0].subtasks.len(), 1);
    assert_eq!(tasks[0].subtasks[0].name, "s1");
    assert!(!tasks[0].subtasks[0].completed);
    assert_eq!(tasks[0].progress, 0);
}

#[test]
fn add_subtask_unknown_task_is_not_found() {
    let mut tasks = one_task("a");
    let r = add_subtask(&mut tasks, 2, "s1".to_string());
    assert_eq!(r, Err(TaskError::NotFound));
    assert!(tasks[0].subtasks.is_empty());
}

#[test]
fn toggling_both_subtasks_completes_without_forcing() {
    let mut tasks = one_task("a");
    add_subtask(&mut tasks, 1, "s1".to_string()).unwrap();
    add_subtask(&mut tasks, 1, "s2".to_string()).unwrap();

    let r = toggle_subtask_at(&mut tasks, 1, 0, "2024-04-04 12:00");
    assert_eq!(r, Ok(true));
    assert_eq!(tasks[0].progress, 50);
    assert_eq!(tasks[0].status, "pending");
    assert_eq!(tasks[0].completed_at, None);

    let r = toggle_subtask_at(&mut tasks, 1, 1, "2024-04-04 12:30");
    assert_eq!(r, Ok(true));
    assert_eq!(tasks[0].progress, 100);
    assert_eq!(tasks[0].status, "done");
    assert_eq!(tasks[0].completed_at, Some("2024-04-04 12:30".to_string()));
    assert!(tasks[0].subtasks[0].completed);
    assert!(tasks[0].subtasks[1].completed);
}

#[test]
fn toggle_back_lowers_progress_but_keeps_done() {
    let mut tasks = one_task("a");
    add_subtask(&mut tasks, 1, "s1".to_string()).unwrap();
    add_subtask(&mut tasks, 1, "s2".to_string()).unwrap();
    toggle_subtask_at(&mut tasks, 1, 0, "t").unwrap();
    toggle_subtask_at(&mut tasks, 1, 1, "t").unwrap();
    assert_eq!(tasks[0].status, "done");

    let r = toggle_subtask_at(&mut tasks, 1, 0, "t2");
    assert_eq!(r, Ok(false));
    assert_eq!(tasks[0].progress, 50);
    assert_eq!(tasks[0].status, "done");
}

#[test]
fn toggle_rounds_ratio_down() {
    let mut tasks = one_task("a");
    add_subtask(&mut tasks, 1, "s1".to_string()).unwrap();
    add_subtask(&mut tasks, 1, "s2".to_string()).unwrap();
    add_subtask(&mut tasks, 1, "s3".to_string()).unwrap();
    toggle_subtask_at(&mut tasks, 1, 1, "t").unwrap();
    assert_eq!(tasks[0].progress, 33);
}

#[test]
fn toggle_out_of_range_is_subtask_not_found() {
    let mut tasks = one_task("a");
    add_subtask(&mut tasks, 1, "s1".to_string()).unwrap();
    let r = toggle_subtask_at(&mut tasks, 1, 1, "t");
    assert_eq!(r, Err(TaskError::SubtaskNotFound));
    assert!(!tasks[0].subtasks[0].completed);
    assert_eq!(tasks[0].progress, 0);
}

#[test]
fn toggle_unknown_task_is_not_found() {
    let mut tasks = one_task("a");
    let r = toggle_subtask_at(&mut tasks, 4, 0, "t");
    assert_eq!(r, Err(TaskError::NotFound));
}

#[test]
fn toggle_with_clock_flips_the_flag() {
    let mut tasks = one_task("a");
    add_subtask(&mut tasks, 1, "s1".to_string()).unwrap();
    add_subtask(&mut tasks, 1, "s2".to_string()).unwrap();
    let r = toggle_subtask(&mut tasks, 1, 0);
    assert_eq!(r, Ok(true));
    assert!(tasks[0].subtasks[0].completed);
    assert_eq!(tasks[0].progress, 50);
}

#[test]
fn remove_subtask_shifts_and_recomputes_progress() {
    let mut tasks = one_task("a");
    add_subtask(&mut tasks, 1, "s1".to_string()).unwrap();
    add_subtask(&mut tasks, 1, "s2".to_string()).unwrap();
    toggle_subtask_at(&mut tasks, 1, 0, "t").unwrap();
    assert_eq!(tasks[0].progress, 50);

    let r = remove_subtask(&mut tasks, 1, 1);
    assert_eq!(r, Ok("s2".to_string()));
    assert_eq!(tasks[0].subtasks.len(), 1);
    assert_eq!(tasks[0].subtasks[0].name, "s1");
    assert_eq!(tasks[0].progress, 100);
    assert_eq!(tasks[0].status, "pending");
    assert_eq!(tasks[0].completed_at, None);
}

#[test]
fn remove_last_subtask_keeps_progress() {
    let mut tasks = one_task("a");
    add_subtask(&mut tasks, 1, "s1".to_string()).unwrap();
    toggle_subtask_at(&mut tasks, 1, 0, "t").unwrap();
    assert_eq!(tasks[0].progress, 100);
    let r = remove_subtask(&mut tasks, 1, 0);
    assert_eq!(r, Ok("s1".to_string()));
    assert!(tasks[0].subtasks.is_empty());
    assert_eq!(tasks[0].progress, 100);
}

#[test]
fn remove_subtask_out_of_range_changes_nothing() {
    let mut tasks = one_task("a");
    add_subtask(&mut tasks, 1, "s1".to_string()).unwrap();
    add_subtask(&mut tasks, 1, "s2".to_string()).unwrap();
    let r = remove_subtask(&mut tasks, 1, 5);
    assert_eq!(r, Err(TaskError::SubtaskNotFound));
    assert_eq!(tasks[0].subtasks.len(), 2);
    assert_eq!(tasks[0].subtasks[0].name, "s1");
    assert_eq!(tasks[0].subtasks[1].name, "s2");
}

#[test]
fn remove_subtask_unknown_task_is_not_found() {
    let mut tasks = one_task("a");
    let r = remove_subtask(&mut tasks, 3, 0);
    assert_eq!(r, Err(TaskError::NotFound));
}

use termmenu::tasks::{
    add_task, id_at_index, remove_task, status_color, status_display, status_from_index,
    update_status, StatusColor, Task, TaskStatus,
};

fn task(id: u32, title: &str) -> Task {
    Task::new(id, title.to_string(), format!("about {title}"), TaskStatus::Todo)
}

#[test]
fn add_appends_in_order() {
    let mut tasks: Vec<Task> = Vec::new();
    add_task(&mut tasks, task(1, "one"));
    add_task(&mut tasks, task(2, "two"));
    assert_eq!(tasks.len(), 2);
    assert_eq!(tasks[0].id, 1);
    assert_eq!(tasks[1].id, 2);
    assert_eq!(tasks[1].title, "two");
}

#[test]
fn remove_existing_id_reports_true() {
    let mut tasks = vec![task(1, "one"), task(2, "two"), task(3, "three")];
    let removed = remove_task(&mut tasks, 2);
    assert!(removed);
    assert_eq!(tasks.len(), 2);
    assert_eq!(tasks[0].id, 1);
    assert_eq!(tasks[1].id, 3);
}

#[test]
fn remove_missing_id_reports_false() {
    let mut tasks = vec![task(1, "one"), task(3, "three")];
    let removed = remove_task(&mut tasks, 2);
    assert!(!removed);
    assert_eq!(tasks.len(), 2);
}

#[test]
fn remove_takes_every_task_with_the_id() {
    let mut tasks = vec![task(2, "one"), task(2, "two"), task(5, "five")];
    assert!(remove_task(&mut tasks, 2));
    assert_eq!(tasks.len(), 1);
    assert_eq!(tasks[0].id, 5);
}

#[test]
fn remove_from_empty_store() {
    let mut tasks: Vec<Task> = Vec::new();
    assert!(!remove_task(&mut tasks, 7));
    assert!(tasks.is_empty());
}

#[test]
fn update_changes_first_match_only() {
    let mut tasks = vec![task(1, "one"), task(2, "two"), task(2, "twin")];
    let found = update_status(&mut tasks, 2, TaskStatus::Done);
    assert!(found);
    assert_eq!(tasks[0].status, TaskStatus::Todo);
    assert_eq!(tasks[1].status, TaskStatus::Done);
    assert_eq!(tasks[1].title, "two");
    assert_eq!(tasks[2].status, TaskStatus::Todo);
}

#[test]
fn update_missing_id_reports_false() {
    let mut tasks = vec![task(1, "one")];
    let found = update_status(&mut tasks, 9, TaskStatus::Done);
    assert!(!found);
    assert_eq!(tasks[0].status, TaskStatus::Todo);
}

#[test]
fn status_labels() {
    assert_eq!(status_display(TaskStatus::Todo), "Todo");
    assert_eq!(status_display(TaskStatus::InProgress), "In Progress");
    assert_eq!(status_display(TaskStatus::Done), "Done");
}

#[test]
fn status_colors() {
    assert_eq!(status_color(TaskStatus::Todo), StatusColor::Yellow);
    assert_eq!(status_color(TaskStatus::InProgress), StatusColor::Blue);
    assert_eq!(status_color(TaskStatus::Done), StatusColor::Green);
}

#[test]
fn status_picker_order() {
    assert_eq!(status_from_index(0), TaskStatus::Todo);
    assert_eq!(status_from_index(1), TaskStatus::InProgress);
    assert_eq!(status_from_index(2), TaskStatus::Done);
    assert_eq!(status_from_index(99), TaskStatus::Done);
}

#[test]
fn id_lookup_by_picker_position() {
    let tasks = vec![task(4, "four"), task(9, "nine")];
    assert_eq!(id_at_index(&tasks, 0), Some(4));
    assert_eq!(id_at_index(&tasks, 1), Some(9));
    assert_eq!(id_at_index(&tasks, 2), None);
}

use sacode_cli::task_store::{
    default_next_id, PersistentTask, TaskPriority, TaskStatus, TaskStore, TaskStoreData, TaskStoreError,
};

fn store() -> TaskStore {
    TaskStore::new("/tmp/sacode-tasks")
}

fn data() -> TaskStoreData {
    TaskStoreData { tasks: Vec::new(), next_id: default_next_id() }
}

#[test]
fn task_store_lives_in_project_directory() {
    assert_eq!(store().path(), "/tmp/sacode-tasks/.sacode/tasks.json");
}

#[test]
fn add_assigns_increasing_ids_and_trims() {
    let s = store();
    let mut d = data();
    let a = s.add(&mut d, "  first  ", TaskPriority::Low, "t1").unwrap();
    let b = s.add(&mut d, "second", TaskPriority::High, "t2").unwrap();
    assert_eq!(a.id, 1);
    assert_eq!(a.description, "first");
    assert_eq!(a.status, TaskStatus::Pending);
    assert_eq!(b.id, 2);
    assert_eq!(d.next_id, 3);
    // Higher priority first among pending tasks.
    let ids: Vec<u64> = s.list(&d).iter().map(|t| t.id).collect();
    assert_eq!(ids, vec![2, 1]);
}

#[test]
fn add_refuses_blank_description() {
    let s = store();
    let mut d = data();
    let e = s.add(&mut d, "   ", TaskPriority::Medium, "t").unwrap_err();
    assert_eq!(e, TaskStoreError::EmptyDescription);
    assert_eq!(e.message(), "task description cannot be empty");
    assert!(d.tasks.is_empty());
    assert_eq!(d.next_id, 1);
}

#[test]
fn starting_a_task_sends_the_other_back_to_pending() {
    let s = store();
    let mut d = data();
    s.add(&mut d, "a", TaskPriority::Medium, "t1").unwrap();
    s.add(&mut d, "b", TaskPriority::Medium, "t1").unwrap();
    s.set_status(&mut d, 1, TaskStatus::InProgress, "t2").unwrap();
    s.set_status(&mut d, 2, TaskStatus::InProgress, "t3").unwrap();
    let in_progress: Vec<u64> =
        d.tasks.iter().filter(|t| t.status == TaskStatus::InProgress).map(|t| t.id).collect();
    assert_eq!(in_progress, vec![2]);
    assert_eq!(s.get(&d, 1).unwrap().status, TaskStatus::Pending);
    // The in-progress task sorts first.
    assert_eq!(d.tasks[0].id, 2);
}

#[test]
fn completing_a_task_records_completion_time() {
    let s = store();
    let mut d = data();
    s.add(&mut d, "a", TaskPriority::Medium, "t1").unwrap();
    let t = s.set_status(&mut d, 1, TaskStatus::Completed, "t9").unwrap();
    assert_eq!(t.completed_at.as_deref(), Some("t9"));
    assert_eq!(t.updated_at, "t9");
}

#[test]
fn unknown_task_is_not_found() {
    let s = store();
    let mut d = data();
    let e = s.set_status(&mut d, 42, TaskStatus::Completed, "t").unwrap_err();
    assert_eq!(e, TaskStoreError::NotFound(42));
    assert_eq!(e.message(), "task not found: 42");
    let e = s.update_description(&mut d, 42, "x", "t").unwrap_err();
    assert_eq!(e, TaskStoreError::NotFound(42));
    assert!(s.get(&d, 42).is_none());
}

#[test]
fn update_description_replaces_and_stamps() {
    let s = store();
    let mut d = data();
    s.add(&mut d, "old", TaskPriority::Medium, "t1").unwrap();
    let t = s.update_description(&mut d, 1, " new ", "t2").unwrap();
    assert_eq!(t.description, "new");
    assert_eq!(t.updated_at, "t2");
    assert_eq!(s.get(&d, 1).unwrap().description, "new");
}

#[test]
fn clear_completed_removes_only_completed() {
    let s = store();
    let mut d = data();
    s.add(&mut d, "a", TaskPriority::Medium, "t").unwrap();
    s.add(&mut d, "b", TaskPriority::Medium, "t").unwrap();
    s.add(&mut d, "c", TaskPriority::Medium, "t").unwrap();
    s.set_status(&mut d, 2, TaskStatus::Completed, "t").unwrap();
    assert_eq!(s.clear_completed(&mut d), 1);
    let mut ids: Vec<u64> = d.tasks.iter().map(|t| t.id).collect();
    ids.sort();
    assert_eq!(ids, vec![1, 3]);
    // Ids are never reused.
    assert_eq!(d.next_id, 4);
}

#[test]
fn export_markdown_lists_tasks() {
    let s = store();
    let mut d = data();
    assert_eq!(s.export_markdown(&d), "# Tasks\n\n当前没有持久化任务。");
    s.add(&mut d, "write docs", TaskPriority::High, "2024-01-01").unwrap();
    assert_eq!(s.export_markdown(&d), "# Tasks\n\n- [PENDING] #1 write docs (HIGH, 2024-01-01)");
}

#[test]
fn labels_match_file_format() {
    assert_eq!(TaskStatus::InProgress.label(), "IN_PROGRESS");
    assert_eq!(TaskStatus::Cancelled.label(), "CANCELLED");
    assert_eq!(TaskPriority::Low.label(), "LOW");
    assert_eq!(TaskPriority::default(), TaskPriority::Medium);
}

#[test]
fn loaded_list_with_stale_next_id_gets_fresh_ids() {
    let s = store();
    let mut d = TaskStoreData {
        tasks: vec![PersistentTask {
            id: 7,
            description: "x".to_string(),
            status: TaskStatus::Pending,
            priority: TaskPriority::Medium,
            created_at: "t".to_string(),
            updated_at: "t".to_string(),
            completed_at: None,
            tags: Vec::new(),
            notes: None,
        }],
        next_id: 3,
    };
    sacode_cli::task_store::normalize_tasks(&mut d);
    assert_eq!(d.next_id, 8);
    let t = s.add(&mut d, "y", TaskPriority::Medium, "t").unwrap();
    assert_eq!(t.id, 8);
}

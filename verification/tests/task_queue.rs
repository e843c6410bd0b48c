use faster::queue::{QueueError, TaskQueue, TaskStatus};

fn create_test_queue() -> TaskQueue {
    TaskQueue::new()
}

#[test]
fn test_task_status_conversions() {
    assert_eq!(TaskStatus::Queued.as_str(), "queued");
    assert_eq!(TaskStatus::Running.as_str(), "running");
    assert_eq!(TaskStatus::Completed.as_str(), "completed");
    assert_eq!(TaskStatus::Failed.as_str(), "failed");
    assert_eq!(TaskStatus::Cancelled.as_str(), "cancelled");

    assert_eq!(TaskStatus::from_str("queued"), Some(TaskStatus::Queued));
    assert_eq!(TaskStatus::from_str("running"), Some(TaskStatus::Running));
    assert_eq!(TaskStatus::from_str("invalid"), None);
}

#[test]
fn test_queue_creation() {
    let queue = create_test_queue();
    let tasks = queue.list();
    assert_eq!(tasks.len(), 0);
}

#[test]
fn test_enqueue_and_dequeue() {
    let mut queue = create_test_queue();

    // Enqueue task
    let id = queue.enqueue("Run tests", Some("sonnet".to_string())).unwrap();
    assert_eq!(id.len(), 8);

    // Dequeue task
    let task = queue.dequeue().unwrap();
    assert_eq!(task.command, "Run tests");
    assert_eq!(task.status, TaskStatus::Queued);
    assert_eq!(task.model, Some("sonnet".to_string()));
}

#[test]
fn test_dequeue_empty_queue() {
    let queue = create_test_queue();
    let task = queue.dequeue();
    assert!(task.is_none());
}

#[test]
fn test_dequeue_returns_oldest_queued_task() {
    let mut queue = create_test_queue();

    // Enqueue tasks
    let id1 = queue.enqueue("Task 1", None).unwrap();
    queue.enqueue("Task 2", None).unwrap();
    queue.enqueue("Task 3", None).unwrap();

    // Dequeue returns oldest queued task (doesn't remove it)
    let task = queue.dequeue().unwrap();
    assert_eq!(task.status, TaskStatus::Queued);

    // Dequeue again - returns same task since status wasn't updated
    let task2 = queue.dequeue().unwrap();
    assert_eq!(task.id, task2.id);

    // Mark first task as running
    queue.update_status(&id1, TaskStatus::Running).unwrap();

    // Now dequeue returns the second task
    let task3 = queue.dequeue().unwrap();
    assert_ne!(task3.id, id1);
    assert_eq!(task3.command, "Task 2");
}

#[test]
fn test_update_status_to_running() {
    let mut queue = create_test_queue();
    let id = queue.enqueue("Test task", None).unwrap();

    queue.update_status(&id, TaskStatus::Running).unwrap();

    let task = queue.get(&id).unwrap();
    assert_eq!(task.status, TaskStatus::Running);
    assert!(task.started_at.is_some());
    assert!(!task.started_at.unwrap().is_empty());
    assert!(task.completed_at.is_none());
}

#[test]
fn test_update_status_to_completed() {
    let mut queue = create_test_queue();
    let id = queue.enqueue("Test task", None).unwrap();

    queue.update_status(&id, TaskStatus::Running).unwrap();
    queue.update_status(&id, TaskStatus::Completed).unwrap();

    let task = queue.get(&id).unwrap();
    assert_eq!(task.status, TaskStatus::Completed);
    assert!(task.started_at.is_some());
    assert!(task.completed_at.is_some());
}

#[test]
fn test_fail_task() {
    let mut queue = create_test_queue();
    let id = queue.enqueue("Test task", None).unwrap();

    queue.fail(&id, "Something went wrong").unwrap();

    let task = queue.get(&id).unwrap();
    assert_eq!(task.status, TaskStatus::Failed);
    assert_eq!(task.error, Some("Something went wrong".to_string()));
    assert!(task.completed_at.is_some());
}

#[test]
fn test_list_tasks() {
    let mut queue = create_test_queue();

    queue.enqueue("Task 1", None).unwrap();
    queue.enqueue("Task 2", Some("opus".to_string())).unwrap();

    let tasks = queue.list();
    assert_eq!(tasks.len(), 2);

    // Newest first
    assert_eq!(tasks[0].command, "Task 2");
    assert_eq!(tasks[1].command, "Task 1");
}

#[test]
fn test_get_task_by_id() {
    let mut queue = create_test_queue();
    let id = queue.enqueue("Find me", Some("haiku".to_string())).unwrap();

    let task = queue.get(&id).unwrap();
    assert_eq!(task.id, id);
    assert_eq!(task.command, "Find me");
    assert_eq!(task.model, Some("haiku".to_string()));
}

#[test]
fn test_get_nonexistent_task() {
    let queue = create_test_queue();
    let task = queue.get("nonexistent");
    assert!(task.is_none());
}

#[test]
fn test_clear_completed() {
    let mut queue = create_test_queue();

    let id1 = queue.enqueue("Task 1", None).unwrap();
    let id2 = queue.enqueue("Task 2", None).unwrap();
    let id3 = queue.enqueue("Task 3", None).unwrap();

    queue.update_status(&id1, TaskStatus::Completed).unwrap();
    queue.update_status(&id2, TaskStatus::Cancelled).unwrap();
    // id3 stays queued

    let cleared = queue.clear_completed();
    assert_eq!(cleared, 2);

    let tasks = queue.list();
    assert_eq!(tasks.len(), 1);
    assert_eq!(tasks[0].id, id3);
}

#[test]
fn test_concurrent_operations() {
    // The store hands out exclusive mutable access, so enqueues from
    // several callers are serialized by the borrow checker; ten enqueues
    // make exactly ten rows.
    let mut queue = create_test_queue();

    for i in 0..10 {
        queue.enqueue(&format!("Task {}", i), None).unwrap();
    }

    let tasks = queue.list();
    assert_eq!(tasks.len(), 10);
}

#[test]
fn test_each_enqueued_task_retrievable() {
    let mut queue = create_test_queue();
    let mut ids = Vec::new();
    for i in 0..10 {
        ids.push(queue.enqueue(&format!("Task {}", i), None).unwrap());
    }
    for (i, id) in ids.iter().enumerate() {
        let task = queue.get(id).unwrap();
        assert_eq!(task.command, format!("Task {}", i));
    }
}

#[test]
fn test_update_status_unknown_id() {
    let mut queue = create_test_queue();
    assert_eq!(queue.update_status("missing", TaskStatus::Running), Err(QueueError::NotFound));
}

#[test]
fn test_fail_unknown_id() {
    let mut queue = create_test_queue();
    assert_eq!(queue.fail("missing", "boom"), Err(QueueError::NotFound));
}

#[test]
fn test_cancel_queued_task() {
    let mut queue = create_test_queue();
    let id = queue.enqueue("Task 1", None).unwrap();
    queue.cancel(&id).unwrap();
    let task = queue.get(&id).unwrap();
    assert_eq!(task.status, TaskStatus::Cancelled);
    assert!(task.completed_at.is_none());
}

#[test]
fn test_cancel_running_task_rejected() {
    let mut queue = create_test_queue();
    let id = queue.enqueue("Task 1", None).unwrap();
    queue.update_status(&id, TaskStatus::Running).unwrap();
    assert_eq!(queue.cancel(&id), Err(QueueError::NotQueued));
    let task = queue.get(&id).unwrap();
    assert_eq!(task.status, TaskStatus::Running);
}

#[test]
fn test_cancel_unknown_id() {
    let mut queue = create_test_queue();
    assert_eq!(queue.cancel("missing"), Err(QueueError::NotFound));
}

#[test]
fn test_clear_keeps_failed_tasks() {
    let mut queue = create_test_queue();
    let id1 = queue.enqueue("Task 1", None).unwrap();
    let id2 = queue.enqueue("Task 2", None).unwrap();
    queue.fail(&id1, "boom").unwrap();
    queue.update_status(&id2, TaskStatus::Completed).unwrap();

    let cleared = queue.clear_completed();
    assert_eq!(cleared, 1);
    let tasks = queue.list();
    assert_eq!(tasks.len(), 1);
    assert_eq!(tasks[0].id, id1);
    assert_eq!(tasks[0].status, TaskStatus::Failed);
}

#[test]
fn test_restore_round_trip() {
    let mut queue = create_test_queue();
    queue.enqueue("Task 1", None).unwrap();
    queue.enqueue("Task 2", Some("opus".to_string())).unwrap();

    let snapshot = {
        let mut rows = queue.list();
        rows.reverse();  // back to insertion order
        rows
    };
    let restored = TaskQueue::from_tasks(snapshot).unwrap();
    let tasks = restored.list();
    assert_eq!(tasks.len(), 2);
    assert_eq!(tasks[0].command, "Task 2");
    assert_eq!(tasks[1].command, "Task 1");
}

#[test]
fn test_restore_rejects_duplicate_ids() {
    let mut queue = create_test_queue();
    queue.enqueue_at("Task 1", None, "same-id", "2024-01-01T00:00:00+00:00").unwrap();
    let mut rows = queue.list();
    let copy = rows[0].clone_record();
    rows.push(copy);
    assert!(TaskQueue::from_tasks(rows).is_err());
}

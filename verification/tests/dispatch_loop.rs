use faster::dispatch::ExecOutcome;
use faster::queue::{TaskQueue, TaskStatus};

#[test]
fn test_dispatch_success_scenario() {
    let mut queue = TaskQueue::new();
    let id = queue
        .enqueue_at("run the tests", None, "task0001", "2024-05-01T10:00:00+00:00")
        .unwrap();

    let claimed = queue.start_next_at("2024-05-01T10:00:01+00:00").unwrap();
    assert_eq!(claimed.id, id);
    assert_eq!(claimed.command, "run the tests");
    assert_eq!(claimed.status, TaskStatus::Running);

    queue
        .record_outcome_at(&id, &ExecOutcome::Success, "2024-05-01T10:00:05+00:00")
        .unwrap();

    let task = queue.get(&id).unwrap();
    assert_eq!(task.status, TaskStatus::Completed);
    let started = task.started_at.unwrap();
    let completed = task.completed_at.unwrap();
    assert!(started < completed);
}

#[test]
fn test_dispatch_failure_scenario() {
    let mut queue = TaskQueue::new();
    let id = queue
        .enqueue_at("fix the bug", None, "task0002", "2024-05-01T11:00:00+00:00")
        .unwrap();

    queue.start_next_at("2024-05-01T11:00:01+00:00").unwrap();
    queue
        .record_outcome_at(
            &id,
            &ExecOutcome::Failure("compile error".to_string()),
            "2024-05-01T11:00:09+00:00",
        )
        .unwrap();

    let task = queue.get(&id).unwrap();
    assert_eq!(task.status, TaskStatus::Failed);
    assert_eq!(task.error, Some("compile error".to_string()));
    assert!(task.completed_at.is_some());
}

#[test]
fn test_start_next_with_empty_queue() {
    let mut queue = TaskQueue::new();
    assert!(queue.start_next().is_none());
}

#[test]
fn test_start_next_claims_in_fifo_order() {
    let mut queue = TaskQueue::new();
    let id1 = queue
        .enqueue_at("first", None, "task0003", "2024-05-01T12:00:00+00:00")
        .unwrap();
    let id2 = queue
        .enqueue_at("second", None, "task0004", "2024-05-01T12:00:01+00:00")
        .unwrap();

    let a = queue.start_next().unwrap();
    assert_eq!(a.id, id1);
    let b = queue.start_next().unwrap();
    assert_eq!(b.id, id2);
    assert!(queue.start_next().is_none());
}

#[test]
fn test_record_outcome_unknown_id() {
    let mut queue = TaskQueue::new();
    assert!(queue.record_outcome("missing", &ExecOutcome::Success).is_err());
}

#[test]
fn test_dispatch_with_clock() {
    let mut queue = TaskQueue::new();
    let id = queue.enqueue("run the tests", Some("sonnet".to_string())).unwrap();
    let claimed = queue.start_next().unwrap();
    assert_eq!(claimed.id, id);
    assert_eq!(claimed.model, Some("sonnet".to_string()));
    assert!(!claimed.started_at.unwrap().is_empty());
    queue.record_outcome(&id, &ExecOutcome::Success).unwrap();
    let task = queue.get(&id).unwrap();
    assert_eq!(task.status, TaskStatus::Completed);
    assert!(!task.completed_at.unwrap().is_empty());
}

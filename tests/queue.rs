use chrono::{Duration, NaiveDateTime};
use task_scheduler::{
    Deadline, NaiveTask, Priority, PriorityLevel, SerializationError, Task, TaskNotFound,
    TaskQueue, UpdateTask, FIFO,
};

fn naive(title: &str) -> NaiveTask {
    NaiveTask::new(title.to_string(), 0, 0, PriorityLevel::Normal)
}

#[test]
fn test_new_id() {
    let mut queue = TaskQueue::new();
    for i in 1..=10 {
        let task = Task::new(
            i,
            format!("Task {i}"),
            NaiveDateTime::parse_from_str("01/10/2025 01:00 am", "%m/%d/%Y %M:%H %P")
                .unwrap()
                .and_utc()
                .timestamp_millis(),
            Duration::zero().num_milliseconds(),
            PriorityLevel::Normal,
        );
        queue.add(task);
    }

    {
        let queue1 = queue.clone();
        assert_eq!(queue1.new_id(), 11);
    }

    {
        let mut queue1 = queue.clone();
        queue1.remove(2);
        assert_eq!(queue1.new_id(), 3);
    }

    {
        let mut queue1 = queue.clone();
        queue1.remove(3);
        queue1.remove(6);
        assert_eq!(queue1.new_id(), 4);
    }
}

#[test]
fn additions_number_tasks_from_one() {
    let mut queue = TaskQueue::new();
    assert_eq!(queue.new_id(), 1);
    for count in 1..=5usize {
        let t = queue.add_naive(naive("t"));
        assert_eq!(t.id, count);
        assert!(!t.active);
        assert!(!t.completed);
        assert_eq!(queue.new_id(), count + 1);
    }
    assert_eq!(queue.new_id_completed(), 1);
}

#[test]
fn deleting_least_id_frees_it() {
    let mut queue = TaskQueue::new();
    for _ in 0..4 {
        queue.add_naive(naive("t"));
    }
    assert_eq!(queue.delete(1), Ok(()));
    assert_eq!(queue.new_id(), 1);
    assert_eq!(queue.add_naive(naive("again")).id, 1);
    assert_eq!(queue.new_id(), 5);
}

#[test]
fn deleted_middle_id_is_reused() {
    let mut queue = TaskQueue::new();
    for _ in 0..4 {
        queue.add_naive(naive("t"));
    }
    queue.delete(3).unwrap();
    assert_eq!(queue.new_id(), 3);
}

#[test]
fn deleting_absent_id_fails_and_changes_nothing() {
    let mut queue = TaskQueue::new();
    queue.add_naive(naive("a"));
    queue.add_naive(naive("b"));
    let before = queue.clone();
    assert_eq!(queue.delete(7), Err(TaskNotFound));
    assert_eq!(queue.delete(7), Err(TaskNotFound));
    assert_eq!(queue, before);
    assert_eq!(queue.delete_completed(1), Err(TaskNotFound));
    assert_eq!(queue, before);
}

#[test]
fn update_and_complete_need_an_existing_task() {
    let mut queue = TaskQueue::new();
    queue.add_naive(naive("a"));
    let before = queue.clone();
    let u = UpdateTask::new(9).with_title(Some("x".to_string()));
    assert_eq!(queue.update(u), Err(TaskNotFound));
    assert_eq!(queue.complete(9), Err(TaskNotFound));
    assert_eq!(queue, before);
}

#[test]
fn update_replaces_only_given_fields() {
    let mut queue = TaskQueue::new();
    queue.add_naive(NaiveTask::new("a".to_string(), 100, 200, PriorityLevel::Low));
    let u = UpdateTask::new(1)
        .with_title(Some("b".to_string()))
        .with_duration(Some(50))
        .with_deadline(None)
        .with_priority(Some(PriorityLevel::Urgent));
    assert_eq!(queue.update(u), Ok(()));
    let t = queue.nth(0).unwrap();
    assert_eq!(t.title, "b");
    assert_eq!(t.deadline, 100);
    assert_eq!(t.duration, 50);
    assert_eq!(t.priority, PriorityLevel::Urgent);
    assert_eq!(t.id(), 1);
}

#[test]
fn get_mut_changes_the_task_in_place() {
    let mut queue = TaskQueue::new();
    queue.add_naive(naive("a"));
    queue.add_naive(naive("b"));
    queue.get_mut(2).unwrap().title = "c".to_string();
    assert_eq!(queue.nth(1).unwrap().title, "c");
    assert!(queue.get_mut(3).is_none());
    assert!(queue.get_mut_completed(1).is_none());
}

#[test]
fn snapshot_round_trips() {
    let mut queue = TaskQueue::with_priority(Priority::FIFO(FIFO));
    queue.add_naive(NaiveTask::new("a".to_string(), 5, 6, PriorityLevel::High));
    queue.add_naive(NaiveTask::new("b".to_string(), 7, 8, PriorityLevel::Low));
    queue.add_completed(Task::new(4, "c".to_string(), 1, 2, PriorityLevel::Urgent));
    queue.enabled = true;
    let (tasks, completed, priority, enabled) = queue.snapshot();
    let restored = TaskQueue::restore(tasks, completed, priority, enabled).unwrap();
    assert_eq!(restored, queue);
    assert_eq!(restored.tasks()[1].title, "b");
    assert_eq!(restored.completed_tasks()[0].id, 4);
    assert_eq!(restored.priority(), Priority::FIFO(FIFO));
    assert!(restored.is_enabled());
}

#[test]
fn restore_rejects_repeated_or_zero_ids() {
    let t = |id| Task::new(id, "t".to_string(), 0, 0, PriorityLevel::Normal);
    let p = Priority::Deadline(Deadline);
    assert!(matches!(
        TaskQueue::restore(vec![t(1), t(1)], vec![], p, false),
        Err(SerializationError)
    ));
    assert!(matches!(
        TaskQueue::restore(vec![], vec![t(0)], p, false),
        Err(SerializationError)
    ));
    assert!(TaskQueue::restore(vec![t(2), t(1)], vec![t(1)], p, false).is_ok());
}

#[test]
fn iterators_walk_in_order() {
    let mut queue = TaskQueue::new();
    queue.add_naive(naive("a"));
    queue.add_naive(naive("b"));
    queue.add_completed(Task::new(3, "c".to_string(), 0, 0, PriorityLevel::Low));
    let mut it = queue.iter();
    assert_eq!(it.next().unwrap().title, "a");
    assert_eq!(it.next().unwrap().title, "b");
    assert!(it.next().is_none());
    let mut itc = queue.iter_completed();
    assert_eq!(itc.next().unwrap().id, 3);
    assert!(itc.next().is_none());
    assert!(!queue.is_empty());
    assert!(TaskQueue::default().is_empty());
}

#[test]
fn remove_and_nth_by_position() {
    let mut queue = TaskQueue::new();
    queue.add_naive(naive("a"));
    queue.add_completed(Task::new(1, "c".to_string(), 0, 0, PriorityLevel::Low));
    assert!(queue.nth(1).is_none());
    assert_eq!(queue.nth_completed(0).unwrap().title, "c");
    assert!(queue.remove(1).is_none());
    assert_eq!(queue.remove(0).unwrap().title, "a");
    assert_eq!(queue.remove_completed(0).unwrap().title, "c");
    assert!(queue.remove_completed(0).is_none());
    assert!(queue.is_empty());
}

#[test]
fn strategy_swap_keeps_tasks() {
    let mut queue = TaskQueue::new();
    assert_eq!(queue.show_priority(), "Deadline");
    queue.add_naive(naive("a"));
    let tasks_before = queue.tasks().to_vec();
    queue.set_priority(Priority::FIFO(FIFO));
    assert_eq!(queue.show_priority(), "FIFO");
    assert_eq!(queue.tasks().to_vec(), tasks_before);
}

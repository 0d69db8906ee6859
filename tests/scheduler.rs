use task_scheduler::{
    rejection_reply, Action, IOError, NaiveTask, Phase, Priority, PriorityLevel, SchedulerConfig,
    SchedulerState, SerializationError, TaskNotFound, TaskQueue, TickOutcome, FIFO,
};

const SECOND: i64 = 1_000;

fn queue_with(duration: i64) -> TaskQueue {
    let mut queue = TaskQueue::with_priority(Priority::FIFO(FIFO));
    queue.add_naive(NaiveTask::new("work".to_string(), 0, duration, PriorityLevel::Normal));
    queue
}

fn config(scheduler_timeout: usize, write_timeout: usize) -> SchedulerConfig {
    SchedulerConfig { data_path: "tasks.json".to_string(), write_timeout, scheduler_timeout }
}

#[test]
fn two_ticks_of_five_seconds_finish_ten() {
    let mut queue = queue_with(10 * SECOND);
    queue.enabled = true;
    assert_eq!(
        queue.tick(5 * SECOND, 0),
        TickOutcome::Advanced { id: 1, remaining: 5 * SECOND }
    );
    assert!(queue.tasks()[0].active);
    assert_eq!(queue.tick(5 * SECOND, 0), TickOutcome::Advanced { id: 1, remaining: 0 });
    assert_eq!(queue.tasks()[0].duration, 0);
    assert_eq!(queue.tick(5 * SECOND, 0), TickOutcome::Short { id: 1, remaining: 0 });
    assert_eq!(queue.tasks()[0].duration, 0);
}

#[test]
fn short_task_is_left_as_it_is() {
    let mut queue = queue_with(3 * SECOND);
    queue.enabled = true;
    assert_eq!(
        queue.tick(5 * SECOND, 0),
        TickOutcome::Short { id: 1, remaining: 3 * SECOND }
    );
    assert_eq!(queue.tasks()[0].duration, 3 * SECOND);
}

#[test]
fn disabled_queue_does_not_change() {
    let mut queue = queue_with(10 * SECOND);
    queue.complete(1).unwrap();
    queue.add_naive(NaiveTask::new("more".to_string(), 0, SECOND, PriorityLevel::Low));
    let before = queue.clone();
    for _ in 0..5 {
        assert_eq!(queue.tick(5 * SECOND, 0), TickOutcome::Paused);
    }
    assert_eq!(queue, before);
}

#[test]
fn flagged_task_is_archived_at_next_tick() {
    let mut queue = TaskQueue::with_priority(Priority::FIFO(FIFO));
    for title in ["a", "b", "c"] {
        queue.add_naive(NaiveTask::new(title.to_string(), 0, 10 * SECOND, PriorityLevel::Normal));
    }
    queue.add_completed(task_scheduler::Task::new(1, "old".to_string(), 0, 0, PriorityLevel::Low));
    queue.enabled = true;
    queue.complete(2).unwrap();
    assert_eq!(queue.tasks().len(), 3);
    assert_eq!(queue.tick(SECOND, 0), TickOutcome::Advanced { id: 1, remaining: 9 * SECOND });
    let pending: Vec<usize> = queue.tasks().iter().map(|t| t.id).collect();
    assert_eq!(pending, vec![1, 3]);
    let archived = &queue.completed_tasks()[1];
    assert_eq!(archived.title, "b");
    assert_eq!(archived.id, 2);
    assert!(archived.completed);
    assert!(!archived.active);
    assert_eq!(archived.duration, 10 * SECOND);
}

#[test]
fn flagged_chosen_task_is_archived_before_choosing() {
    let mut queue = queue_with(10 * SECOND);
    queue.add_naive(NaiveTask::new("next".to_string(), 0, 4 * SECOND, PriorityLevel::Normal));
    queue.enabled = true;
    assert_eq!(queue.tick(SECOND, 0), TickOutcome::Advanced { id: 1, remaining: 9 * SECOND });
    queue.complete(1).unwrap();
    assert_eq!(queue.tick(SECOND, 0), TickOutcome::Advanced { id: 2, remaining: 3 * SECOND });
    assert_eq!(queue.completed_tasks()[0].id, 1);
    assert_eq!(queue.completed_tasks()[0].duration, 9 * SECOND);
    assert!(queue.tasks()[0].active);
    queue.complete(2).unwrap();
    assert_eq!(queue.tick(SECOND, 0), TickOutcome::Idle);
    assert_eq!(queue.completed_tasks()[1].id, 2);
    assert!(queue.tasks().is_empty());
}

#[test]
fn loop_ticks_saves_and_stops() {
    let mut state = SchedulerState::new(&config(5_000, 1)).ok().unwrap();
    assert!(state.is_running());
    let mut queue = queue_with(20 * SECOND);
    queue.enabled = true;
    let (action, outcome) = state.step(&mut queue, false, 5_000, 0);
    assert_eq!(action, Action::Sleep);
    assert_eq!(outcome, TickOutcome::Advanced { id: 1, remaining: 15 * SECOND });
    let (action, _) = state.step(&mut queue, false, 60_000, 0);
    assert_eq!(action, Action::SaveThenSleep);
    let (action, _) = state.step(&mut queue, false, 65_000, 0);
    assert_eq!(action, Action::Sleep);
    let (action, outcome) = state.step(&mut queue, true, 70_000, 0);
    assert_eq!((action, outcome), (Action::SaveThenExit, TickOutcome::Paused));
    assert!(!queue.is_enabled());
    assert!(!state.is_running());
    assert_eq!(queue.tasks()[0].duration, 5 * SECOND);
    let (action, _) = state.step(&mut queue, false, 75_000, 0);
    assert_eq!(action, Action::Exit);
    assert_eq!(Phase::Running, Phase::Running);
}

#[test]
fn configuration_out_of_range_is_refused() {
    match SchedulerState::new(&config(usize::MAX, 1)) {
        Err(e) => assert_eq!(e.0, "invalid scheduler configuration"),
        Ok(_) => panic!("accepted a tick that does not fit"),
    }
    assert!(SchedulerState::new(&config(1, usize::MAX)).is_err());
    assert!(SchedulerState::new(&config(0, 0)).is_ok());
}

#[test]
fn rejection_replies() {
    assert_eq!(rejection_reply(true, true, true), ("An IO error occurred on the server", 500));
    assert_eq!(
        rejection_reply(false, true, true),
        ("A serialization error occurred on the server", 500)
    );
    assert_eq!(rejection_reply(false, false, true), ("The specified task doesn't exist", 404));
    assert_eq!(rejection_reply(false, false, false), ("An unknown error occurred. Sorry!", 500));
    assert_eq!(IOError.message(), "Error retrieving lock for data");
    assert_eq!(SerializationError.message(), "Unable to serialize data");
    assert_eq!(TaskNotFound.message(), "The requested task does not exist");
}

use chrono::Duration;
use task_scheduler::{
    Deadline, HighestPriority, Longest, LowestPriority, NaiveTask, Priority, PriorityLevel,
    Shortest, ShortestWithUrgency, Task, TaskQueue, FIFO,
};

const HOUR: i64 = 3_600_000;
const MINUTE: i64 = 60_000;

fn local_now() -> i64 {
    chrono::Local::now().naive_local().and_utc().timestamp_millis()
}

fn task(id: usize, title: &str, deadline: i64, duration: i64, priority: PriorityLevel) -> Task {
    Task::new(id, title.to_string(), deadline, duration, priority)
}

#[test]
fn test_shortest_urgency() {
    let mut queue =
        TaskQueue::with_priority(Priority::ShortestWithUrgency(ShortestWithUrgency::new(1, 1)));

    let now = local_now();

    let task1 = task(
        1,
        "task 1",
        now + Duration::hours(2).num_milliseconds(),
        Duration::minutes(30).num_milliseconds(),
        PriorityLevel::Urgent,
    );
    let task2 = task(
        2,
        "task 2",
        now + Duration::hours(8).num_milliseconds(),
        Duration::hours(4).num_milliseconds(),
        PriorityLevel::Urgent,
    );
    let task3 = task(
        3,
        "task 3",
        now - Duration::hours(1).num_milliseconds(),
        Duration::minutes(10).num_milliseconds(),
        PriorityLevel::Urgent,
    );

    queue.add(task1.clone());
    queue.add(task2.clone());
    queue.add(task3.clone());

    assert_eq!(queue.select().unwrap().id, task3.id);
    queue.delete(queue.select().unwrap().id).unwrap();
    assert_eq!(queue.select().unwrap().id, task1.id);
    queue.delete(queue.select().unwrap().id).unwrap();
    assert_eq!(queue.select().unwrap().id, task2.id);
    queue.delete(queue.select().unwrap().id).unwrap();

    drop(queue);
}

#[test]
fn test_shortest_urgency_tie() {
    let mut queue =
        TaskQueue::with_priority(Priority::ShortestWithUrgency(ShortestWithUrgency::new(1, 1)));

    let now = local_now();

    let task1 = task(
        1,
        "task 1",
        now + Duration::hours(4).num_milliseconds(),
        Duration::hours(4).num_milliseconds(),
        PriorityLevel::High,
    );
    let task2 = task(
        2,
        "task 2",
        now + Duration::hours(8).num_milliseconds(),
        Duration::hours(8).num_milliseconds(),
        PriorityLevel::Low,
    );

    queue.add(task1.clone());
    queue.add(task2.clone());

    assert_eq!(queue.select().unwrap().id, task1.id);
    queue.delete(queue.select().unwrap().id).unwrap();
    assert_eq!(queue.select().unwrap().id, task2.id);
    queue.delete(queue.select().unwrap().id).unwrap();
}

#[test]
fn urgency_scores_at_a_fixed_time() {
    let t = 1_000 * HOUR;
    let strategy = ShortestWithUrgency::new(1, 1);
    let tasks = vec![
        task(1, "task 1", t + 2 * HOUR, 30 * MINUTE, PriorityLevel::Normal),
        task(2, "task 2", t + 8 * HOUR, 4 * HOUR, PriorityLevel::Normal),
        task(3, "task 3", t - HOUR, 10 * MINUTE, PriorityLevel::Normal),
    ];
    assert_eq!(strategy.select_at(&tasks, t).unwrap().id, 3);
    assert_eq!(strategy.select_at(&tasks[..2], t).unwrap().id, 1);
    assert_eq!(strategy.select_at(&tasks[1..2], t).unwrap().id, 2);
    assert!(strategy.select_at(&[], t).is_none());
}

#[test]
fn urgency_ties_go_to_urgency_then_id() {
    let t = 0;
    let strategy = Priority::ShortestWithUrgency(ShortestWithUrgency::new(1, 1));
    // Both tasks score 3600 - 3600 = 0.
    let tasks = vec![
        task(5, "a", HOUR, HOUR, PriorityLevel::Low),
        task(4, "b", 2 * HOUR, 2 * HOUR, PriorityLevel::Normal),
        task(7, "c", 3 * HOUR, 3 * HOUR, PriorityLevel::Normal),
    ];
    assert_eq!(strategy.select_index_at(&tasks, t), Some(1));
    let same_level = vec![tasks[2].clone(), tasks[1].clone()];
    assert_eq!(strategy.select_at(&same_level, t).unwrap().id, 4);
}

#[test]
fn urgency_weights_and_rounding() {
    // 7.9 s left until the deadline, weight 2: 7 / 2 = 3; 1.5 s of work counts 1 s.
    let strategy = ShortestWithUrgency::new(2, 3);
    assert_eq!(strategy.deadline_weight(), 2);
    assert_eq!(strategy.duration_weight(), 3);
    let p = Priority::ShortestWithUrgency(strategy);
    let a = task(1, "a", 7_900, 1_500, PriorityLevel::Low); // 3 - 3 = 0
    let b = task(2, "b", -7_900, 0, PriorityLevel::Low); // -3 - 0 = -3
    let c = task(3, "c", 100_000, 40_000, PriorityLevel::Low); // 50 - 120 = -70
    assert_eq!(p.select_index_at(&[a.clone(), b.clone()], 0), Some(1));
    assert_eq!(p.select_index_at(&[a.clone(), b.clone(), c.clone()], 0), Some(2));
    // A negative weight flips the sign of the first term: -3 against 3.
    let q = Priority::ShortestWithUrgency(ShortestWithUrgency::new(-2, 0));
    assert_eq!(q.select_index_at(&[b, a], 0), Some(1));
}

#[test]
fn fifo_skips_completed_tasks() {
    let mut queue = TaskQueue::with_priority(Priority::FIFO(FIFO));
    let a = queue.add_naive(NaiveTask::new("A".to_string(), 0, 0, PriorityLevel::Normal));
    let b = queue.add_naive(NaiveTask::new("B".to_string(), 0, 0, PriorityLevel::Normal));
    let c = queue.add_naive(NaiveTask::new("C".to_string(), 0, 0, PriorityLevel::Normal));
    queue.get_mut(b.id).unwrap().completed = true;
    assert_eq!(queue.select().unwrap().title, "A");
    queue.delete(a.id).unwrap();
    assert_eq!(queue.select().unwrap().title, "C");
    queue.delete(c.id).unwrap();
    assert!(queue.select().is_none());
}

#[test]
fn deadline_picks_earliest() {
    let t = 500 * HOUR;
    let mut queue = TaskQueue::new();
    queue.add(task(1, "in two hours", t + 2 * HOUR, 0, PriorityLevel::Normal));
    queue.add(task(2, "in eight hours", t + 8 * HOUR, 0, PriorityLevel::Normal));
    queue.add(task(3, "an hour ago", t - HOUR, 0, PriorityLevel::Normal));
    assert_eq!(queue.select().unwrap().title, "an hour ago");
    assert_eq!(queue.select_at(t).unwrap().id, 3);
}

#[test]
fn each_strategy_on_the_same_tasks() {
    let tasks = vec![
        task(1, "a", 30, 20, PriorityLevel::Normal),
        task(2, "b", 10, 50, PriorityLevel::Low),
        task(3, "c", 10, 5, PriorityLevel::Urgent),
        task(4, "d", 40, 50, PriorityLevel::Low),
        task(5, "e", 5, 1, PriorityLevel::Urgent),
    ];
    let mut last_done = tasks.clone();
    last_done[4].completed = true;
    assert_eq!(FIFO.select(&tasks).unwrap().id, 1);
    assert_eq!(Deadline.select(&tasks).unwrap().id, 5);
    assert_eq!(Deadline.select(&last_done).unwrap().id, 2);
    assert_eq!(Shortest {}.select(&tasks).unwrap().id, 5);
    assert_eq!(Shortest {}.select(&last_done).unwrap().id, 3);
    // Ties: the first of the least, the last of the greatest.
    assert_eq!(Longest {}.select(&tasks).unwrap().id, 4);
    assert_eq!(HighestPriority {}.select(&tasks).unwrap().id, 3);
    assert_eq!(LowestPriority {}.select(&tasks).unwrap().id, 4);
    let all_done: Vec<Task> = tasks
        .iter()
        .map(|t| {
            let mut t = t.clone();
            t.completed = true;
            t
        })
        .collect();
    assert!(Deadline.select(&all_done).is_none());
    assert!(LowestPriority {}.select(&all_done).is_none());
}

#[test]
fn strategy_names() {
    assert_eq!(FIFO.string(), "FIFO");
    assert_eq!(Deadline.string(), "Deadline");
    assert_eq!(Shortest {}.string(), "Shortest Duration");
    assert_eq!(Longest {}.string(), "Longest Duration");
    assert_eq!(HighestPriority {}.string(), "Highest Priority");
    assert_eq!(LowestPriority {}.string(), "Lowest Priority");
    assert_eq!(
        ShortestWithUrgency::new(1, 1).string(),
        "Shortest Duration with Urgency"
    );
}

#[test]
fn priority_levels_parse_in_any_case() {
    assert_eq!(PriorityLevel::parse("URGENT"), Ok(PriorityLevel::Urgent));
    assert_eq!(PriorityLevel::parse("High"), Ok(PriorityLevel::High));
    assert_eq!("nOrMaL".parse::<PriorityLevel>(), Ok(PriorityLevel::Normal));
    assert_eq!(PriorityLevel::parse("low"), Ok(PriorityLevel::Low));
    assert_eq!(
        PriorityLevel::parse("later"),
        Err("Unknown priority level".to_string())
    );
    assert_eq!(PriorityLevel::from_lowercase("High"), None);
    assert_eq!(PriorityLevel::Urgent.as_str(), "Urgent");
    assert_eq!(PriorityLevel::Low.level(), 3);
}

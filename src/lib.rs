//! A single-process task scheduler: a queue of pending and completed tasks,
//! a swappable rule for choosing the task to work on, and the decisions of a
//! timed loop that advances the chosen task.

pub mod error;
pub mod priority;
pub mod queue;
pub mod scheduler;
pub mod task;

pub use error::{rejection_reply, IOError, SerializationError, ServerError, TaskNotFound};
pub use priority::{
    Deadline, HighestPriority, Longest, LowestPriority, Priority, Shortest, ShortestWithUrgency,
    FIFO,
};
pub use queue::{TaskQueue, TaskQueueIterator, TaskQueueIteratorCompleted, TickOutcome};
pub use scheduler::{Action, Phase, SchedulerConfig, SchedulerState, SchedulingError};
pub use task::{NaiveTask, PriorityLevel, Task, UpdateTask};

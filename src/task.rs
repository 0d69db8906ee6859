use vstd::prelude::*;

verus! {

/// How urgent a task is, from most to least urgent.
#[derive(Debug, Clone, Copy, PartialEq, Eq, Structural, PartialOrd, Ord, Hash)]
pub enum PriorityLevel {
    Urgent,
    High,
    Normal,
    Low,
}

/// The lowercase word that names a level, if `t` is one.
pub open spec fn level_named(t: Seq<char>) -> Option<PriorityLevel> {
    if t == "urgent"@ {
        Some(PriorityLevel::Urgent)
    } else if t == "high"@ {
        Some(PriorityLevel::High)
    } else if t == "normal"@ {
        Some(PriorityLevel::Normal)
    } else if t == "low"@ {
        Some(PriorityLevel::Low)
    } else {
        None
    }
}

/// What `str::to_lowercase` makes of a string.
pub uninterp spec fn lower_of(s: Seq<char>) -> Seq<char>;

/// Relies on `str::to_lowercase`: the lowercase form depends on the characters alone.
#[verifier::external_body]
fn lowercase(s: &str) -> (r: String)
    ensures
        r@ == lower_of(s@),
{
    s.to_lowercase()
}

impl PriorityLevel {
    /// Position in the urgency order: 0 is the most urgent.
    pub open spec fn rank(self) -> int {
        match self {
            PriorityLevel::Urgent => 0,
            PriorityLevel::High => 1,
            PriorityLevel::Normal => 2,
            PriorityLevel::Low => 3,
        }
    }

    /// The name under which a level is shown.
    pub open spec fn name(self) -> Seq<char> {
        match self {
            PriorityLevel::Urgent => "Urgent"@,
            PriorityLevel::High => "High"@,
            PriorityLevel::Normal => "Normal"@,
            PriorityLevel::Low => "Low"@,
        }
    }

    /// Returns the position of this level in the urgency order.
    pub fn level(&self) -> (r: u8)
        ensures
            r as int == self.rank(),
    {
        match self {
            PriorityLevel::Urgent => 0,
            PriorityLevel::High => 1,
            PriorityLevel::Normal => 2,
            PriorityLevel::Low => 3,
        }
    }

    /// Returns the name under which this level is shown.
    pub fn as_str(&self) -> (r: &'static str)
        ensures
            r@ == self.name(),
    {
        match self {
            PriorityLevel::Urgent => "Urgent",
            PriorityLevel::High => "High",
            PriorityLevel::Normal => "Normal",
            PriorityLevel::Low => "Low",
        }
    }

    /// Reads a level from its name already in lowercase.
    pub fn from_lowercase(t: &str) -> (r: Option<PriorityLevel>)
        ensures
            r == level_named(t@),
    {
        let t = t.to_owned();
        if t == "urgent".to_owned() {
            Some(PriorityLevel::Urgent)
        } else if t == "high".to_owned() {
            Some(PriorityLevel::High)
        } else if t == "normal".to_owned() {
            Some(PriorityLevel::Normal)
        } else if t == "low".to_owned() {
            Some(PriorityLevel::Low)
        } else {
            None
        }
    }

    /// Reads a level from its name, in any case.
    pub fn parse(s: &str) -> (r: Result<PriorityLevel, String>)
        ensures
            r is Ok <==> level_named(lower_of(s@)) is Some,
            r matches Ok(l) ==> level_named(lower_of(s@)) == Some(l),
            r matches Err(e) ==> e@ == "Unknown priority level"@,
    {
        let lower = lowercase(s);
        match PriorityLevel::from_lowercase(lower.as_str()) {
            Some(l) => Ok(l),
            None => Err("Unknown priority level".to_owned()),
        }
    }
}

impl std::str::FromStr for PriorityLevel {
    type Err = String;

    fn from_str(s: &str) -> Result<PriorityLevel, String> {
        PriorityLevel::parse(s)
    }
}

/// A unit of work.
///
/// `deadline` is a point in local wall-clock time, in milliseconds since
/// 1970-01-01 00:00; `duration` is the work that remains, in milliseconds.
#[derive(Debug, PartialEq, Eq)]
pub struct Task {
    pub id: usize,
    pub title: String,
    pub deadline: i64,
    pub duration: i64,
    pub priority: PriorityLevel,
    pub active: bool,
    pub completed: bool,
}

impl Clone for Task {
    fn clone(&self) -> (r: Task)
        ensures
            r == *self,
    {
        Task {
            id: self.id,
            title: self.title.clone(),
            deadline: self.deadline,
            duration: self.duration,
            priority: self.priority,
            active: self.active,
            completed: self.completed,
        }
    }
}

/// The task that a naive task becomes under the identifier `id`.
pub open spec fn task_from_naive(task: NaiveTask, id: usize) -> Task {
    Task {
        id,
        title: task.title,
        deadline: task.deadline,
        duration: task.duration,
        priority: task.priority,
        active: false,
        completed: false,
    }
}

impl Task {
    /// Creates a task that is neither active nor completed.
    pub fn new(id: usize, title: String, deadline: i64, duration: i64, priority: PriorityLevel) -> (r:
        Task)
        ensures
            r == (Task { id, title, deadline, duration, priority, active: false, completed: false }),
    {
        Task { id, title, deadline, duration, priority, active: false, completed: false }
    }

    /// Creates a task from a naive task and an identifier.
    pub fn from_naive(task: NaiveTask, id: usize) -> (r: Task)
        ensures
            r == task_from_naive(task, id),
    {
        Task {
            id,
            title: task.title,
            deadline: task.deadline,
            duration: task.duration,
            priority: task.priority,
            active: false,
            completed: false,
        }
    }

    /// Returns the identifier.
    pub fn id(&self) -> (r: usize)
        ensures
            r == self.id,
    {
        self.id
    }
}

/// The fields of a task that a client chooses; the queue gives it an identifier.
#[derive(Debug, PartialEq, Eq)]
pub struct NaiveTask {
    pub title: String,
    pub deadline: i64,
    pub duration: i64,
    pub priority: PriorityLevel,
}

impl Clone for NaiveTask {
    fn clone(&self) -> (r: NaiveTask)
        ensures
            r == *self,
    {
        NaiveTask {
            title: self.title.clone(),
            deadline: self.deadline,
            duration: self.duration,
            priority: self.priority,
        }
    }
}

impl NaiveTask {
    /// Creates a naive task.
    pub fn new(title: String, deadline: i64, duration: i64, priority: PriorityLevel) -> (r:
        NaiveTask)
        ensures
            r == (NaiveTask { title, deadline, duration, priority }),
    {
        NaiveTask { title, deadline, duration, priority }
    }
}

/// A change to the task with identifier `id`: each field that is present
/// replaces the task's own.
#[derive(Debug, Clone, PartialEq, Eq)]
pub struct UpdateTask {
    pub id: usize,
    pub title: Option<String>,
    pub deadline: Option<i64>,
    pub duration: Option<i64>,
    pub priority: Option<PriorityLevel>,
}

/// The task `t` after the fields present in `u` have replaced its own.
pub open spec fn updated(t: Task, u: UpdateTask) -> Task {
    Task {
        title: match u.title {
            Some(x) => x,
            None => t.title,
        },
        deadline: match u.deadline {
            Some(x) => x,
            None => t.deadline,
        },
        duration: match u.duration {
            Some(x) => x,
            None => t.duration,
        },
        priority: match u.priority {
            Some(x) => x,
            None => t.priority,
        },
        ..t
    }
}

impl UpdateTask {
    /// Creates a change for the task `id` that replaces nothing yet.
    pub fn new(id: usize) -> (r: UpdateTask)
        ensures
            r == (UpdateTask { id, title: None, deadline: None, duration: None, priority: None }),
    {
        UpdateTask { id, title: None, deadline: None, duration: None, priority: None }
    }

    /// Sets the title to replace.
    pub fn with_title(self, title: Option<String>) -> (r: UpdateTask)
        ensures
            r == (UpdateTask { title, ..self }),
    {
        UpdateTask { title, ..self }
    }

    /// Sets the deadline to replace.
    pub fn with_deadline(self, deadline: Option<i64>) -> (r: UpdateTask)
        ensures
            r == (UpdateTask { deadline, ..self }),
    {
        UpdateTask { deadline, ..self }
    }

    /// Sets the duration to replace.
    pub fn with_duration(self, duration: Option<i64>) -> (r: UpdateTask)
        ensures
            r == (UpdateTask { duration, ..self }),
    {
        UpdateTask { duration, ..self }
    }

    /// Sets the priority to replace.
    pub fn with_priority(self, priority: Option<PriorityLevel>) -> (r: UpdateTask)
        ensures
            r == (UpdateTask { priority, ..self }),
    {
        UpdateTask { priority, ..self }
    }
}

} // verus!

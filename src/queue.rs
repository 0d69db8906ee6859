use vstd::prelude::*;
use vstd::set_lib::{lemma_int_range, lemma_len_subset, set_int_range};

use crate::error::{SerializationError, TaskNotFound};
use crate::priority::{Deadline, Priority};
use crate::task::{task_from_naive, updated, NaiveTask, Task, UpdateTask};

verus! {

/// Some task of `s` has the identifier `id`.
pub open spec fn holds_id(s: Seq<Task>, id: int) -> bool {
    exists|i: int| 0 <= i < s.len() && s[i].id == id
}

/// The identifiers of `s` are positive and pairwise distinct.
pub open spec fn ids_valid(s: Seq<Task>) -> bool {
    &&& forall|i: int| 0 <= i < s.len() ==> #[trigger] s[i].id >= 1
    &&& forall|i: int, j: int| 0 <= i < j < s.len() ==> s[i].id != s[j].id
}

/// `id` is the lowest positive identifier that no task of `s` holds.
pub open spec fn is_lowest_free(s: Seq<Task>, id: int) -> bool {
    &&& id >= 1
    &&& !holds_id(s, id)
    &&& forall|k: int| 1 <= k < id ==> holds_id(s, k)
}

/// The lowest positive identifier that no task of `s` holds.
pub open spec fn lowest_free(s: Seq<Task>) -> int {
    choose|id: int| is_lowest_free(s, id)
}

/// What a queue holds.
pub struct QueueView {
    /// The tasks that can be chosen, in the order they were added.
    pub pending: Seq<Task>,
    /// The tasks that are done, in the order they were archived.
    pub completed: Seq<Task>,
    /// The strategy that chooses among pending tasks.
    pub priority: Priority,
    /// Whether the scheduler advances tasks.
    pub enabled: bool,
}

/// A queue of tasks whose strategy can be changed on the fly: the strategy
/// does not order the tasks, it chooses among them.
#[derive(Debug, Clone, PartialEq, Eq)]
pub struct TaskQueue {
    tasks: Vec<Task>,
    completed: Vec<Task>,
    priority: Priority,
    pub enabled: bool,
}

impl View for TaskQueue {
    type V = QueueView;

    closed spec fn view(&self) -> QueueView {
        QueueView {
            pending: self.tasks@,
            completed: self.completed@,
            priority: self.priority,
            enabled: self.enabled,
        }
    }
}

/// If the identifiers `1..=n` are all held by tasks of `s`, then `s` has at
/// least `n` tasks.
pub proof fn lemma_held_run_fits(s: Seq<Task>, n: int)
    requires
        n >= 0,
        forall|k: int| 1 <= k <= n ==> holds_id(s, k),
    ensures
        n <= s.len(),
{
    let ids = s.map_values(|t: Task| t.id as int);
    let run = set_int_range(1, n + 1);
    lemma_int_range(1, n + 1);
    assert(run.subset_of(ids.to_set())) by {
        assert forall|k: int| run.contains(k) implies ids.to_set().contains(k) by {
            assert(1 <= k <= n);
            assert(holds_id(s, k));
            let i = choose|i: int| 0 <= i < s.len() && s[i].id == k;
            assert(ids[i] == k);
        }
    }
    ids.lemma_cardinality_of_set();
    vstd::seq_lib::seq_to_set_is_finite(ids);
    lemma_len_subset(run, ids.to_set());
}

/// If every identifier below `k` is held, some identifier from `k` on is
/// the lowest free one.
proof fn lemma_lowest_free_from(s: Seq<Task>, k: int)
    requires
        1 <= k <= s.len() + 2,
        forall|j: int| 1 <= j < k ==> holds_id(s, j),
    ensures
        exists|id: int| k <= id <= s.len() + 1 && is_lowest_free(s, id),
    decreases s.len() + 2 - k,
{
    if k == s.len() + 2 {
        lemma_held_run_fits(s, s.len() + 1 as int);
    } else if holds_id(s, k) {
        lemma_lowest_free_from(s, k + 1);
    } else {
        assert(is_lowest_free(s, k));
    }
}

/// Every sequence of tasks has exactly one lowest free identifier, at most
/// one more than its length.
pub proof fn lemma_lowest_free(s: Seq<Task>)
    ensures
        is_lowest_free(s, lowest_free(s)),
        lowest_free(s) <= s.len() + 1,
        forall|id: int| is_lowest_free(s, id) ==> id == lowest_free(s),
{
    lemma_lowest_free_from(s, 1);
    let k = lowest_free(s);
    assert forall|id: int| is_lowest_free(s, id) implies id == k by {
        if id < k {
            assert(holds_id(s, id));
        } else if k < id {
            assert(holds_id(s, k));
        }
    }
    if k > s.len() + 1 {
        let w = choose|id: int| 1 <= id <= s.len() + 1 && is_lowest_free(s, id);
        assert(holds_id(s, w));
    }
}

/// Removing a task keeps the identifiers valid.
proof fn lemma_remove_keeps_ids(s: Seq<Task>, i: int)
    requires
        ids_valid(s),
        0 <= i < s.len(),
    ensures
        ids_valid(s.remove(i)),
        forall|id: int| holds_id(s.remove(i), id) <==> holds_id(s, id) && id != s[i].id,
{
    let r = s.remove(i);
    assert forall|id: int| holds_id(r, id) <==> holds_id(s, id) && id != s[i].id by {
        if holds_id(r, id) {
            let k = choose|k: int| 0 <= k < r.len() && r[k].id == id;
            if k < i {
                assert(s[k].id == id);
            } else {
                assert(s[k + 1].id == id);
            }
        }
        if holds_id(s, id) && id != s[i].id {
            let k = choose|k: int| 0 <= k < s.len() && s[k].id == id;
            if k < i {
                assert(r[k].id == id);
            } else {
                assert(r[k - 1].id == id);
            }
        }
    }
}

/// Appending a task under a free positive identifier keeps the identifiers valid.
proof fn lemma_push_keeps_ids(s: Seq<Task>, t: Task)
    requires
        ids_valid(s),
        t.id >= 1,
        !holds_id(s, t.id as int),
    ensures
        ids_valid(s.push(t)),
        forall|id: int| holds_id(s.push(t), id) <==> holds_id(s, id) || id == t.id,
{
    let p = s.push(t);
    assert forall|i: int, j: int| 0 <= i < j < p.len() implies p[i].id != p[j].id by {
        if j == s.len() {
            assert(s[i].id == p[i].id);
        }
    }
    assert forall|id: int| holds_id(p, id) <==> holds_id(s, id) || id == t.id by {
        if holds_id(s, id) {
            let k = choose|k: int| 0 <= k < s.len() && s[k].id == id;
            assert(p[k].id == id);
        }
        if id == t.id {
            assert(p[s.len() as int].id == id);
        }
        if holds_id(p, id) && id != t.id {
            let k = choose|k: int| 0 <= k < p.len() && p[k].id == id;
            assert(s[k].id == id);
        }
    }
}

/// Returns the lowest positive identifier that no task of `tasks` holds.
fn lowest_free_id(tasks: &Vec<Task>) -> (r: usize)
    requires
        tasks@.len() < usize::MAX,
    ensures
        is_lowest_free(tasks@, r as int),
        r == lowest_free(tasks@),
{
    let n = tasks.len();
    let mut used: Vec<bool> = Vec::new();
    let mut k: usize = 0;
    while k <= n
        invariant
            k <= n + 1,
            n == tasks@.len(),
            n < usize::MAX,
            used@.len() == k,
            forall|j: int| 0 <= j < k ==> !used@[j],
        decreases n + 1 - k,
    {
        used.push(false);
        k += 1;
    }
    let mut i: usize = 0;
    while i < n
        invariant
            i <= n,
            n == tasks@.len(),
            used@.len() == n + 1,
            forall|j: int|
                1 <= j <= n ==> (used@[j] <==> exists|m: int|
                    0 <= m < i && #[trigger] tasks@[m].id == j),
        decreases n - i,
    {
        let id = tasks[i].id;
        if 1 <= id && id <= n {
            used.set(id, true);
        }
        assert forall|j: int|
            1 <= j <= n implies (used@[j] <==> exists|m: int|
                0 <= m < i + 1 && #[trigger] tasks@[m].id == j) by {
            if used@[j] && j != id {
                let m = choose|m: int| 0 <= m < i && #[trigger] tasks@[m].id == j;
                assert(0 <= m < i + 1 && tasks@[m].id == j);
            }
            if j == id {
                assert(tasks@[i as int].id == j);
            }
        }
        i += 1;
    }
    let mut c: usize = 1;
    while c <= n && used[c]
        invariant
            1 <= c <= n + 1,
            n == tasks@.len(),
            n < usize::MAX,
            used@.len() == n + 1,
            forall|j: int|
                1 <= j <= n ==> (used@[j] <==> exists|m: int|
                    0 <= m < n && #[trigger] tasks@[m].id == j),
            forall|j: int| 1 <= j < c ==> holds_id(tasks@, j),
        decreases n + 1 - c,
    {
        assert(used@[c as int]);
        c += 1;
    }
    proof {
        if c == n + 1 {
            if holds_id(tasks@, c as int) {
                lemma_held_run_fits(tasks@, c as int);
            }
        } else {
            assert(!used@[c as int]);
        }
        lemma_lowest_free(tasks@);
    }
    c
}

impl TaskQueue {
    /// The queue's identifiers are valid in both of its sequences.
    pub open spec fn wf(&self) -> bool {
        ids_valid(self@.pending) && ids_valid(self@.completed)
    }

    /// Creates an empty, disabled queue that chooses by deadline.
    pub fn new() -> (r: TaskQueue)
        ensures
            r@ == (QueueView {
                pending: Seq::empty(),
                completed: Seq::empty(),
                priority: Priority::Deadline(Deadline),
                enabled: false,
            }),
            r.wf(),
    {
        TaskQueue {
            tasks: Vec::new(),
            completed: Vec::new(),
            priority: Priority::Deadline(Deadline),
            enabled: false,
        }
    }

    /// Creates an empty, disabled queue with the given strategy.
    pub fn with_priority(priority: Priority) -> (r: TaskQueue)
        ensures
            r@ == (QueueView {
                pending: Seq::empty(),
                completed: Seq::empty(),
                priority,
                enabled: false,
            }),
            r.wf(),
    {
        TaskQueue { tasks: Vec::new(), completed: Vec::new(), priority, enabled: false }
    }

    /// Returns the name of the current strategy.
    pub fn show_priority(&self) -> (r: String)
        ensures
            r@ == self@.priority.name(),
    {
        self.priority.string()
    }

    /// Returns the current strategy.
    pub fn priority(&self) -> (r: Priority)
        ensures
            r == self@.priority,
    {
        self.priority
    }

    /// Replaces the strategy; the tasks stay as they are.
    pub fn set_priority(&mut self, priority: Priority)
        ensures
            final(self)@ == (QueueView { priority, ..old(self)@ }),
    {
        self.priority = priority;
    }

    /// Turns the scheduler's advancing of tasks on or off.
    pub fn set_enabled(&mut self, enabled: bool)
        ensures
            final(self)@ == (QueueView { enabled, ..old(self)@ }),
    {
        self.enabled = enabled;
    }

    /// Returns whether the scheduler advances tasks.
    pub fn is_enabled(&self) -> (r: bool)
        ensures
            r == self@.enabled,
    {
        self.enabled
    }

    /// Returns the lowest identifier that no pending task holds.
    pub fn new_id(&self) -> (r: usize)
        requires
            self@.pending.len() < usize::MAX,
        ensures
            is_lowest_free(self@.pending, r as int),
            r == lowest_free(self@.pending),
    {
        lowest_free_id(&self.tasks)
    }

    /// Returns the lowest identifier that no completed task holds.
    pub fn new_id_completed(&self) -> (r: usize)
        requires
            self@.completed.len() < usize::MAX,
        ensures
            is_lowest_free(self@.completed, r as int),
            r == lowest_free(self@.completed),
    {
        lowest_free_id(&self.completed)
    }

    /// Appends a task to the pending tasks; its identifier must be free there.
    pub fn add(&mut self, task: Task)
        requires
            old(self).wf(),
            task.id >= 1,
            !holds_id(old(self)@.pending, task.id as int),
        ensures
            final(self).wf(),
            final(self)@ == (QueueView { pending: old(self)@.pending.push(task), ..old(self)@ }),
    {
        proof {
            lemma_push_keeps_ids(self.tasks@, task);
        }
        self.tasks.push(task);
    }

    /// Appends a task to the completed tasks; its identifier must be free there.
    pub fn add_completed(&mut self, task: Task)
        requires
            old(self).wf(),
            task.id >= 1,
            !holds_id(old(self)@.completed, task.id as int),
        ensures
            final(self).wf(),
            final(self)@ == (QueueView {
                completed: old(self)@.completed.push(task),
                ..old(self)@
            }),
    {
        proof {
            lemma_push_keeps_ids(self.completed@, task);
        }
        self.completed.push(task);
    }

    /// Gives a naive task the lowest free pending identifier, appends it to
    /// the pending tasks, and returns it.
    pub fn add_naive(&mut self, task: NaiveTask) -> (r: Task)
        requires
            old(self).wf(),
            old(self)@.pending.len() < usize::MAX,
        ensures
            final(self).wf(),
            is_lowest_free(old(self)@.pending, r.id as int),
            r == task_from_naive(task, r.id),
            final(self)@ == (QueueView { pending: old(self)@.pending.push(r), ..old(self)@ }),
    {
        let id = self.new_id();
        let t = Task::from_naive(task, id);
        let r = t.clone();
        self.add(t);
        r
    }

    /// Returns the position of the task `id` in `tasks`.
    fn position(tasks: &Vec<Task>, id: usize) -> (r: Option<usize>)
        ensures
            r is None <==> !holds_id(tasks@, id as int),
            r matches Some(i) ==> i < tasks@.len() && tasks@[i as int].id == id,
    {
        let mut i: usize = 0;
        while i < tasks.len()
            invariant
                i <= tasks@.len(),
                forall|k: int| 0 <= k < i ==> tasks@[k].id != id,
            decreases tasks.len() - i,
        {
            if tasks[i].id == id {
                return Some(i);
            }
            i += 1;
        }
        None
    }

    /// Deletes the pending task `id`; fails, changing nothing, when there is none.
    pub fn delete(&mut self, id: usize) -> (r: Result<(), TaskNotFound>)
        requires
            old(self).wf(),
        ensures
            final(self).wf(),
            r is Ok <==> holds_id(old(self)@.pending, id as int),
            r is Err ==> final(self)@ == old(self)@,
            r is Ok ==> exists|i: int|
                0 <= i < old(self)@.pending.len() && old(self)@.pending[i].id == id
                    && final(self)@ == (QueueView {
                    pending: old(self)@.pending.remove(i),
                    ..old(self)@
                }),
    {
        match TaskQueue::position(&self.tasks, id) {
            Some(i) => {
                proof {
                    lemma_remove_keeps_ids(self.tasks@, i as int);
                }
                self.tasks.remove(i);
                Ok(())
            },
            None => Err(TaskNotFound),
        }
    }

    /// Deletes the completed task `id`; fails, changing nothing, when there is none.
    pub fn delete_completed(&mut self, id: usize) -> (r: Result<(), TaskNotFound>)
        requires
            old(self).wf(),
        ensures
            final(self).wf(),
            r is Ok <==> holds_id(old(self)@.completed, id as int),
            r is Err ==> final(self)@ == old(self)@,
            r is Ok ==> exists|i: int|
                0 <= i < old(self)@.completed.len() && old(self)@.completed[i].id == id
                    && final(self)@ == (QueueView {
                    completed: old(self)@.completed.remove(i),
                    ..old(self)@
                }),
    {
        match TaskQueue::position(&self.completed, id) {
            Some(i) => {
                proof {
                    lemma_remove_keeps_ids(self.completed@, i as int);
                }
                self.completed.remove(i);
                Ok(())
            },
            None => Err(TaskNotFound),
        }
    }

    /// Removes and returns the `i`th pending task, if there is one.
    pub fn remove(&mut self, i: usize) -> (r: Option<Task>)
        requires
            old(self).wf(),
        ensures
            final(self).wf(),
            i < old(self)@.pending.len() ==> r == Some(old(self)@.pending[i as int])
                && final(self)@ == (QueueView {
                pending: old(self)@.pending.remove(i as int),
                ..old(self)@
            }),
            i >= old(self)@.pending.len() ==> r is None && final(self)@ == old(self)@,
    {
        if i < self.tasks.len() {
            proof {
                lemma_remove_keeps_ids(self.tasks@, i as int);
            }
            Some(self.tasks.remove(i))
        } else {
            None
        }
    }

    /// Removes and returns the `i`th completed task, if there is one.
    pub fn remove_completed(&mut self, i: usize) -> (r: Option<Task>)
        requires
            old(self).wf(),
        ensures
            final(self).wf(),
            i < old(self)@.completed.len() ==> r == Some(old(self)@.completed[i as int])
                && final(self)@ == (QueueView {
                completed: old(self)@.completed.remove(i as int),
                ..old(self)@
            }),
            i >= old(self)@.completed.len() ==> r is None && final(self)@ == old(self)@,
    {
        if i < self.completed.len() {
            proof {
                lemma_remove_keeps_ids(self.completed@, i as int);
            }
            Some(self.completed.remove(i))
        } else {
            None
        }
    }

    /// Returns the `i`th pending task without removing it.
    pub fn nth(&self, i: usize) -> (r: Option<&Task>)
        ensures
            i < self@.pending.len() ==> r == Some(&self@.pending[i as int]),
            i >= self@.pending.len() ==> r is None,
    {
        if i < self.tasks.len() {
            Some(&self.tasks[i])
        } else {
            None
        }
    }

    /// Returns the `i`th completed task without removing it.
    pub fn nth_completed(&self, i: usize) -> (r: Option<&Task>)
        ensures
            i < self@.completed.len() ==> r == Some(&self@.completed[i as int]),
            i >= self@.completed.len() ==> r is None,
    {
        if i < self.completed.len() {
            Some(&self.completed[i])
        } else {
            None
        }
    }

    /// Returns a copy of the task that the strategy chooses among the pending
    /// tasks now.
    pub fn select(&self) -> (r: Option<Task>)
        ensures
            exists|now: i64| self@.priority.picks(self@.pending, now as int, r),
            !self@.priority.uses_clock() ==> self@.priority.picks(self@.pending, 0, r),
    {
        let r = self.priority.select(self.tasks.as_slice());
        proof {
            let now = choose|now: i64| self.priority.picks(self.tasks@, now as int, r);
            assert(self@.priority.picks(self@.pending, now as int, r));
        }
        r
    }

    /// Returns a copy of the task that the strategy chooses among the pending
    /// tasks when the time is `now`.
    pub fn select_at(&self, now: i64) -> (r: Option<Task>)
        ensures
            self@.priority.picks(self@.pending, now as int, r),
    {
        self.priority.select_at(self.tasks.as_slice(), now)
    }
}

impl TaskQueue {
    /// Returns the pending task `id` for changing in place.
    pub fn get_mut(&mut self, id: usize) -> (r: Option<&mut Task>)
        ensures
            r is None <==> !holds_id(old(self)@.pending, id as int),
            r is None ==> final(self)@ == old(self)@,
            r matches Some(t) ==> exists|i: int|
                0 <= i < old(self)@.pending.len() && old(self)@.pending[i].id == id && *t
                    == old(self)@.pending[i] && final(self)@ == (QueueView {
                    pending: old(self)@.pending.update(i, *final(t)),
                    ..old(self)@
                }),
    {
        match TaskQueue::position(&self.tasks, id) {
            Some(i) => Some(&mut self.tasks[i]),
            None => None,
        }
    }
}

impl TaskQueue {
    /// Returns the completed task `id` for changing in place.
    pub fn get_mut_completed(&mut self, id: usize) -> (r: Option<&mut Task>)
        ensures
            r is None <==> !holds_id(old(self)@.completed, id as int),
            r is None ==> final(self)@ == old(self)@,
            r matches Some(t) ==> exists|i: int|
                0 <= i < old(self)@.completed.len() && old(self)@.completed[i].id == id && *t
                    == old(self)@.completed[i] && final(self)@ == (QueueView {
                    completed: old(self)@.completed.update(i, *final(t)),
                    ..old(self)@
                }),
    {
        match TaskQueue::position(&self.completed, id) {
            Some(i) => Some(&mut self.completed[i]),
            None => None,
        }
    }

    /// Replaces the fields of the pending task `u.id` that `u` holds; fails,
    /// changing nothing, when there is no such task.
    pub fn update(&mut self, u: UpdateTask) -> (r: Result<(), TaskNotFound>)
        requires
            old(self).wf(),
        ensures
            final(self).wf(),
            r is Ok <==> holds_id(old(self)@.pending, u.id as int),
            r is Err ==> final(self)@ == old(self)@,
            r is Ok ==> exists|i: int|
                0 <= i < old(self)@.pending.len() && old(self)@.pending[i].id == u.id
                    && final(self)@ == (QueueView {
                    pending: old(self)@.pending.update(i, updated(old(self)@.pending[i], u)),
                    ..old(self)@
                }),
    {
        match TaskQueue::position(&self.tasks, u.id) {
            Some(i) => {
                let mut t = self.tasks[i].clone();
                if let Some(title) = u.title {
                    t.title = title;
                }
                if let Some(deadline) = u.deadline {
                    t.deadline = deadline;
                }
                if let Some(duration) = u.duration {
                    t.duration = duration;
                }
                if let Some(priority) = u.priority {
                    t.priority = priority;
                }
                self.tasks.set(i, t);
                proof {
                    assert forall|a: int, b: int|
                        0 <= a < b < self.tasks@.len() implies self.tasks@[a].id
                        != self.tasks@[b].id by {
                        assert(old(self).tasks@[a].id != old(self).tasks@[b].id);
                    }
                }
                Ok(())
            },
            None => Err(TaskNotFound),
        }
    }

    /// Flags the pending task `id` completed, for the scheduler to archive at
    /// its next tick; fails, changing nothing, when there is no such task.
    pub fn complete(&mut self, id: usize) -> (r: Result<(), TaskNotFound>)
        requires
            old(self).wf(),
        ensures
            final(self).wf(),
            r is Ok <==> holds_id(old(self)@.pending, id as int),
            r is Err ==> final(self)@ == old(self)@,
            r is Ok ==> exists|i: int|
                0 <= i < old(self)@.pending.len() && old(self)@.pending[i].id == id
                    && final(self)@ == (QueueView {
                    pending: old(self)@.pending.update(
                        i,
                        Task { completed: true, ..old(self)@.pending[i] },
                    ),
                    ..old(self)@
                }),
    {
        match TaskQueue::position(&self.tasks, id) {
            Some(i) => {
                let mut t = self.tasks[i].clone();
                t.completed = true;
                self.tasks.set(i, t);
                proof {
                    assert forall|a: int, b: int|
                        0 <= a < b < self.tasks@.len() implies self.tasks@[a].id
                        != self.tasks@[b].id by {
                        assert(old(self).tasks@[a].id != old(self).tasks@[b].id);
                    }
                }
                Ok(())
            },
            None => Err(TaskNotFound),
        }
    }

    /// Returns whether the queue holds no task, pending or completed.
    pub fn is_empty(&self) -> (r: bool)
        ensures
            r == (self@.pending.len() == 0 && self@.completed.len() == 0),
    {
        self.tasks.len() == 0 && self.completed.len() == 0
    }

    /// Returns the pending tasks, in order.
    pub fn tasks(&self) -> (r: &[Task])
        ensures
            r@ == self@.pending,
    {
        self.tasks.as_slice()
    }

    /// Returns the completed tasks, in order.
    pub fn completed_tasks(&self) -> (r: &[Task])
        ensures
            r@ == self@.completed,
    {
        self.completed.as_slice()
    }

    /// Returns an iterator over the pending tasks.
    pub fn iter(&self) -> (r: TaskQueueIterator<'_>)
        ensures
            r.tasks() == self@.pending,
            r.index() == 0,
    {
        TaskQueueIterator { task_queue: self, index: 0 }
    }

    /// Returns an iterator over the completed tasks.
    pub fn iter_completed(&self) -> (r: TaskQueueIteratorCompleted<'_>)
        ensures
            r.tasks() == self@.completed,
            r.index() == 0,
    {
        TaskQueueIteratorCompleted { task_queue: self, index: 0 }
    }
}

/// Walks the pending tasks of a queue in order.
pub struct TaskQueueIterator<'a> {
    task_queue: &'a TaskQueue,
    index: usize,
}

impl<'a> TaskQueueIterator<'a> {
    /// The tasks walked.
    pub closed spec fn tasks(&self) -> Seq<Task> {
        self.task_queue@.pending
    }

    /// The position of the next task.
    pub closed spec fn index(&self) -> int {
        self.index as int
    }

    /// Returns the next task, if any is left.
    pub fn next(&mut self) -> (r: Option<&'a Task>)
        ensures
            final(self).tasks() == old(self).tasks(),
            old(self).index() < old(self).tasks().len() ==> r == Some(
                &old(self).tasks()[old(self).index()],
            ) && final(self).index() == old(self).index() + 1,
            old(self).index() >= old(self).tasks().len() ==> r is None && final(self).index()
                == old(self).index(),
    {
        if self.index < self.task_queue.tasks.len() {
            let r = &self.task_queue.tasks[self.index];
            self.index += 1;
            Some(r)
        } else {
            None
        }
    }
}

/// Walks the completed tasks of a queue in order.
pub struct TaskQueueIteratorCompleted<'a> {
    task_queue: &'a TaskQueue,
    index: usize,
}

impl<'a> TaskQueueIteratorCompleted<'a> {
    /// The tasks walked.
    pub closed spec fn tasks(&self) -> Seq<Task> {
        self.task_queue@.completed
    }

    /// The position of the next task.
    pub closed spec fn index(&self) -> int {
        self.index as int
    }

    /// Returns the next task, if any is left.
    pub fn next(&mut self) -> (r: Option<&'a Task>)
        ensures
            final(self).tasks() == old(self).tasks(),
            old(self).index() < old(self).tasks().len() ==> r == Some(
                &old(self).tasks()[old(self).index()],
            ) && final(self).index() == old(self).index() + 1,
            old(self).index() >= old(self).tasks().len() ==> r is None && final(self).index()
                == old(self).index(),
    {
        if self.index < self.task_queue.completed.len() {
            let r = &self.task_queue.completed[self.index];
            self.index += 1;
            Some(r)
        } else {
            None
        }
    }
}

/// The task `t` as it is archived under the identifier `id`.
pub open spec fn archived(t: Task, id: int) -> Task {
    Task { id: id as usize, active: false, completed: true, ..t }
}

/// Walks `p` from index `j` on: a task flagged completed goes to the end of
/// `done` under the identifier then lowest free there; any other task is kept
/// at the end of `kept`.
pub open spec fn reconcile_from(p: Seq<Task>, j: int, kept: Seq<Task>, done: Seq<Task>) -> (Seq<
    Task,
>, Seq<Task>)
    decreases p.len() - j,
{
    if j < 0 || j >= p.len() {
        (kept, done)
    } else if p[j].completed {
        reconcile_from(p, j + 1, kept, done.push(archived(p[j], lowest_free(done))))
    } else {
        reconcile_from(p, j + 1, kept.push(p[j]), done)
    }
}

/// The pending and completed tasks once every pending task flagged completed
/// has been archived, in order.
pub open spec fn reconciled(pending: Seq<Task>, completed: Seq<Task>) -> (Seq<Task>, Seq<Task>) {
    reconcile_from(pending, 0, Seq::empty(), completed)
}

/// The pending tasks `p` once the strategy has chosen `sel`: only the chosen
/// task is active, and it loses `step` of its remaining work if it has that
/// much left.
pub open spec fn advanced(p: Seq<Task>, sel: Option<usize>, step: int) -> Seq<Task> {
    Seq::new(
        p.len(),
        |k: int|
            {
                let chosen = sel == Some(k as usize);
                Task {
                    active: chosen,
                    duration: if chosen && p[k].duration >= step {
                        (p[k].duration - step) as i64
                    } else {
                        p[k].duration
                    },
                    ..p[k]
                }
            },
    )
}

/// What one tick of the scheduler did.
#[derive(Debug, Clone, Copy, PartialEq, Eq, Structural)]
pub enum TickOutcome {
    /// The queue is disabled: nothing changed.
    Paused,
    /// No pending task could be chosen.
    Idle,
    /// The chosen task `id` advanced and has `remaining` left.
    Advanced { id: usize, remaining: i64 },
    /// The chosen task `id` has less than a tick of work left, `remaining`;
    /// it was left as it was.
    Short { id: usize, remaining: i64 },
}

/// `r` reports the choice `sel` among `p` for a tick of `step`.
pub open spec fn reports(r: TickOutcome, p: Seq<Task>, sel: Option<usize>, step: int) -> bool {
    match sel {
        None => r == TickOutcome::Idle,
        Some(i) => if p[i as int].duration >= step {
            r == TickOutcome::Advanced {
                id: p[i as int].id,
                remaining: (p[i as int].duration - step) as i64,
            }
        } else {
            r == TickOutcome::Short { id: p[i as int].id, remaining: p[i as int].duration }
        },
    }
}

/// One tick of `step` milliseconds at time `now` takes the queue `q` to `q2`
/// and reports `r`: a disabled queue stays as it is; an enabled one archives
/// every task flagged completed, then advances the task its strategy chooses.
pub open spec fn ticked(q: QueueView, q2: QueueView, step: int, now: int, r: TickOutcome) -> bool {
    if !q.enabled {
        q2 == q && r == TickOutcome::Paused
    } else {
        let remaining = reconciled(q.pending, q.completed).0;
        let archive = reconciled(q.pending, q.completed).1;
        exists|sel: Option<usize>|
            {
                &&& q.priority.picks_index(remaining, now, sel)
                &&& q2 == (QueueView { pending: advanced(remaining, sel, step), completed: archive, ..q })
                &&& reports(r, remaining, sel, step)
            }
    }
}

impl TaskQueue {
    /// Runs one tick of `step` milliseconds at time `now`. If the queue is
    /// enabled, every pending task flagged completed moves to the completed
    /// tasks under a fresh identifier; then the task the strategy chooses
    /// becomes the only active one and loses `step` of its remaining work,
    /// unless it has less than that left.
    pub fn tick(&mut self, step: i64, now: i64) -> (r: TickOutcome)
        requires
            old(self).wf(),
            step >= 0,
            old(self)@.pending.len() + old(self)@.completed.len() < usize::MAX,
        ensures
            final(self).wf(),
            ticked(old(self)@, final(self)@, step as int, now as int, r),
    {
        if !self.enabled {
            return TickOutcome::Paused;
        }
        let ghost first_pending = self.tasks@;
        let ghost first_done = self.completed@;
        let n = self.tasks.len();
        let mut kept: Vec<Task> = Vec::new();
        let mut j: usize = 0;
        while j < n
            invariant
                n == first_pending.len(),
                self.tasks@ == first_pending,
                self.priority == old(self).priority,
                self.enabled,
                j <= n,
                ids_valid(first_pending),
                ids_valid(self.completed@),
                ids_valid(kept@),
                forall|a: int|
                    0 <= a < kept@.len() ==> exists|m: int|
                        0 <= m < j && first_pending[m].id == #[trigger] kept@[a].id,
                self.completed@.len() <= first_done.len() + j,
                first_done.len() + n < usize::MAX,
                reconciled(first_pending, first_done) == reconcile_from(first_pending, j as int, kept@, self.completed@),
            decreases n - j,
        {
            let t = self.tasks[j].clone();
            if t.completed {
                let id = lowest_free_id(&self.completed);
                let a = Task { id, active: false, completed: true, ..t };
                proof {
                    lemma_push_keeps_ids(self.completed@, a);
                }
                self.completed.push(a);
            } else {
                proof {
                    if holds_id(kept@, t.id as int) {
                        let a = choose|a: int| 0 <= a < kept@.len() && kept@[a].id == t.id;
                        let m = choose|m: int| 0 <= m < j && first_pending[m].id == kept@[a].id;
                        assert(first_pending[m].id != first_pending[j as int].id);
                    }
                    lemma_push_keeps_ids(kept@, t);
                }
                kept.push(t);
                proof {
                    assert forall|a: int|
                        0 <= a < kept@.len() implies exists|m: int|
                            0 <= m < j + 1 && first_pending[m].id == #[trigger] kept@[a].id by {
                        if a == kept@.len() - 1 {
                            assert(first_pending[j as int].id == kept@[a].id);
                        } else {
                            let m = choose|m: int| 0 <= m < j && first_pending[m].id == kept@[a].id;
                            assert(0 <= m < j + 1 && first_pending[m].id == kept@[a].id);
                        }
                    }
                }
            }
            j += 1;
        }
        self.tasks = kept;
        let ghost remaining = self.tasks@;
        let ghost archive = self.completed@;
        assert(reconciled(first_pending, first_done) == (remaining, archive));
        let sel = self.priority.select_index_at(self.tasks.as_slice(), now);
        let outcome = match sel {
            None => TickOutcome::Idle,
            Some(i) => {
                let d = self.tasks[i].duration;
                let id = self.tasks[i].id;
                if d >= step {
                    TickOutcome::Advanced { id, remaining: d - step }
                } else {
                    TickOutcome::Short { id, remaining: d }
                }
            },
        };
        let mut k: usize = 0;
        while k < self.tasks.len()
            invariant
                self.tasks@.len() == remaining.len(),
                self.completed@ == archive,
                ids_valid(remaining),
                ids_valid(archive),
                self.priority == old(self).priority,
                self.enabled,
                step >= 0,
                forall|m: int| 0 <= m < k ==> self.tasks@[m] == advanced(remaining, sel, step as int)[m],
                forall|m: int| k <= m < remaining.len() ==> self.tasks@[m] == remaining[m],
            decreases remaining.len() - k,
        {
            let chosen = match sel {
                Some(i) => i == k,
                None => false,
            };
            let mut t = self.tasks[k].clone();
            t.active = chosen;
            if chosen && t.duration >= step {
                t.duration = t.duration - step;
            }
            self.tasks.set(k, t);
            k += 1;
        }
        proof {
            assert(self.tasks@ =~= advanced(remaining, sel, step as int));
            assert forall|a: int, b: int|
                0 <= a < b < self.tasks@.len() implies self.tasks@[a].id != self.tasks@[b].id by {
                assert(remaining[a].id != remaining[b].id);
            }
            assert forall|a: int| 0 <= a < self.tasks@.len() implies #[trigger] self.tasks@[a].id
                >= 1 by {
                assert(remaining[a].id >= 1);
            }
            assert(old(self)@.priority.picks_index(remaining, now as int, sel));
            assert(reports(outcome, remaining, sel, step as int));
            assert(self@ == (QueueView {
                pending: advanced(remaining, sel, step as int),
                completed: archive,
                ..old(self)@
            }));
        }
        outcome
    }
}

/// The queue that a snapshot of these parts restores to, if its identifiers
/// are valid.
pub open spec fn restored(
    pending: Seq<Task>,
    completed: Seq<Task>,
    priority: Priority,
    enabled: bool,
) -> Option<QueueView> {
    if ids_valid(pending) && ids_valid(completed) {
        Some(QueueView { pending, completed, priority, enabled })
    } else {
        None
    }
}

/// Decides `ids_valid(s)`.
fn check_ids(s: &Vec<Task>) -> (r: bool)
    ensures
        r == ids_valid(s@),
{
    let n = s.len();
    let mut i: usize = 0;
    while i < n
        invariant
            i <= n,
            n == s@.len(),
            forall|a: int| 0 <= a < i ==> #[trigger] s@[a].id >= 1,
            forall|a: int, b: int| 0 <= a < i && a < b < n ==> s@[a].id != s@[b].id,
        decreases n - i,
    {
        if s[i].id == 0 {
            return false;
        }
        let mut j: usize = i + 1;
        while j < n
            invariant
                i < n,
                i + 1 <= j <= n,
                n == s@.len(),
                forall|b: int| i < b < j ==> s@[i as int].id != #[trigger] s@[b].id,
            decreases n - j,
        {
            if s[i].id == s[j].id {
                return false;
            }
            j += 1;
        }
        i += 1;
    }
    true
}

/// Returns a copy of the tasks of `s`.
fn copy_tasks(s: &[Task]) -> (r: Vec<Task>)
    ensures
        r@ == s@,
{
    let mut r: Vec<Task> = Vec::new();
    let mut i: usize = 0;
    while i < s.len()
        invariant
            i <= s@.len(),
            r@ == s@.subrange(0, i as int),
        decreases s.len() - i,
    {
        r.push(s[i].clone());
        i += 1;
    }
    r
}

impl TaskQueue {
    /// Returns the parts a queue is restored from: copies of the pending and
    /// completed tasks, the strategy, and whether the queue is enabled.
    pub fn snapshot(&self) -> (r: (Vec<Task>, Vec<Task>, Priority, bool))
        ensures
            r.0@ == self@.pending,
            r.1@ == self@.completed,
            r.2 == self@.priority,
            r.3 == self@.enabled,
    {
        (copy_tasks(self.tasks.as_slice()), copy_tasks(self.completed.as_slice()), self.priority, self.enabled)
    }

    /// Rebuilds a queue from its parts; fails when the identifiers of either
    /// sequence are not positive and distinct.
    pub fn restore(tasks: Vec<Task>, completed: Vec<Task>, priority: Priority, enabled: bool) -> (r:
        Result<TaskQueue, SerializationError>)
        ensures
            r is Ok <==> restored(tasks@, completed@, priority, enabled) is Some,
            r matches Ok(q) ==> q.wf() && restored(tasks@, completed@, priority, enabled) == Some(
                q@,
            ),
    {
        if check_ids(&tasks) && check_ids(&completed) {
            Ok(TaskQueue { tasks, completed, priority, enabled })
        } else {
            Err(SerializationError)
        }
    }
}

/// With no deletion, a queue that starts empty and grows by `add_naive`
/// gives each task the lowest identifier free among the tasks before it; the
/// tasks are then numbered 1, 2, 3, ... and the next identifier offered is one
/// more than their count.
pub proof fn lemma_new_id_after_additions(s: Seq<Task>)
    requires
        forall|i: int| 0 <= i < s.len() ==> is_lowest_free(#[trigger] s.take(i), s[i].id as int),
    ensures
        forall|i: int| 0 <= i < s.len() ==> s[i].id == i + 1,
        is_lowest_free(s, s.len() + 1 as int),
        lowest_free(s) == s.len() + 1,
    decreases s.len(),
{
    if s.len() > 0 {
        let n = s.len() - 1;
        let front = s.take(n);
        assert forall|i: int| 0 <= i < front.len() implies is_lowest_free(
            #[trigger] front.take(i),
            front[i].id as int,
        ) by {
            assert(front.take(i) =~= s.take(i));
        }
        lemma_new_id_after_additions(front);
        assert(is_lowest_free(s.take(n), s[n].id as int));
        assert(s.take(n) =~= front);
        lemma_lowest_free(front);
        assert(s[n].id == n + 1);
        assert forall|i: int| 0 <= i < s.len() implies s[i].id == i + 1 by {
            if i < n {
                assert(s[i] == front[i]);
            }
        }
    }
    assert forall|k: int| 1 <= k < s.len() + 1 implies holds_id(s, k) by {
        assert(s[k - 1].id == k);
    }
    if holds_id(s, s.len() + 1 as int) {
        let m = choose|m: int| 0 <= m < s.len() && s[m].id == s.len() + 1;
        assert(s[m].id == m + 1);
    }
    lemma_lowest_free(s);
}

/// Deleting the task that holds `s[i].id`, when every identifier below it is
/// held, makes that identifier the next one offered. For the least identifier
/// held this is the case exactly when it is 1: otherwise 1 was free before and
/// stays the one offered.
pub proof fn lemma_deleted_id_reused(s: Seq<Task>, i: int)
    requires
        ids_valid(s),
        0 <= i < s.len(),
        forall|k: int| 1 <= k < s[i].id ==> holds_id(s, k),
    ensures
        is_lowest_free(s.remove(i), s[i].id as int),
        lowest_free(s.remove(i)) == s[i].id,
{
    let r = s.remove(i);
    let x = s[i].id as int;
    lemma_remove_keeps_ids(s, i);
    assert(!holds_id(r, x));
    assert forall|k: int| 1 <= k < x implies holds_id(r, k) by {
        assert(holds_id(s, k));
        assert(holds_id(r, k) <==> holds_id(s, k) && k != x);
    }
    assert(is_lowest_free(r, x));
    lemma_lowest_free(r);
}

/// A snapshot round-trips: restoring a well-formed queue from the parts that
/// `snapshot` hands out succeeds and gives back the same queue.
pub proof fn lemma_snapshot_round_trip(q: QueueView)
    requires
        ids_valid(q.pending),
        ids_valid(q.completed),
    ensures
        restored(q.pending, q.completed, q.priority, q.enabled) == Some(q),
{
}

/// Reconciling keeps `done` as a prefix of the completed tasks.
proof fn lemma_reconcile_keeps_done(p: Seq<Task>, j: int, kept: Seq<Task>, done: Seq<Task>)
    ensures
        reconcile_from(p, j, kept, done).1.len() >= done.len(),
        forall|a: int|
            0 <= a < done.len() ==> #[trigger] reconcile_from(p, j, kept, done).1[a] == done[a],
    decreases p.len() - j,
{
    if 0 <= j < p.len() {
        if p[j].completed {
            lemma_reconcile_keeps_done(
                p,
                j + 1,
                kept,
                done.push(archived(p[j], lowest_free(done))),
            );
        } else {
            lemma_reconcile_keeps_done(p, j + 1, kept.push(p[j]), done);
        }
    }
}

/// `t` is one of `kept`, or an unflagged task of `p` from `j` on.
pub open spec fn kept_or_unflagged(p: Seq<Task>, j: int, kept: Seq<Task>, t: Task) -> bool {
    ||| exists|b: int| 0 <= b < kept.len() && kept[b] == t
    ||| exists|m: int| j <= m < p.len() && !p[m].completed && p[m] == t
}

/// Every task that reconciling keeps pending was kept already or is an
/// unflagged task of `p` from `j` on.
proof fn lemma_reconcile_keeps_unflagged(p: Seq<Task>, j: int, kept: Seq<Task>, done: Seq<Task>)
    requires
        0 <= j,
    ensures
        forall|a: int|
            0 <= a < reconcile_from(p, j, kept, done).0.len() ==> kept_or_unflagged(
                p,
                j,
                kept,
                #[trigger] reconcile_from(p, j, kept, done).0[a],
            ),
    decreases p.len() - j,
{
    let res = reconcile_from(p, j, kept, done).0;
    if j < p.len() {
        let next_kept = if p[j].completed {
            kept
        } else {
            kept.push(p[j])
        };
        let next_done = if p[j].completed {
            done.push(archived(p[j], lowest_free(done)))
        } else {
            done
        };
        lemma_reconcile_keeps_unflagged(p, j + 1, next_kept, next_done);
        assert(res == reconcile_from(p, j + 1, next_kept, next_done).0);
        assert forall|a: int| 0 <= a < res.len() implies kept_or_unflagged(
            p,
            j,
            kept,
            #[trigger] res[a],
        ) by {
            assert(kept_or_unflagged(p, j + 1, next_kept, res[a]));
            if exists|b: int| 0 <= b < next_kept.len() && next_kept[b] == res[a] {
                let b = choose|b: int| 0 <= b < next_kept.len() && next_kept[b] == res[a];
                if b == kept.len() {
                    assert(!p[j].completed && p[j] == res[a]);
                } else {
                    assert(kept[b] == res[a]);
                }
            } else {
                let m = choose|m: int| j + 1 <= m < p.len() && !p[m].completed && p[m] == res[a];
                assert(j <= m < p.len() && !p[m].completed && p[m] == res[a]);
            }
        }
    } else {
        assert forall|a: int| 0 <= a < res.len() implies kept_or_unflagged(
            p,
            j,
            kept,
            #[trigger] res[a],
        ) by {
            assert(kept[a] == res[a]);
        }
    }
}

/// Reconciling archives each flagged task of `p` from `j` on, after `done`,
/// under an identifier that `done` does not hold.
proof fn lemma_reconcile_archives(
    p: Seq<Task>,
    j: int,
    kept: Seq<Task>,
    done: Seq<Task>,
    i: int,
)
    requires
        0 <= j <= i < p.len(),
        p[i].completed,
        done.len() + p.len() - j < usize::MAX,
    ensures
        exists|k: int|
            done.len() <= k < reconcile_from(p, j, kept, done).1.len()
                && reconcile_from(p, j, kept, done).1[k] == archived(
                p[i],
                reconcile_from(p, j, kept, done).1[k].id as int,
            ) && !holds_id(done, reconcile_from(p, j, kept, done).1[k].id as int),
    decreases p.len() - j,
{
    let res = reconcile_from(p, j, kept, done).1;
    if j == i {
        let lf = lowest_free(done);
        lemma_lowest_free(done);
        let next = done.push(archived(p[j], lf));
        lemma_reconcile_keeps_done(p, j + 1, kept, next);
        let k = done.len() as int;
        assert(res[k] == next[k]);
        assert(res[k] == archived(p[i], res[k].id as int));
    } else {
        let next_kept = if p[j].completed {
            kept
        } else {
            kept.push(p[j])
        };
        let next_done = if p[j].completed {
            done.push(archived(p[j], lowest_free(done)))
        } else {
            done
        };
        lemma_reconcile_archives(p, j + 1, next_kept, next_done, i);
        assert(res == reconcile_from(p, j + 1, next_kept, next_done).1);
        let k = choose|k: int|
            next_done.len() <= k < res.len() && res[k] == archived(p[i], res[k].id as int)
                && !holds_id(next_done, res[k].id as int);
        if holds_id(done, res[k].id as int) {
            let a = choose|a: int| 0 <= a < done.len() && done[a].id == res[k].id;
            assert(next_done[a] == done[a]);
        }
    }
}

/// After a tick of an enabled queue, a pending task that was flagged
/// completed is no longer pending, and the completed tasks hold it, archived
/// under an identifier that was free among them before the tick.
pub proof fn lemma_tick_archives_flagged(
    q: QueueView,
    q2: QueueView,
    step: int,
    now: int,
    r: TickOutcome,
    i: int,
)
    requires
        ids_valid(q.pending),
        ids_valid(q.completed),
        q.pending.len() + q.completed.len() < usize::MAX,
        q.enabled,
        ticked(q, q2, step, now, r),
        0 <= i < q.pending.len(),
        q.pending[i].completed,
    ensures
        !holds_id(q2.pending, q.pending[i].id as int),
        exists|k: int|
            q.completed.len() <= k < q2.completed.len() && q2.completed[k] == archived(
                q.pending[i],
                q2.completed[k].id as int,
            ) && !holds_id(q.completed, q2.completed[k].id as int),
{
    let remaining = reconciled(q.pending, q.completed).0;
    let sel = choose|sel: Option<usize>|
        {
            &&& q.priority.picks_index(remaining, now, sel)
            &&& q2 == (QueueView {
                pending: advanced(remaining, sel, step),
                completed: reconciled(q.pending, q.completed).1,
                ..q
            })
            &&& reports(r, remaining, sel, step)
        };
    assert(q2.pending == advanced(remaining, sel, step));
    assert(q2.completed == reconciled(q.pending, q.completed).1);
    lemma_reconcile_archives(q.pending, 0, Seq::empty(), q.completed, i);
    lemma_reconcile_keeps_unflagged(q.pending, 0, Seq::empty(), q.completed);
    if holds_id(q2.pending, q.pending[i].id as int) {
        let a = choose|a: int| 0 <= a < q2.pending.len() && q2.pending[a].id == q.pending[i].id;
        assert(q2.pending[a].id == remaining[a].id);
        assert(kept_or_unflagged(q.pending, 0, Seq::empty(), remaining[a]));
        let m = choose|m: int| 0 <= m < q.pending.len() && !q.pending[m].completed && q.pending[m] == remaining[a];
        assert(q.pending[m].id == q.pending[i].id);
    }
}

/// A tick never makes the remaining work of a pending task negative.
pub proof fn lemma_tick_keeps_work_non_negative(
    q: QueueView,
    q2: QueueView,
    step: int,
    now: int,
    r: TickOutcome,
)
    requires
        step >= 0,
        ticked(q, q2, step, now, r),
        forall|k: int| 0 <= k < q.pending.len() ==> #[trigger] q.pending[k].duration >= 0,
    ensures
        forall|k: int| 0 <= k < q2.pending.len() ==> #[trigger] q2.pending[k].duration >= 0,
{
    if q.enabled {
        let remaining = reconciled(q.pending, q.completed).0;
        let sel = choose|sel: Option<usize>|
            {
                &&& q.priority.picks_index(remaining, now, sel)
                &&& q2 == (QueueView {
                    pending: advanced(remaining, sel, step),
                    completed: reconciled(q.pending, q.completed).1,
                    ..q
                })
                &&& reports(r, remaining, sel, step)
            };
        lemma_reconcile_keeps_unflagged(q.pending, 0, Seq::empty(), q.completed);
        assert forall|k: int| 0 <= k < q2.pending.len() implies #[trigger] q2.pending[k].duration
            >= 0 by {
            assert(kept_or_unflagged(q.pending, 0, Seq::empty(), remaining[k]));
            let m = choose|m: int|
                0 <= m < q.pending.len() && !q.pending[m].completed && q.pending[m] == remaining[k];
            assert(q.pending[m].duration >= 0);
        }
    }
}

/// A disabled queue stays as it is through any number of ticks: in a run of
/// ticks `qs[0]`, `qs[1]`, ... that starts disabled, every state is the first.
pub proof fn lemma_paused_ticks(
    qs: Seq<QueueView>,
    steps: Seq<int>,
    nows: Seq<int>,
    rs: Seq<TickOutcome>,
)
    requires
        qs.len() >= 1,
        steps.len() >= qs.len() - 1,
        nows.len() >= qs.len() - 1,
        rs.len() >= qs.len() - 1,
        !qs[0].enabled,
        forall|k: int|
            0 <= k < qs.len() - 1 ==> #[trigger] ticked(qs[k], qs[k + 1], steps[k], nows[k], rs[k]),
    ensures
        forall|k: int| 0 <= k < qs.len() ==> #[trigger] qs[k] == qs[0],
    decreases qs.len(),
{
    if qs.len() > 1 {
        let front = qs.drop_last();
        assert forall|k: int| 0 <= k < front.len() - 1 implies #[trigger] ticked(
            front[k],
            front[k + 1],
            steps[k],
            nows[k],
            rs[k],
        ) by {
            assert(ticked(qs[k], qs[k + 1], steps[k], nows[k], rs[k]));
        }
        lemma_paused_ticks(front, steps, nows, rs);
        let n = qs.len() - 1;
        assert(front[n - 1] == qs[0]);
        let k = n - 1;
        assert(ticked(qs[k], qs[k + 1], steps[k], nows[k], rs[k]));
        assert forall|k: int| 0 <= k < qs.len() implies #[trigger] qs[k] == qs[0] by {
            if k < n {
                assert(front[k] == qs[0]);
            }
        }
    }
}

impl Default for TaskQueue {
    fn default() -> (r: TaskQueue)
        ensures
            r@ == (QueueView {
                pending: Seq::empty(),
                completed: Seq::empty(),
                priority: Priority::Deadline(Deadline),
                enabled: false,
            }),
    {
        TaskQueue::new()
    }
}

} // verus!

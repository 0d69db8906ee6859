use vstd::prelude::*;

use crate::task::Task;

verus! {

/// A task that a strategy may choose: one not yet flagged completed.
pub open spec fn eligible(t: Task) -> bool {
    !t.completed
}

/// Division of integers rounded toward zero, as Rust's `/` does it.
pub open spec fn div_toward_zero(a: int, b: int) -> int {
    let q = (if a < 0 { -a } else { a }) / (if b < 0 { -b } else { b });
    if (a < 0) != (b < 0) {
        -q
    } else {
        q
    }
}

/// Relies on chrono's `Local::now` and `NaiveDateTime::timestamp_millis`: the
/// local wall-clock time as a naive date-time, in milliseconds since
/// 1970-01-01 00:00. Nothing is known of the value.
#[verifier::external_body]
pub(crate) fn local_now_millis() -> i64 {
    chrono::Local::now().naive_local().and_utc().timestamp_millis()
}

/// Computes `div_toward_zero(a, b)` on machine integers.
fn divide_toward_zero(a: i128, b: i128) -> (r: i128)
    requires
        b != 0,
        -0x1_0000_0000_0000_0000_0000_0000 <= a <= 0x1_0000_0000_0000_0000_0000_0000,
        -0x1_0000_0000_0000_0000 <= b <= 0x1_0000_0000_0000_0000,
    ensures
        r == div_toward_zero(a as int, b as int),
        a >= 0 ==> -a <= r <= a,
        a < 0 ==> a <= r <= -a,
{
    let ua: u128 = if a < 0 {
        (-a) as u128
    } else {
        a as u128
    };
    let ub: u128 = if b < 0 {
        (-b) as u128
    } else {
        b as u128
    };
    let q: u128 = ua / ub;
    assert(q <= ua) by (nonlinear_arith)
        requires
            q == ua / ub,
            ub >= 1,
    ;
    if (a < 0) != (b < 0) {
        -(q as i128)
    } else {
        q as i128
    }
}

/// Schedules tasks in the order they were added to the queue.
#[derive(Debug, Clone, Copy, PartialEq, Eq, Structural)]
pub struct FIFO;

/// Schedules tasks in the order they are due.
#[derive(Debug, Clone, Copy, PartialEq, Eq, Structural)]
pub struct Deadline;

/// Schedules short tasks ahead of long ones.
#[derive(Debug, Clone, Copy, PartialEq, Eq, Structural)]
pub struct Shortest {}

/// Schedules long tasks ahead of short ones.
#[derive(Debug, Clone, Copy, PartialEq, Eq, Structural)]
pub struct Longest {}

/// Schedules more urgent tasks ahead of less urgent ones.
#[derive(Debug, Clone, Copy, PartialEq, Eq, Structural)]
pub struct HighestPriority {}

/// Schedules less urgent tasks ahead of more urgent ones.
#[derive(Debug, Clone, Copy, PartialEq, Eq, Structural)]
pub struct LowestPriority {}

/// Gives each task the score
/// `(seconds until its deadline / deadline_weight) - (duration_weight * seconds of work left)`
/// (both divisions rounded toward zero) and schedules the lowest score; ties
/// go to the more urgent level, then to the lower identifier.
///
/// Short tasks come first, but a long task whose deadline draws near lowers
/// its score, so it is not starved.
#[derive(Debug, Clone, Copy, PartialEq, Eq, Structural)]
pub struct ShortestWithUrgency {
    pub(crate) deadline_weight: i64,
    pub(crate) duration_weight: i64,
}

impl ShortestWithUrgency {
    #[verifier::type_invariant]
    spec fn weights_usable(self) -> bool {
        self.deadline_weight != 0
    }

    pub open(crate) spec fn deadline_weight_spec(self) -> int {
        self.deadline_weight as int
    }

    pub open(crate) spec fn duration_weight_spec(self) -> int {
        self.duration_weight as int
    }

    /// The score of `t` when the time is `now`.
    pub open(crate) spec fn score(self, t: Task, now: int) -> int {
        div_toward_zero(div_toward_zero(t.deadline - now, 1000), self.deadline_weight as int)
            - self.duration_weight * div_toward_zero(t.duration as int, 1000)
    }

    /// `a` is scheduled ahead of `b` when the time is `now`.
    pub open(crate) spec fn ahead(self, a: Task, b: Task, now: int) -> bool {
        let sa = self.score(a, now);
        let sb = self.score(b, now);
        ||| sa < sb
        ||| sa == sb && a.priority.rank() < b.priority.rank()
        ||| sa == sb && a.priority.rank() == b.priority.rank() && a.id < b.id
    }

    /// Creates the strategy; the deadline weight divides, so it is not zero.
    pub fn new(deadline_weight: i64, duration_weight: i64) -> (r: ShortestWithUrgency)
        requires
            deadline_weight != 0,
        ensures
            r.deadline_weight_spec() == deadline_weight,
            r.duration_weight_spec() == duration_weight,
    {
        ShortestWithUrgency { deadline_weight, duration_weight }
    }

    /// Returns the weight of deadlines.
    pub fn deadline_weight(&self) -> (r: i64)
        ensures
            r == self.deadline_weight_spec(),
            r != 0,
    {
        proof {
            use_type_invariant(self);
        }
        self.deadline_weight
    }

    /// Returns the weight of durations.
    pub fn duration_weight(&self) -> (r: i64)
        ensures
            r == self.duration_weight_spec(),
    {
        self.duration_weight
    }

    /// Computes the score of `t` at time `now`.
    fn score_at(&self, t: &Task, now: i64) -> (r: i128)
        ensures
            r == self.score(*t, now as int),
    {
        proof {
            use_type_invariant(self);
        }
        let distance: i128 = t.deadline as i128 - now as i128;
        let seconds = divide_toward_zero(distance, 1000);
        let near = divide_toward_zero(seconds, self.deadline_weight as i128);
        let work = divide_toward_zero(t.duration as i128, 1000);
        let w = self.duration_weight as i128;
        assert(-0x4000_0000_0000_0000_0000_0000_0000_0000 <= w * work
            <= 0x4000_0000_0000_0000_0000_0000_0000_0000) by (nonlinear_arith)
            requires
                -0x8000_0000_0000_0000 <= w <= 0x8000_0000_0000_0000,
                -0x8000_0000_0000_0000 <= work <= 0x8000_0000_0000_0000,
        ;
        near - w * work
    }
}

impl FIFO {
    /// Returns a copy of the first task not flagged completed among `queue`.
    pub fn select(&self, queue: &[Task]) -> (r: Option<Task>)
        ensures
            Priority::FIFO(*self).picks(queue@, 0, r),
    {
        Priority::FIFO(*self).select_at(queue, 0)
    }

    /// Returns the name under which the strategy is shown.
    pub fn string(&self) -> (r: String)
        ensures
            r@ == Priority::FIFO(*self).name(),
    {
        Priority::FIFO(*self).string()
    }
}

impl Deadline {
    /// Returns a copy of the task due first among `queue`.
    pub fn select(&self, queue: &[Task]) -> (r: Option<Task>)
        ensures
            Priority::Deadline(*self).picks(queue@, 0, r),
    {
        Priority::Deadline(*self).select_at(queue, 0)
    }

    /// Returns the name under which the strategy is shown.
    pub fn string(&self) -> (r: String)
        ensures
            r@ == Priority::Deadline(*self).name(),
    {
        Priority::Deadline(*self).string()
    }
}

impl Shortest {
    /// Returns a copy of the task with the least work left among `queue`.
    pub fn select(&self, queue: &[Task]) -> (r: Option<Task>)
        ensures
            Priority::Shortest(*self).picks(queue@, 0, r),
    {
        Priority::Shortest(*self).select_at(queue, 0)
    }

    /// Returns the name under which the strategy is shown.
    pub fn string(&self) -> (r: String)
        ensures
            r@ == Priority::Shortest(*self).name(),
    {
        Priority::Shortest(*self).string()
    }
}

impl Longest {
    /// Returns a copy of the task with the most work left among `queue`.
    pub fn select(&self, queue: &[Task]) -> (r: Option<Task>)
        ensures
            Priority::Longest(*self).picks(queue@, 0, r),
    {
        Priority::Longest(*self).select_at(queue, 0)
    }

    /// Returns the name under which the strategy is shown.
    pub fn string(&self) -> (r: String)
        ensures
            r@ == Priority::Longest(*self).name(),
    {
        Priority::Longest(*self).string()
    }
}

impl HighestPriority {
    /// Returns a copy of the most urgent task among `queue`.
    pub fn select(&self, queue: &[Task]) -> (r: Option<Task>)
        ensures
            Priority::HighestPriority(*self).picks(queue@, 0, r),
    {
        Priority::HighestPriority(*self).select_at(queue, 0)
    }

    /// Returns the name under which the strategy is shown.
    pub fn string(&self) -> (r: String)
        ensures
            r@ == Priority::HighestPriority(*self).name(),
    {
        Priority::HighestPriority(*self).string()
    }
}

impl LowestPriority {
    /// Returns a copy of the least urgent task among `queue`.
    pub fn select(&self, queue: &[Task]) -> (r: Option<Task>)
        ensures
            Priority::LowestPriority(*self).picks(queue@, 0, r),
    {
        Priority::LowestPriority(*self).select_at(queue, 0)
    }

    /// Returns the name under which the strategy is shown.
    pub fn string(&self) -> (r: String)
        ensures
            r@ == Priority::LowestPriority(*self).name(),
    {
        Priority::LowestPriority(*self).string()
    }
}

impl ShortestWithUrgency {
    /// Returns a copy of the task with the lowest score among `queue` now.
    pub fn select(&self, queue: &[Task]) -> (r: Option<Task>)
        ensures
            exists|now: i64| Priority::ShortestWithUrgency(*self).picks(queue@, now as int, r),
    {
        Priority::ShortestWithUrgency(*self).select_at(queue, local_now_millis())
    }

    /// Returns a copy of the task with the lowest score among `queue` when
    /// the time is `now`.
    pub fn select_at(&self, queue: &[Task], now: i64) -> (r: Option<Task>)
        ensures
            Priority::ShortestWithUrgency(*self).picks(queue@, now as int, r),
    {
        Priority::ShortestWithUrgency(*self).select_at(queue, now)
    }

    /// Returns the name under which the strategy is shown.
    pub fn string(&self) -> (r: String)
        ensures
            r@ == Priority::ShortestWithUrgency(*self).name(),
    {
        Priority::ShortestWithUrgency(*self).string()
    }
}

/// The rule that chooses the task to work on: one of seven strategies, with
/// the configuration that the strategy carries.
#[derive(Debug, Clone, Copy, PartialEq, Eq, Structural)]
pub enum Priority {
    FIFO(FIFO),
    Deadline(Deadline),
    Shortest(Shortest),
    Longest(Longest),
    HighestPriority(HighestPriority),
    LowestPriority(LowestPriority),
    ShortestWithUrgency(ShortestWithUrgency),
}

impl Priority {
    /// `a` is strictly ahead of `b` under this strategy when the time is `now`.
    pub open spec fn ahead(self, a: Task, b: Task, now: int) -> bool {
        match self {
            Priority::FIFO(_) => false,
            Priority::Deadline(_) => a.deadline < b.deadline,
            Priority::Shortest(_) => a.duration < b.duration,
            Priority::Longest(_) => a.duration > b.duration,
            Priority::HighestPriority(_) => a.priority.rank() < b.priority.rank(),
            Priority::LowestPriority(_) => a.priority.rank() > b.priority.rank(),
            Priority::ShortestWithUrgency(u) => u.ahead(a, b, now),
        }
    }

    /// Among tasks that tie, the strategy takes the last one rather than the first.
    pub open spec fn takes_last(self) -> bool {
        self is Longest || self is LowestPriority
    }

    /// The strategy reads the clock.
    pub open spec fn uses_clock(self) -> bool {
        self is ShortestWithUrgency
    }

    /// Among the first `n` tasks of `s`, index `i` is the one the strategy
    /// chooses: an eligible task that no eligible task is ahead of, and ahead
    /// of every eligible task that comes before it (or, for a strategy that
    /// takes the last of ties, after it).
    pub open spec fn best_among(self, s: Seq<Task>, n: int, i: int, now: int) -> bool {
        &&& 0 <= i < n <= s.len()
        &&& eligible(s[i])
        &&& forall|k: int| 0 <= k < n && eligible(s[k]) ==> !self.ahead(s[k], s[i], now)
        &&& !self.takes_last() ==> forall|k: int|
            0 <= k < i && eligible(s[k]) ==> self.ahead(s[i], s[k], now)
        &&& self.takes_last() ==> forall|k: int|
            i < k < n && eligible(s[k]) ==> self.ahead(s[i], s[k], now)
    }

    /// Index `i` of `s` is the task the strategy chooses at time `now`.
    pub open spec fn chooses(self, s: Seq<Task>, i: int, now: int) -> bool {
        self.best_among(s, s.len() as int, i, now)
    }

    /// `r` is the index the strategy returns on `s` at time `now`: none when
    /// no task is eligible.
    pub open spec fn picks_index(self, s: Seq<Task>, now: int, r: Option<usize>) -> bool {
        match r {
            None => forall|k: int| 0 <= k < s.len() ==> !eligible(#[trigger] s[k]),
            Some(i) => self.chooses(s, i as int, now),
        }
    }

    /// `r` is the task the strategy returns on `s` at time `now`.
    pub open spec fn picks(self, s: Seq<Task>, now: int, r: Option<Task>) -> bool {
        match r {
            None => forall|k: int| 0 <= k < s.len() ==> !eligible(#[trigger] s[k]),
            Some(t) => exists|i: int| self.chooses(s, i, now) && s[i] == t,
        }
    }

    /// Being ahead is a strict weak order.
    pub proof fn lemma_ahead_order(self, a: Task, b: Task, c: Task, now: int)
        ensures
            !self.ahead(a, a, now),
            self.ahead(a, b, now) && self.ahead(b, c, now) ==> self.ahead(a, c, now),
            self.ahead(a, b, now) ==> self.ahead(a, c, now) || self.ahead(c, b, now),
    {
    }

    /// At most one index of `s` is chosen.
    pub proof fn lemma_choice_unique(self, s: Seq<Task>, i: int, j: int, now: int)
        requires
            self.chooses(s, i, now),
            self.chooses(s, j, now),
        ensures
            i == j,
    {
        if i < j {
            self.lemma_ahead_order(s[i], s[j], s[i], now);
        } else if j < i {
            self.lemma_ahead_order(s[j], s[i], s[j], now);
        }
    }

    /// FIFO chooses exactly the earliest task not flagged completed.
    pub proof fn lemma_fifo_takes_earliest_eligible(self, s: Seq<Task>, i: int, now: int)
        requires
            self is FIFO,
        ensures
            self.chooses(s, i, now) <==> (0 <= i < s.len() && eligible(s[i]) && forall|k: int|
                0 <= k < i ==> !eligible(#[trigger] s[k])),
    {
    }

    /// Decides `ahead(a, b, now)`, or for a strategy that takes the last of
    /// ties, that `b` is not ahead of `a`.
    fn replaces(&self, a: &Task, b: &Task, now: i64) -> (r: bool)
        ensures
            !self.takes_last() ==> r == self.ahead(*a, *b, now as int),
            self.takes_last() ==> r == !self.ahead(*b, *a, now as int),
    {
        match self {
            Priority::FIFO(_) => false,
            Priority::Deadline(_) => a.deadline < b.deadline,
            Priority::Shortest(_) => a.duration < b.duration,
            Priority::Longest(_) => !(b.duration > a.duration),
            Priority::HighestPriority(_) => a.priority.level() < b.priority.level(),
            Priority::LowestPriority(_) => !(b.priority.level() > a.priority.level()),
            Priority::ShortestWithUrgency(u) => {
                let sa = u.score_at(a, now);
                let sb = u.score_at(b, now);
                let ra = a.priority.level();
                let rb = b.priority.level();
                sa < sb || (sa == sb && ra < rb) || (sa == sb && ra == rb && a.id < b.id)
            },
        }
    }

    /// Returns the index of the task this strategy chooses among `queue` when
    /// the time is `now`.
    pub fn select_index_at(&self, queue: &[Task], now: i64) -> (r: Option<usize>)
        ensures
            self.picks_index(queue@, now as int, r),
    {
        let mut best: Option<usize> = None;
        let mut j: usize = 0;
        while j < queue.len()
            invariant
                j <= queue.len(),
                match best {
                    None => forall|k: int| 0 <= k < j ==> !eligible(#[trigger] queue@[k]),
                    Some(b) => self.best_among(queue@, j as int, b as int, now as int),
                },
            decreases queue.len() - j,
        {
            if !queue[j].completed {
                match best {
                    None => {
                        best = Some(j);
                    },
                    Some(b) => {
                        let ghost s = queue@;
                        if self.replaces(&queue[j], &queue[b], now) {
                            proof {
                                assert forall|k: int|
                                    0 <= k < j + 1 && eligible(s[k]) implies !self.ahead(
                                    s[k],
                                    s[j as int],
                                    now as int,
                                ) by {
                                    self.lemma_ahead_order(s[k], s[j as int], s[b as int], now as int);
                                    self.lemma_ahead_order(s[k], s[b as int], s[j as int], now as int);
                                }
                                assert forall|k: int|
                                    0 <= k < j && eligible(s[k]) && !self.takes_last() implies self.ahead(
                                    s[j as int],
                                    s[k],
                                    now as int,
                                ) by {
                                    self.lemma_ahead_order(s[j as int], s[b as int], s[k], now as int);
                                }
                            }
                            best = Some(j);
                        } else {
                            proof {
                                self.lemma_ahead_order(s[b as int], s[j as int], s[b as int], now as int);
                                self.lemma_ahead_order(s[j as int], s[b as int], s[j as int], now as int);
                            }
                        }
                    },
                }
            }
            j += 1;
        }
        best
    }

    /// Returns a copy of the task this strategy chooses among `queue` when the
    /// time is `now`.
    pub fn select_at(&self, queue: &[Task], now: i64) -> (r: Option<Task>)
        ensures
            self.picks(queue@, now as int, r),
    {
        match self.select_index_at(queue, now) {
            None => None,
            Some(i) => Some(queue[i].clone()),
        }
    }

    /// Returns a copy of the task this strategy chooses among `queue` now.
    pub fn select(&self, queue: &[Task]) -> (r: Option<Task>)
        ensures
            exists|now: i64| self.picks(queue@, now as int, r),
            !self.uses_clock() ==> self.picks(queue@, 0, r),
    {
        let now = if let Priority::ShortestWithUrgency(_) = self {
            local_now_millis()
        } else {
            0
        };
        let r = self.select_at(queue, now);
        proof {
            if !self.uses_clock() {
                self.lemma_clock_unused(queue@, now as int, 0, r);
            }
        }
        r
    }

    /// For a strategy that does not read the clock, the time does not change the choice.
    pub proof fn lemma_clock_unused(self, s: Seq<Task>, t1: int, t2: int, r: Option<Task>)
        requires
            !self.uses_clock(),
            self.picks(s, t1, r),
        ensures
            self.picks(s, t2, r),
    {
        if let Some(t) = r {
            let i = choose|i: int| self.chooses(s, i, t1) && s[i] == t;
            assert(self.chooses(s, i, t2));
        }
    }

    /// Returns the name under which the strategy is shown.
    pub fn string(&self) -> (r: String)
        ensures
            r@ == self.name(),
    {
        match self {
            Priority::FIFO(_) => "FIFO".to_owned(),
            Priority::Deadline(_) => "Deadline".to_owned(),
            Priority::Shortest(_) => "Shortest Duration".to_owned(),
            Priority::Longest(_) => "Longest Duration".to_owned(),
            Priority::HighestPriority(_) => "Highest Priority".to_owned(),
            Priority::LowestPriority(_) => "Lowest Priority".to_owned(),
            Priority::ShortestWithUrgency(_) => "Shortest Duration with Urgency".to_owned(),
        }
    }

    /// The name under which the strategy is shown.
    pub open spec fn name(self) -> Seq<char> {
        match self {
            Priority::FIFO(_) => "FIFO"@,
            Priority::Deadline(_) => "Deadline"@,
            Priority::Shortest(_) => "Shortest Duration"@,
            Priority::Longest(_) => "Longest Duration"@,
            Priority::HighestPriority(_) => "Highest Priority"@,
            Priority::LowestPriority(_) => "Lowest Priority"@,
            Priority::ShortestWithUrgency(_) => "Shortest Duration with Urgency"@,
        }
    }
}

} // verus!

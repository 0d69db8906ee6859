use vstd::prelude::*;

use crate::queue::{ticked, TaskQueue, TickOutcome};

verus! {

/// Scheduler configuration chosen by the user or the system.
pub struct SchedulerConfig {
    /// The file that holds the task data.
    pub data_path: String,
    /// How often, in minutes, the task data is written to storage.
    pub write_timeout: usize,
    /// How often, in milliseconds, the tasks are updated.
    pub scheduler_timeout: usize,
}

/// An error in the scheduling logic.
pub struct SchedulingError(pub String);

/// Whether the scheduling loop still runs.
#[derive(Debug, Clone, Copy, PartialEq, Eq, Structural)]
pub enum Phase {
    Running,
    Stopped,
}

/// What the loop does after a step.
#[derive(Debug, Clone, Copy, PartialEq, Eq, Structural)]
pub enum Action {
    /// Sleep for one tick, then step again.
    Sleep,
    /// Write the queue to storage, sleep for one tick, then step again.
    SaveThenSleep,
    /// Write the queue to storage one last time and leave the loop.
    SaveThenExit,
    /// Leave the loop: it had already stopped.
    Exit,
}

/// The milliseconds in a minute.
pub const MILLIS_PER_MINUTE: u64 = 60_000;

/// The decisions of the scheduling loop: when to tick, when to write the
/// queue to storage, and when to stop.
pub struct SchedulerState {
    phase: Phase,
    tick_ms: i64,
    write_interval_ms: u64,
    last_save_ms: u64,
}

impl SchedulerState {
    #[verifier::type_invariant]
    spec fn tick_not_negative(self) -> bool {
        self.tick_ms >= 0
    }

    /// Whether the loop still runs.
    pub closed spec fn phase(&self) -> Phase {
        self.phase
    }

    /// The work, in milliseconds, that one tick takes off the chosen task.
    pub closed spec fn tick_ms(&self) -> int {
        self.tick_ms as int
    }

    /// The time, in milliseconds, between two writes to storage.
    pub closed spec fn write_interval_ms(&self) -> int {
        self.write_interval_ms as int
    }

    /// The loop's clock, in milliseconds since it started, at the last write.
    pub closed spec fn last_save_ms(&self) -> int {
        self.last_save_ms as int
    }

    /// Reads the loop's timing from `config`; fails when the tick does not
    /// fit a signed 64-bit count of milliseconds, or the write interval an
    /// unsigned one.
    pub fn new(config: &SchedulerConfig) -> (r: Result<SchedulerState, SchedulingError>)
        ensures
            r is Ok <==> config.scheduler_timeout <= i64::MAX && config.write_timeout
                * MILLIS_PER_MINUTE <= u64::MAX,
            r matches Ok(s) ==> s.phase() == Phase::Running && s.tick_ms()
                == config.scheduler_timeout && s.write_interval_ms() == config.write_timeout
                * MILLIS_PER_MINUTE && s.last_save_ms() == 0,
            r matches Err(e) ==> e.0@ == "invalid scheduler configuration"@,
    {
        if config.scheduler_timeout as u64 > i64::MAX as u64 {
            return Err(SchedulingError("invalid scheduler configuration".to_owned()));
        }
        let minutes = config.write_timeout as u64;
        if minutes > u64::MAX / MILLIS_PER_MINUTE {
            return Err(SchedulingError("invalid scheduler configuration".to_owned()));
        }
        Ok(
            SchedulerState {
                phase: Phase::Running,
                tick_ms: config.scheduler_timeout as i64,
                write_interval_ms: minutes * MILLIS_PER_MINUTE,
                last_save_ms: 0,
            },
        )
    }

    /// Returns whether the loop still runs.
    pub fn is_running(&self) -> (r: bool)
        ensures
            r == (self.phase() == Phase::Running),
    {
        match self.phase {
            Phase::Running => true,
            Phase::Stopped => false,
        }
    }

    /// One step of the loop, at `elapsed_ms` on the loop's clock and `now` on
    /// the wall clock, with `cancelled` telling whether the loop was asked to
    /// stop. A stopped loop does nothing. A cancelled one disables the queue
    /// and stops, with a last write. Otherwise the queue ticks, and a write
    /// is due when the write interval has passed since the last one.
    pub fn step(&mut self, queue: &mut TaskQueue, cancelled: bool, elapsed_ms: u64, now: i64) -> (r:
        (Action, TickOutcome))
        requires
            old(queue).wf(),
            old(queue)@.pending.len() + old(queue)@.completed.len() < usize::MAX,
        ensures
            final(queue).wf(),
            final(self).tick_ms() == old(self).tick_ms(),
            final(self).write_interval_ms() == old(self).write_interval_ms(),
            old(self).phase() == Phase::Stopped ==> r == (Action::Exit, TickOutcome::Paused)
                && final(queue)@ == old(queue)@ && final(self).phase() == Phase::Stopped
                && final(self).last_save_ms() == old(self).last_save_ms(),
            old(self).phase() == Phase::Running && cancelled ==> r == (
                Action::SaveThenExit,
                TickOutcome::Paused,
            ) && final(queue)@ == (crate::queue::QueueView { enabled: false, ..old(queue)@ })
                && final(self).phase() == Phase::Stopped && final(self).last_save_ms()
                == old(self).last_save_ms(),
            old(self).phase() == Phase::Running && !cancelled ==> {
                let due = elapsed_ms >= old(self).last_save_ms() && elapsed_ms
                    - old(self).last_save_ms() >= old(self).write_interval_ms();
                &&& ticked(old(queue)@, final(queue)@, old(self).tick_ms(), now as int, r.1)
                &&& final(self).phase() == Phase::Running
                &&& r.0 == (if due {
                    Action::SaveThenSleep
                } else {
                    Action::Sleep
                })
                &&& final(self).last_save_ms() == (if due {
                    elapsed_ms as int
                } else {
                    old(self).last_save_ms()
                })
            },
    {
        proof {
            use_type_invariant(&*self);
        }
        match self.phase {
            Phase::Stopped => (Action::Exit, TickOutcome::Paused),
            Phase::Running => {
                if cancelled {
                    queue.set_enabled(false);
                    self.phase = Phase::Stopped;
                    (Action::SaveThenExit, TickOutcome::Paused)
                } else {
                    let outcome = queue.tick(self.tick_ms, now);
                    let due = elapsed_ms >= self.last_save_ms && elapsed_ms - self.last_save_ms
                        >= self.write_interval_ms;
                    if due {
                        self.last_save_ms = elapsed_ms;
                        (Action::SaveThenSleep, outcome)
                    } else {
                        (Action::Sleep, outcome)
                    }
                }
            },
        }
    }
}

} // verus!

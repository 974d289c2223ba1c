//! When tasks are ready, and who owns them.
use vstd::prelude::*;

use crate::runtime::arc::{
    block, nether_rt_arc_alloc, nether_rt_arc_retain, released, retained, Allocation, Header, Release, HEADER_SIZE,
};

verus! {

/// The bytes of a task before its output.
pub const TASK_HEADER_SIZE: usize = 16;

/// The milliseconds in `secs` seconds and `nanos` nanoseconds.
pub open spec fn millis(secs: u64, nanos: u32) -> int {
    secs * 1000 + nanos / 1_000_000
}

/// The time in milliseconds since the epoch, in 64 bits. `since_epoch` is the
/// clock's time in seconds and nanoseconds; a clock set before the epoch has
/// none and counts as the epoch.
pub fn unix_millis(since_epoch: Option<(u64, u32)>) -> (r: u64)
    ensures
        r == match since_epoch {
            None => 0,
            Some((secs, nanos)) => millis(secs, nanos) % 0x1_0000_0000_0000_0000,
        },
{
    match since_epoch {
        None => 0,
        Some((secs, nanos)) => {
            let total: u128 = secs as u128 * 1000 + (nanos / 1_000_000) as u128;
            (total % 0x1_0000_0000_0000_0000) as u64
        },
    }
}

/// The time at which a sleep that starts at `now` is over; the largest time
/// if there is no such time.
pub open spec fn deadline(now: u64, millis: u64) -> u64 {
    if now + millis > u64::MAX {
        u64::MAX
    } else {
        (now + millis) as u64
    }
}

/// The bytes of a sleeping task.
pub const TIMER_TASK_SIZE: i64 = 24;

/// A new sleeping task: the block to ask for, and what to write into it.
pub struct TimerTask {
    pub block: Allocation<Header>,
    /// Whether it has an output that is dropped with it.
    pub output_drop: bool,
    pub deadline_millis: u64,
}

impl TimerTask {
    /// The task, as far as polling goes.
    pub open spec fn polled(self) -> Task {
        Task::Timer { deadline_millis: self.deadline_millis }
    }
}

/// A task that sleeps for `millis` milliseconds from `now` on. Its one
/// reference belongs to the caller, and it has no output to drop.
pub fn nether_rt_timer_sleep(now: u64, millis: u64) -> (r: TimerTask)
    ensures
        r.deadline_millis == deadline(now, millis),
        r.block.header == Header::fresh(TIMER_TASK_SIZE, true),
        r.block.layout == block(HEADER_SIZE, TIMER_TASK_SIZE),
        !r.output_drop,
        forall|later: u64| #[trigger] ready(Some(r.polled()), later) <==> later >= deadline(now, millis),
{
    TimerTask {
        block: nether_rt_arc_alloc(TIMER_TASK_SIZE, true),
        output_drop: false,
        deadline_millis: now.saturating_add(millis),
    }
}

/// Whether a sleep is over.
pub fn timer_poll(now: u64, deadline_millis: u64) -> (r: bool)
    ensures
        r == (now >= deadline_millis),
{
    now >= deadline_millis
}

/// A task, as far as polling goes.
#[derive(Clone, Copy, Debug, PartialEq, Eq, Structural)]
pub enum Task {
    /// Its output was there from the start.
    Completed,
    /// It sleeps until a time.
    Timer { deadline_millis: u64 },
    /// Its own poll callback has answered.
    Polled { ready: bool },
}

/// Whether a task is ready at a time. A null task always is.
pub open spec fn ready(task: Option<Task>, now: u64) -> bool {
    match task {
        None => true,
        Some(Task::Completed) => true,
        Some(Task::Timer { deadline_millis }) => now >= deadline_millis,
        Some(Task::Polled { ready }) => ready,
    }
}

/// A task that was completed synchronously is ready.
pub fn nether_rt_task_completed_poll() -> (r: bool)
    ensures
        r,
{
    true
}

/// Polls a task once: whether its output is ready.
pub fn nether_rt_task_poll(task: Option<Task>, now: u64) -> (r: bool)
    ensures
        r == ready(task, now),
{
    match task {
        None => true,
        Some(t) => match t {
            Task::Completed => nether_rt_task_completed_poll(),
            Task::Timer { deadline_millis } => timer_poll(now, deadline_millis),
            Task::Polled { ready } => ready,
        },
    }
}

/// What drives a task does next.
#[derive(Clone, Copy, Debug, PartialEq, Eq, Structural)]
pub enum Drive {
    /// The task is done.
    Finish,
    /// Let others run, then poll again.
    Again,
}

/// What a driver does after a poll.
pub fn drive(ready: bool) -> (r: Drive)
    ensures
        r == (if ready {
            Drive::Finish
        } else {
            Drive::Again
        }),
{
    if ready {
        Drive::Finish
    } else {
        Drive::Again
    }
}

/// Where in a task the output starts that has to be dropped with it; none
/// without an output callback.
pub fn nether_rt_task_drop(output_drop: bool) -> (r: Option<usize>)
    ensures
        r == (if output_drop {
            Some(TASK_HEADER_SIZE)
        } else {
            None
        }),
{
    if output_drop {
        Some(TASK_HEADER_SIZE)
    } else {
        None
    }
}

/// A task with the two references that spawning adds: one for the handle and
/// one for the scheduler, which releases it when the task is done.
pub fn nether_rt_task_spawn(task: Option<Header>) -> (r: Option<Header>)
    requires
        task is Some ==> task->0.strong < i64::MAX - 1,
    ensures
        r == retained(retained(task)),
{
    nether_rt_arc_retain(nether_rt_arc_retain(task))
}

/// A sleep is over from its deadline on, and not before. A sleep whose end is
/// past the largest time lasts until the largest time.
pub proof fn law_sleep_lasts_until_its_deadline(start: u64, millis: u64, now: u64)
    ensures
        ready(Some(Task::Timer { deadline_millis: deadline(start, millis) }), now) <==> now >= start + millis
            || now == u64::MAX,
{
}

/// A sleeping task that is ready stays ready as time goes on.
pub proof fn law_ready_stays_ready(task: Option<Task>, now: u64, later: u64)
    requires
        ready(task, now),
        now <= later,
    ensures
        ready(task, later),
{
}

/// The scheduler's reference and the handle's are independent: after both are
/// released, in either order, the task has the references it had before, and
/// neither of the two releases was its last.
pub proof fn law_spawned_references_balance(task: Header)
    requires
        0 < task.strong < i64::MAX - 1,
    ensures
        ({
            let first = released(retained(retained(Some(task))));
            let second = released(first.0);
            &&& first.1 == Release::Kept
            &&& second == (Some(task), Release::Kept)
        }),
{
}

} // verus!

//! Threads: what a spawn shares, what a thread does, and what a join waits for.
use vstd::prelude::*;

use crate::runtime::arc::{nether_rt_arc_retain, released, retained, Header, Release};

verus! {

/// The handle of a spawned thread, until it is joined.
#[derive(Debug)]
pub struct ThreadState<H> {
    pub handle: Option<H>,
}

/// A spawned thread's state.
pub struct Spawned<H> {
    /// The closure's environment, with the reference that the thread owns
    /// and releases at its end.
    pub env: Option<Header>,
    pub state: ThreadState<H>,
}

/// Shares a closure's environment with a thread that is known by `handle`.
pub fn nether_rt_thread_spawn<H>(env: Option<Header>, handle: H) -> (r: Spawned<H>)
    requires
        env is Some ==> env->0.strong < i64::MAX,
    ensures
        r.env == retained(env),
        r.state.handle == Some(handle),
{
    Spawned { env: nether_rt_arc_retain(env), state: ThreadState { handle: Some(handle) } }
}

/// The thread that a join waits for, and the state after it.
pub open spec fn joined<H>(state: ThreadState<H>) -> (Option<H>, ThreadState<H>) {
    (state.handle, ThreadState { handle: None })
}

/// The thread to wait for: the spawned one at the first join, none after it.
pub fn nether_rt_thread_join<H>(state: &mut ThreadState<H>) -> (r: Option<H>)
    ensures
        (r, *final(state)) == joined(*old(state)),
{
    state.handle.take()
}

/// What a thread does.
#[derive(Clone, Copy, Debug, PartialEq, Eq, Structural)]
pub enum Step {
    /// It runs the closure on its environment.
    RunCode,
    /// It gives up its reference to the environment.
    ReleaseEnv,
    /// It is done.
    End,
}

/// What follows a step that has been taken.
pub open spec fn following(step: Step) -> Step {
    match step {
        Step::RunCode => Step::ReleaseEnv,
        Step::ReleaseEnv => Step::End,
        Step::End => Step::End,
    }
}

/// The work that a thread has left.
#[derive(Debug)]
pub struct Work {
    pub next: Step,
}

impl Work {
    /// The work of a new thread.
    pub fn new() -> (r: Self)
        ensures
            r.next == Step::RunCode,
    {
        Work { next: Step::RunCode }
    }

    /// The step to take now.
    pub fn take(&mut self) -> (r: Step)
        ensures
            r == old(self).next,
            final(self).next == following(old(self).next),
    {
        let now = self.next;
        self.next = match now {
            Step::RunCode => Step::ReleaseEnv,
            Step::ReleaseEnv => Step::End,
            Step::End => Step::End,
        };
        now
    }
}

/// How a thread that a join waited for came to its end.
#[derive(Clone, Copy, Debug, PartialEq, Eq, Structural)]
pub enum Outcome {
    Finished,
    Panicked,
}

/// Whether a join panics, given the end of the thread that it waited for.
pub open spec fn join_panics(waited: Option<Outcome>) -> bool {
    waited == Some(Outcome::Panicked)
}

/// Whether a join panics, given the end of the thread that it waited for: the
/// panic of a spawned closure comes through at the join that waits for it.
pub fn passes_panic_on(waited: Option<Outcome>) -> (r: bool)
    ensures
        r == join_panics(waited),
{
    match waited {
        Some(Outcome::Panicked) => true,
        _ => false,
    }
}

/// A spawned thread in the course of a program whose closure leaves the counts
/// of its environment as it found them.
pub struct ThreadLife<H> {
    pub env: Option<Header>,
    pub state: ThreadState<H>,
    pub next: Step,
    /// How often the closure was run.
    pub runs: nat,
    /// Whether the closure panicked: the thread then takes no further step.
    pub panicked: bool,
}

impl<H> ThreadLife<H> {
    /// Right after the spawn.
    pub open spec fn begin(env: Option<Header>, handle: H) -> ThreadLife<H> {
        ThreadLife {
            env: retained(env),
            state: ThreadState { handle: Some(handle) },
            next: Step::RunCode,
            runs: 0,
            panicked: false,
        }
    }

    /// Whether the thread has come to its end.
    pub open spec fn ended(self) -> bool {
        self.next is End || self.panicked
    }

    /// After one step of the thread, in which the closure may panic.
    pub open spec fn stepped(self, panics: bool) -> ThreadLife<H> {
        if self.ended() {
            self
        } else {
            match self.next {
                Step::RunCode => ThreadLife {
                    next: following(self.next),
                    runs: self.runs + 1,
                    panicked: panics,
                    ..self
                },
                _ => ThreadLife { env: released(self.env).0, next: following(self.next), ..self },
            }
        }
    }

    /// After `n` steps of the thread.
    pub open spec fn after(self, panics: bool, n: nat) -> ThreadLife<H>
        decreases n,
    {
        if n == 0 {
            self
        } else {
            self.after(panics, (n - 1) as nat).stepped(panics)
        }
    }

    /// How the thread ended.
    pub open spec fn outcome(self) -> Outcome {
        if self.panicked {
            Outcome::Panicked
        } else {
            Outcome::Finished
        }
    }

    /// What a join learns that comes back once the thread has ended.
    pub open spec fn waited(self) -> Option<Outcome> {
        match joined(self.state).0 {
            Some(_) => Some(self.outcome()),
            None => None,
        }
    }

    /// After such a join.
    pub open spec fn then_joined(self) -> ThreadLife<H> {
        ThreadLife { state: joined(self.state).1, ..self }
    }
}

proof fn lemma_thread_life<H>(env: Option<Header>, handle: H, panics: bool, n: nat)
    requires
        env is Some ==> 0 < env->0.strong < i64::MAX,
    ensures
        ({
            let l = ThreadLife::begin(env, handle).after(panics, n);
            &&& l.state.handle == Some(handle)
            &&& l.runs == (if n == 0 {
                0nat
            } else {
                1
            })
            &&& l.panicked == (panics && n > 0)
            &&& l.next == (if n == 0 {
                Step::RunCode
            } else if n == 1 || panics {
                Step::ReleaseEnv
            } else {
                Step::End
            })
            &&& l.env == (if l.next is End {
                env
            } else {
                retained(env)
            })
        }),
    decreases n,
{
    if n > 0 {
        lemma_thread_life(env, handle, panics, (n - 1) as nat);
    }
}

/// A thread ends after its second step at the latest, and not before it has
/// run its closure.
pub proof fn law_threads_end<H>(env: Option<Header>, handle: H, panics: bool, n: nat)
    requires
        env is Some ==> 0 < env->0.strong < i64::MAX,
    ensures
        n >= 2 ==> ThreadLife::begin(env, handle).after(panics, n).ended(),
        ThreadLife::begin(env, handle).after(panics, n).ended() ==> n > 0,
{
    lemma_thread_life(env, handle, panics, n);
}

/// Once a join has come back, the closure has run exactly once and the count of
/// its environment is what it was before the spawn. The join panics exactly if
/// the closure did; a further join panics in no case and changes nothing.
pub proof fn law_join_waits_for_one_run<H>(env: Option<Header>, handle: H, panics: bool, n: nat)
    requires
        env is Some ==> 0 < env->0.strong < i64::MAX,
        ThreadLife::begin(env, handle).after(panics, n).ended(),
    ensures
        ({
            let l = ThreadLife::begin(env, handle).after(panics, n);
            let after = l.then_joined();
            &&& after.runs == 1
            &&& !panics ==> after.env == env
            &&& join_panics(l.waited()) == panics
            &&& after.waited() is None
            &&& !join_panics(after.waited())
            &&& after.then_joined() == after
        }),
{
    lemma_thread_life(env, handle, panics, n);
}

/// Only the first join waits; any later one finds nothing to wait for and
/// changes nothing.
pub proof fn law_second_join_is_a_no_op<H>(state: ThreadState<H>)
    ensures
        joined(joined(state).1) == (None::<H>, joined(state).1),
{
}

/// The reference that a thread owns is given back at its end: the environment
/// is then as it was before the spawn, and its owner still holds it.
pub proof fn law_thread_gives_its_reference_back(env: Header)
    requires
        0 < env.strong < i64::MAX,
    ensures
        released(retained(Some(env))) == (Some(env), Release::Kept),
{
}

} // verus!

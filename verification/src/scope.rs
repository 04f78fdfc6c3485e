//! Submitting jobs.
use crate::messaging::{Failure, Flag, Messaging, MessagingView};
use crate::pool::{after_drain, drained, gathered, over_backlog, Outcome, Pool, Stage, Step};
use crate::task::Task;
use vstd::prelude::*;

verus! {

/// The scope in which jobs without a state are submitted.
pub struct Scope<'pool> {
    pool: &'pool Pool,
}

/// The scope in which jobs are submitted that take the worker's state.
pub struct ScopeWithState<'pool> {
    pool: &'pool Pool,
}

/// What submitting a job comes to.
#[derive(Debug, PartialEq, Eq)]
pub enum Submission<F> {
    /// Too many jobs are pending already: sleep until a worker notifies the caller, then
    /// submit what is handed back again.
    Blocked(F),
    /// The job is queued: notify one worker and let go of the lock.
    Queued,
    /// The job is queued, and now too many are pending: notify one worker, sleep until a
    /// worker notifies the caller, then ask what has become of it (`Pool::settled`).
    Settling,
    /// A worker is dead: let go of the lock and panic.
    Panic(Failure),
}

/// What submitting `f` to a pool with this backlog comes to.
pub open spec fn submission_of<F, J, M>(
    backlog: Option<usize>,
    f: F,
    m: MessagingView<J, M>,
) -> Submission<F> {
    if m.panic_detected {
        Submission::Panic(Failure::WorkerPanicked)
    } else if over_backlog(backlog, m.job_queue.len()) {
        Submission::Blocked(f)
    } else if over_backlog(backlog, m.job_queue.len() + 1) {
        Submission::Settling
    } else {
        Submission::Queued
    }
}

/// The shared value after `job` has been submitted: unless too many jobs are pending
/// already, it is the last of the queue.
pub open spec fn messaging_after_execute<J, M>(
    backlog: Option<usize>,
    job: J,
    m: MessagingView<J, M>,
) -> MessagingView<J, M> {
    if over_backlog(backlog, m.job_queue.len()) {
        m
    } else {
        MessagingView { job_queue: m.job_queue.push(job), ..m }
    }
}

/// The shared value once the workers are asked to make themselves a state.
pub open spec fn asking_for_state<J, M>(m: MessagingView<J, M>, state_maker: M) -> MessagingView<
    J,
    M,
> {
    MessagingView { state_maker: Some(state_maker), ..m.asking(Flag::SetState) }
}

/// The shared value once the workers that have made their state are asked to go on.
pub open spec fn releasing_state<J, M>(m: MessagingView<J, M>) -> MessagingView<J, M> {
    MessagingView { state_maker: None, ..m.asking(Flag::Resume) }
}

/// The shared value after the caller's turn at `stage` of a meeting that gives every
/// worker a state.
pub open spec fn messaging_after_with_state<J, M>(
    nthreads: nat,
    stage: Stage<M>,
    m: MessagingView<J, M>,
) -> MessagingView<J, M> {
    match stage {
        Stage::Begin(state_maker) => asking_for_state(m, state_maker),
        Stage::Gather => m,
        Stage::Release => after_drain(nthreads, releasing_state(m)),
        Stage::Drain => after_drain(nthreads, m),
    }
}

/// The caller's turn at `stage` of a meeting that gives every worker a state, where the
/// meeting ends in `value`.
pub open spec fn with_state_step<J, M, T>(
    nthreads: nat,
    stage: Stage<M>,
    m: MessagingView<J, M>,
    value: T,
) -> Step<M, T> {
    Step {
        notify_all: stage is Begin || stage is Release,
        outcome: match stage {
            Stage::Begin(state_maker) => gathered(nthreads, asking_for_state(m, state_maker)),
            Stage::Gather => gathered(nthreads, m),
            Stage::Release => drained(nthreads, releasing_state(m), value),
            Stage::Drain => drained(nthreads, m, value),
        },
    }
}

impl<'pool> Scope<'pool> {
    /// The pool whose workers run the jobs.
    pub closed spec fn pool(self) -> Pool {
        *self.pool
    }

    /// The scope of the same pool whose jobs take the worker's state.
    pub closed spec fn stateful(self) -> ScopeWithState<'pool> {
        ScopeWithState { pool: self.pool }
    }

    pub(crate) fn of(pool: &'pool Pool) -> (scope: Self)
        ensures
            scope.pool() == *pool,
    {
        Scope { pool }
    }

    /// The meeting that gives every worker a state, one turn of the caller with the lock
    /// at a time, from `Stage::Begin` with the state maker on. It ends in a scope whose
    /// jobs take that state.
    pub fn with_state<J, M>(
        &self,
        stage: Stage<M>,
        messaging: &mut Messaging<J, M>,
    ) -> (step: Step<M, ScopeWithState<'pool>>)
        ensures
            step == with_state_step(
                self.pool().nthreads() as nat,
                stage,
                old(messaging)@,
                self.stateful(),
            ),
            self.stateful().pool() == self.pool(),
            final(messaging)@ == messaging_after_with_state(
                self.pool().nthreads() as nat,
                stage,
                old(messaging)@,
            ),
            old(messaging)@.wf() ==> final(messaging)@.wf(),
            // The workers are asked to make their states at first, with the maker at hand, and
            // to go on once all have, without it; each time the answers are counted anew.
            step.notify_all <==> stage is Begin || stage is Release,
            stage matches Stage::Begin(maker) ==> final(messaging).flag == Some(Flag::SetState)
                && final(messaging).state_maker == Some(maker),
            stage is Release ==> final(messaging).flag == Some(Flag::Resume) && final(messaging).state_maker is None,
            final(messaging).completion_counter == (if stage is Begin || stage is Release {
                0
            } else {
                old(messaging).completion_counter
            }),
            // The caller waits until every worker has answered. It panics over a dead worker
            // while the states are made, and only then.
            stage is Begin && !old(messaging).panic_detected ==> step.outcome == Outcome::<
                M,
                ScopeWithState<'pool>,
            >::Wait(Stage::Gather),
            stage is Gather && !old(messaging).panic_detected ==> step.outcome == (if old(
                messaging,
            ).completion_counter == self.pool().nthreads() {
                Outcome::<M, ScopeWithState<'pool>>::Relock(Stage::Release)
            } else {
                Outcome::Wait(Stage::Gather)
            }),
            step.outcome is Panic <==> old(messaging).panic_detected && (stage is Begin
                || stage is Gather),
            step.outcome matches Outcome::Panic(failure) ==> failure == Failure::WorkerPanicked,
            stage is Release ==> step.outcome == Outcome::<M, ScopeWithState<'pool>>::Wait(
                Stage::Drain,
            ),
            stage is Drain && old(messaging).completion_counter == self.pool().nthreads() ==> (
            step.outcome matches Outcome::Done(scope) && scope.pool() == self.pool()),
            stage is Drain && old(messaging).completion_counter != self.pool().nthreads()
                ==> step.outcome == Outcome::<M, ScopeWithState<'pool>>::Wait(Stage::Drain),
            // The flag comes down when the meeting is over, and stays up while it waits.
            step.outcome is Done ==> final(messaging).flag is None,
            (stage is Gather || stage is Drain) && !(step.outcome is Done) ==> final(messaging).flag
                == old(messaging).flag,
            // Whatever else the threads share stays as it is.
            stage is Gather || stage is Drain ==> final(messaging).state_maker == old(
                messaging,
            ).state_maker,
            final(messaging).job_queue@ == old(messaging).job_queue@,
            final(messaging).panic_detected == old(messaging).panic_detected,
    {
        let scope = ScopeWithState { pool: self.pool };
        match stage {
            Stage::Begin(state_maker) => {
                messaging.completion_counter = 0;
                messaging.flag = Some(Flag::SetState);
                messaging.state_maker = Some(state_maker);
                Step { notify_all: true, outcome: self.pool.gather(messaging) }
            },
            Stage::Gather => Step { notify_all: false, outcome: self.pool.gather(messaging) },
            Stage::Release => {
                messaging.completion_counter = 0;
                messaging.state_maker = None;
                messaging.flag = Some(Flag::Resume);
                Step { notify_all: true, outcome: self.pool.drain(messaging, scope) }
            },
            Stage::Drain => {
                Step { notify_all: false, outcome: self.pool.drain(messaging, scope) }
            },
        }
    }

    /// Submits a job, with the lock held.
    pub fn execute<F, G, M>(
        &self,
        f: F,
        messaging: &mut Messaging<Task<F, G>, M>,
    ) -> (submission: Submission<F>)
        ensures
            submission == submission_of(self.pool().backlog(), f, old(messaging)@),
            final(messaging)@ == messaging_after_execute(
                self.pool().backlog(),
                Task::FnStateless(f),
                old(messaging)@,
            ),
            submission is Queued ==> !over_backlog(
                self.pool().backlog(),
                final(messaging)@.job_queue.len(),
            ),
            old(messaging)@.wf() ==> final(messaging)@.wf(),
            // It panics where a panic is known, and only there; otherwise it waits for nothing
            // but the backlog.
            old(messaging).panic_detected <==> submission == Submission::<F>::Panic(
                Failure::WorkerPanicked,
            ),
            submission is Queued <==> !old(messaging).panic_detected && (
            self.pool().backlog() matches Some(allowed) ==> old(messaging).job_queue@.len() + 1
                <= allowed),
            submission is Settling <==> !old(messaging).panic_detected && (
            self.pool().backlog() matches Some(allowed) && old(messaging).job_queue@.len()
                == allowed),
            submission matches Submission::Blocked(again) ==> again == f && (
            self.pool().backlog() matches Some(allowed) && old(messaging).job_queue@.len()
                > allowed),
            // The job is the last of the queue, unless more jobs are pending already than the
            // backlog; whatever else the threads share stays as it is.
            final(messaging).job_queue@ == (if self.pool().backlog() matches Some(allowed) && old(
                messaging,
            ).job_queue@.len() > allowed {
                old(messaging).job_queue@
            } else {
                old(messaging).job_queue@.push(Task::FnStateless(f))
            }),
            final(messaging).flag == old(messaging).flag,
            final(messaging).completion_counter == old(messaging).completion_counter,
            final(messaging).panic_detected == old(messaging).panic_detected,
            final(messaging).state_maker == old(messaging).state_maker,
    {
        if self.pool.is_full(messaging.job_queue.len()) {
            if messaging.panic_detected {
                return Submission::Panic(Failure::WorkerPanicked);
            }
            return Submission::Blocked(f);
        }
        enqueue(self.pool, Task::FnStateless(f), messaging)
    }
}

impl<'pool> ScopeWithState<'pool> {
    /// The pool whose workers run the jobs.
    pub closed spec fn pool(self) -> Pool {
        *self.pool
    }

    /// Submits a job that takes the worker's state, with the lock held.
    pub fn execute<F, G, M>(
        &self,
        f: G,
        messaging: &mut Messaging<Task<F, G>, M>,
    ) -> (submission: Submission<G>)
        ensures
            submission == submission_of(self.pool().backlog(), f, old(messaging)@),
            final(messaging)@ == messaging_after_execute(
                self.pool().backlog(),
                Task::FnState(f),
                old(messaging)@,
            ),
            submission is Queued ==> !over_backlog(
                self.pool().backlog(),
                final(messaging)@.job_queue.len(),
            ),
            old(messaging)@.wf() ==> final(messaging)@.wf(),
            // It panics where a panic is known, and only there; otherwise it waits for nothing
            // but the backlog.
            old(messaging).panic_detected <==> submission == Submission::<G>::Panic(
                Failure::WorkerPanicked,
            ),
            submission is Queued <==> !old(messaging).panic_detected && (
            self.pool().backlog() matches Some(allowed) ==> old(messaging).job_queue@.len() + 1
                <= allowed),
            submission is Settling <==> !old(messaging).panic_detected && (
            self.pool().backlog() matches Some(allowed) && old(messaging).job_queue@.len()
                == allowed),
            submission matches Submission::Blocked(again) ==> again == f && (
            self.pool().backlog() matches Some(allowed) && old(messaging).job_queue@.len()
                > allowed),
            // The job is the last of the queue, unless more jobs are pending already than the
            // backlog; whatever else the threads share stays as it is.
            final(messaging).job_queue@ == (if self.pool().backlog() matches Some(allowed) && old(
                messaging,
            ).job_queue@.len() > allowed {
                old(messaging).job_queue@
            } else {
                old(messaging).job_queue@.push(Task::FnState(f))
            }),
            final(messaging).flag == old(messaging).flag,
            final(messaging).completion_counter == old(messaging).completion_counter,
            final(messaging).panic_detected == old(messaging).panic_detected,
            final(messaging).state_maker == old(messaging).state_maker,
    {
        if self.pool.is_full(messaging.job_queue.len()) {
            if messaging.panic_detected {
                return Submission::Panic(Failure::WorkerPanicked);
            }
            return Submission::Blocked(f);
        }
        enqueue(self.pool, Task::FnState(f), messaging)
    }
}

/// Queues a job that is admitted.
fn enqueue<J, M, F>(pool: &Pool, job: J, messaging: &mut Messaging<J, M>) -> (submission:
    Submission<F>)
    ensures
        submission == (if old(messaging)@.panic_detected {
            Submission::<F>::Panic(Failure::WorkerPanicked)
        } else if over_backlog(pool.backlog(), old(messaging)@.job_queue.len() + 1) {
            Submission::Settling
        } else {
            Submission::Queued
        }),
        final(messaging)@ == (MessagingView {
            job_queue: old(messaging)@.job_queue.push(job),
            ..old(messaging)@
        }),
{
    messaging.job_queue.push_back(job);
    if messaging.panic_detected {
        return Submission::Panic(Failure::WorkerPanicked);
    }
    if pool.is_full(messaging.job_queue.len()) {
        return Submission::Settling;
    }
    Submission::Queued
}

} // verus!

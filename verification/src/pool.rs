//! The pool as its caller sees it, and how the caller meets the workers.
use crate::messaging::{Failure, Flag, Messaging, MessagingView};
use crate::scope::Scope;
use vstd::prelude::*;

verus! {

/// The number of logical CPUs, as `num_cpus::get` finds it on this machine.
///
/// Its documentation promises at least one. The number depends on the machine, on the
/// affinity of the calling thread and on its control group, so nothing else is said.
pub assume_specification[ num_cpus::get ]() -> (cpus: usize)
    ensures
        cpus >= 1,
;

/// A number of worker threads, and how many jobs may be pending when a submission
/// returns.
pub struct Pool {
    nthreads: usize,
    backlog: Option<usize>,
}

/// Where the caller stands in a meeting with all workers: it asks them to gather,
/// waits until each of them has answered, and then lets them go on in the same way.
/// `B` is what the meeting begins with.
#[derive(Debug, PartialEq, Eq)]
pub enum Stage<B> {
    /// The workers are not asked yet.
    Begin(B),
    /// The workers have been asked to gather.
    Gather,
    /// All workers have gathered.
    Release,
    /// The workers have been asked to go on.
    Drain,
}

/// What the caller does after its turn with the lock.
#[derive(Debug, PartialEq, Eq)]
pub enum Outcome<B, T> {
    /// Sleep until a worker notifies the caller, then go on at the stage.
    Wait(Stage<B>),
    /// Let go of the lock, take it again and go on at the stage.
    Relock(Stage<B>),
    /// Let go of the lock and panic.
    Panic(Failure),
    /// Let go of the lock: the meeting is over.
    Done(T),
}

/// The caller's turn with the lock.
#[derive(Debug, PartialEq, Eq)]
pub struct Step<B, T> {
    /// The workers have been asked something: notify all of them.
    pub notify_all: bool,
    /// What comes next.
    pub outcome: Outcome<B, T>,
}

/// What has become of a submission that had to wait once its job was queued.
#[derive(Clone, Copy, Debug, PartialEq, Eq, Structural)]
pub enum Settlement {
    /// Too many jobs are pending: sleep until a worker notifies the caller, then ask again.
    Waiting,
    /// Let go of the lock: the submission is over.
    Done,
    /// A worker is dead: let go of the lock and panic.
    Panic(Failure),
}

/// What dropping the pool comes to.
#[derive(Clone, Copy, Debug, PartialEq, Eq, Structural)]
pub enum Closing {
    /// Let go of the lock and panic.
    Panic(Failure),
    /// The workers have been told to leave: notify all of them, let go of the lock, and
    /// join every thread.
    Join,
}

/// What a caller does that waits for `nthreads` workers to gather.
pub open spec fn gathered<J, M, B, T>(nthreads: nat, m: MessagingView<J, M>) -> Outcome<B, T> {
    if m.panic_detected {
        Outcome::Panic(Failure::WorkerPanicked)
    } else if m.completion_counter != nthreads {
        Outcome::Wait(Stage::Gather)
    } else {
        Outcome::Relock(Stage::Release)
    }
}

/// What a caller does that waits for `nthreads` workers to go on, where the meeting
/// ends in `value`.
pub open spec fn drained<J, M, B, T>(nthreads: nat, m: MessagingView<J, M>, value: T) -> Outcome<
    B,
    T,
> {
    if m.completion_counter != nthreads {
        Outcome::Wait(Stage::Drain)
    } else {
        Outcome::Done(value)
    }
}

/// The shared value once the workers have been asked to go on: where all of them
/// already have, no flag is left.
pub open spec fn after_drain<J, M>(nthreads: nat, m: MessagingView<J, M>) -> MessagingView<J, M> {
    if m.completion_counter != nthreads {
        m
    } else {
        MessagingView { flag: None, ..m }
    }
}

/// The shared value after the caller's turn at `stage` of a meeting at the end of a scope.
pub open spec fn messaging_after_scoped<J, M>(
    nthreads: nat,
    stage: Stage<()>,
    m: MessagingView<J, M>,
) -> MessagingView<J, M> {
    match stage {
        Stage::Begin(_) => m.asking(Flag::Checkpoint),
        Stage::Gather => m,
        Stage::Release => after_drain(nthreads, m.asking(Flag::Resume)),
        Stage::Drain => after_drain(nthreads, m),
    }
}

/// The caller's turn at `stage` of a meeting at the end of a scope.
pub open spec fn scoped_step<J, M>(
    nthreads: nat,
    stage: Stage<()>,
    m: MessagingView<J, M>,
) -> Step<(), ()> {
    Step {
        notify_all: stage is Begin || stage is Release,
        outcome: match stage {
            Stage::Begin(_) => gathered(nthreads, m.asking(Flag::Checkpoint)),
            Stage::Gather => gathered(nthreads, m),
            Stage::Release => drained(nthreads, m.asking(Flag::Resume), ()),
            Stage::Drain => drained(nthreads, m, ()),
        },
    }
}

impl Pool {
    /// How many worker threads there are.
    pub closed spec fn nthreads(self) -> usize {
        self.nthreads
    }

    /// How many jobs may be pending when a submission returns, if that is limited.
    pub closed spec fn backlog(self) -> Option<usize> {
        self.backlog
    }

    /// A pool has a worker.
    #[verifier::type_invariant]
    spec fn wf(self) -> bool {
        self.nthreads >= 1
    }

    /// A pool of as many workers as the machine has logical CPUs, with a backlog of four
    /// times that number; `None` where that number of jobs is no `usize`.
    pub fn new() -> (pool: Option<Pool>)
        ensures
            exists|cpus: usize| #[trigger]
                call_ensures(num_cpus::get, (), cpus) && (pool is Some <==> cpus * 4 <= usize::MAX)
                    && (pool matches Some(p) ==> p.nthreads() == cpus && p.backlog() == Some(
                    (cpus * 4) as usize,
                )),
            pool matches Some(p) ==> p.nthreads() >= 1,
    {
        Pool::native(num_cpus::get())
    }

    /// A pool of `cpus` workers with a backlog of four times that number; `None` where
    /// that number of jobs is no `usize`.
    pub fn native(cpus: usize) -> (pool: Option<Pool>)
        requires
            cpus >= 1,
        ensures
            pool is Some <==> cpus * 4 <= usize::MAX,
            pool matches Some(p) ==> p.nthreads() == cpus && p.backlog() == Some(
                (cpus * 4) as usize,
            ),
    {
        match cpus.checked_mul(4) {
            Some(backlog) => Some(Pool::base_new(cpus, Some(backlog))),
            None => None,
        }
    }

    /// A pool of as many workers as the machine has logical CPUs, with no limit on the
    /// jobs that are pending.
    pub fn unbounded() -> (pool: Pool)
        ensures
            call_ensures(num_cpus::get, (), pool.nthreads()),
            pool.nthreads() >= 1,
            pool.backlog() is None,
    {
        Pool::base_new(num_cpus::get(), None)
    }

    /// A pool of `nthreads` workers, where a submission does not return while more than
    /// `backlog` jobs are pending.
    pub fn new_threads(nthreads: usize, backlog: usize) -> (pool: Pool)
        requires
            nthreads >= 1,
        ensures
            pool.nthreads() == nthreads,
            pool.backlog() == Some(backlog),
    {
        Pool::base_new(nthreads, Some(backlog))
    }

    /// A pool of `nthreads` workers, with no limit on the jobs that are pending.
    pub fn new_threads_unbounded(nthreads: usize) -> (pool: Pool)
        requires
            nthreads >= 1,
        ensures
            pool.nthreads() == nthreads,
            pool.backlog() is None,
    {
        Pool::base_new(nthreads, None)
    }

    fn base_new(nthreads: usize, backlog: Option<usize>) -> (pool: Pool)
        requires
            nthreads >= 1,
        ensures
            pool.nthreads() == nthreads,
            pool.backlog() == backlog,
    {
        Pool { nthreads, backlog }
    }

    /// How many worker threads are to be started.
    pub fn thread_count(&self) -> (n: usize)
        ensures
            n == self.nthreads(),
            n >= 1,
    {
        proof {
            use_type_invariant(self);
        }
        self.nthreads
    }

    /// Whether more jobs are in the queue than the backlog allows.
    pub(crate) fn is_full(&self, pending: usize) -> (full: bool)
        ensures
            full == over_backlog(self.backlog(), pending as nat),
            full <==> (self.backlog() matches Some(allowed) && allowed < pending),
    {
        match self.backlog {
            Some(allowed) => allowed < pending,
            None => false,
        }
    }

    /// What has become of a submission that had to wait once its job was queued.
    pub fn settled<J, M>(&self, messaging: &Messaging<J, M>) -> (settlement: Settlement)
        ensures
            settlement == settlement_of(self.backlog(), messaging@),
            // It waits exactly while more jobs are pending than the backlog, unless a panic
            // is known.
            settlement is Waiting <==> !messaging.panic_detected && (self.backlog() matches Some(
                allowed,
            ) && messaging.job_queue@.len() > allowed),
            settlement is Done <==> !messaging.panic_detected && (self.backlog() matches Some(
                allowed,
            ) ==> messaging.job_queue@.len() <= allowed),
            messaging.panic_detected <==> settlement == Settlement::Panic(Failure::WorkerPanicked),
    {
        if messaging.panic_detected {
            Settlement::Panic(Failure::WorkerPanicked)
        } else if self.is_full(messaging.job_queue.len()) {
            Settlement::Waiting
        } else {
            Settlement::Done
        }
    }

    /// The scope in which jobs are submitted, before the meeting that ends it.
    pub fn scope(&self) -> (scope: Scope<'_>)
        ensures
            scope.pool() == *self,
    {
        Scope::of(self)
    }

    /// The meeting that ends a scope, one turn of the caller with the lock at a time,
    /// from `Stage::Begin` on. It begins when the code in the scope has returned.
    pub fn scoped<J, M>(&self, stage: Stage<()>, messaging: &mut Messaging<J, M>) -> (step: Step<
        (),
        (),
    >)
        ensures
            step == scoped_step(self.nthreads() as nat, stage, old(messaging)@),
            final(messaging)@ == messaging_after_scoped(
                self.nthreads() as nat,
                stage,
                old(messaging)@,
            ),
            old(messaging)@.wf() ==> final(messaging)@.wf(),
            // The workers are asked to gather at first and to go on once all have gathered,
            // and each time the answers are counted anew.
            step.notify_all <==> stage is Begin || stage is Release,
            stage is Begin ==> final(messaging).flag == Some(Flag::Checkpoint),
            stage is Release ==> final(messaging).flag == Some(Flag::Resume),
            final(messaging).completion_counter == (if stage is Begin || stage is Release {
                0
            } else {
                old(messaging).completion_counter
            }),
            // The caller waits until every worker has answered. It panics over a dead worker
            // while it gathers them, and only then.
            stage is Begin && !old(messaging).panic_detected ==> step.outcome == Outcome::<
                (),
                (),
            >::Wait(Stage::Gather),
            stage is Gather && !old(messaging).panic_detected ==> step.outcome == (if old(
                messaging,
            ).completion_counter == self.nthreads() {
                Outcome::<(), ()>::Relock(Stage::Release)
            } else {
                Outcome::Wait(Stage::Gather)
            }),
            step.outcome is Panic <==> old(messaging).panic_detected && (stage is Begin
                || stage is Gather),
            step.outcome matches Outcome::Panic(failure) ==> failure == Failure::WorkerPanicked,
            stage is Release ==> step.outcome == Outcome::<(), ()>::Wait(Stage::Drain),
            stage is Drain ==> step.outcome == (if old(messaging).completion_counter
                == self.nthreads() {
                Outcome::<(), ()>::Done(())
            } else {
                Outcome::Wait(Stage::Drain)
            }),
            // The flag comes down when the meeting is over, and stays up while it waits.
            step.outcome is Done ==> final(messaging).flag is None,
            (stage is Gather || stage is Drain) && !(step.outcome is Done) ==> final(messaging).flag
                == old(messaging).flag,
            // Whatever else the threads share stays as it is.
            final(messaging).job_queue@ == old(messaging).job_queue@,
            final(messaging).panic_detected == old(messaging).panic_detected,
            final(messaging).state_maker == old(messaging).state_maker,
    {
        match stage {
            Stage::Begin(_) => {
                messaging.completion_counter = 0;
                messaging.flag = Some(Flag::Checkpoint);
                Step { notify_all: true, outcome: self.gather(messaging) }
            },
            Stage::Gather => Step { notify_all: false, outcome: self.gather(messaging) },
            Stage::Release => {
                messaging.completion_counter = 0;
                messaging.flag = Some(Flag::Resume);
                Step { notify_all: true, outcome: self.drain(messaging, ()) }
            },
            Stage::Drain => Step { notify_all: false, outcome: self.drain(messaging, ()) },
        }
    }

    /// Waits for the workers to gather.
    pub(crate) fn gather<J, M, B, T>(&self, messaging: &Messaging<J, M>) -> (outcome: Outcome<B, T>)
        ensures
            outcome == gathered::<J, M, B, T>(self.nthreads() as nat, messaging@),
            self.nthreads() >= 1,
    {
        proof {
            use_type_invariant(self);
        }
        if messaging.completion_counter != self.nthreads && !messaging.panic_detected {
            Outcome::Wait(Stage::Gather)
        } else if messaging.panic_detected {
            Outcome::Panic(Failure::WorkerPanicked)
        } else {
            Outcome::Relock(Stage::Release)
        }
    }

    /// Waits for the workers to go on, and then takes the flag down.
    pub(crate) fn drain<J, M, B, T>(
        &self,
        messaging: &mut Messaging<J, M>,
        value: T,
    ) -> (outcome: Outcome<B, T>)
        ensures
            outcome == drained::<J, M, B, T>(self.nthreads() as nat, old(messaging)@, value),
            final(messaging)@ == after_drain(self.nthreads() as nat, old(messaging)@),
            self.nthreads() >= 1,
    {
        proof {
            use_type_invariant(self);
        }
        if messaging.completion_counter != self.nthreads {
            Outcome::Wait(Stage::Drain)
        } else {
            messaging.flag = None;
            Outcome::Done(value)
        }
    }

    /// Dropping the pool: the workers are told to leave, unless jobs are still queued.
    pub fn drop<J, M>(&self, messaging: &mut Messaging<J, M>) -> (closing: Closing)
        ensures
            closing == closing_of(old(messaging)@),
            final(messaging)@ == messaging_after_drop(old(messaging)@),
            old(messaging)@.wf() ==> final(messaging)@.wf(),
            // Jobs that are left make it panic, and nothing else does; otherwise the workers
            // are told to leave.
            old(messaging).job_queue@.len() == 0 <==> closing is Join,
            old(messaging).job_queue@.len() > 0 <==> closing == Closing::Panic(Failure::JobsLeft),
            final(messaging).flag == (if closing is Join {
                Some(Flag::Exit)
            } else {
                old(messaging).flag
            }),
            final(messaging).job_queue@ == old(messaging).job_queue@,
            final(messaging).completion_counter == old(messaging).completion_counter,
            final(messaging).panic_detected == old(messaging).panic_detected,
            final(messaging).state_maker == old(messaging).state_maker,
    {
        if messaging.job_queue.len() != 0 {
            return Closing::Panic(Failure::JobsLeft);
        }
        messaging.flag = Some(Flag::Exit);
        Closing::Join
    }
}

/// More jobs are pending than the backlog allows.
pub open spec fn over_backlog(backlog: Option<usize>, pending: nat) -> bool {
    backlog matches Some(allowed) && allowed < pending
}

/// What has become of a submission that had to wait once its job was queued.
pub open spec fn settlement_of<J, M>(backlog: Option<usize>, m: MessagingView<J, M>) -> Settlement {
    if m.panic_detected {
        Settlement::Panic(Failure::WorkerPanicked)
    } else if over_backlog(backlog, m.job_queue.len()) {
        Settlement::Waiting
    } else {
        Settlement::Done
    }
}

/// What dropping the pool comes to.
pub open spec fn closing_of<J, M>(m: MessagingView<J, M>) -> Closing {
    if m.job_queue.len() > 0 {
        Closing::Panic(Failure::JobsLeft)
    } else {
        Closing::Join
    }
}

/// The shared value after the pool has been dropped.
pub open spec fn messaging_after_drop<J, M>(m: MessagingView<J, M>) -> MessagingView<J, M> {
    if m.job_queue.len() > 0 {
        m
    } else {
        MessagingView { flag: Some(Flag::Exit), ..m }
    }
}

} // verus!

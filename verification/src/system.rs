//! A pool at work: its caller, its workers, and every way in which their turns with the
//! lock can follow each other.
//!
//! What a turn does is what the functions of this crate do; the rest is what threads and
//! condition variables add. A sleeper may wake without being notified, a job and a state
//! maker may return or panic, and nobody says whose turn is next.
use crate::messaging::MessagingView;
use crate::pool::{closing_of, messaging_after_drop, messaging_after_scoped, scoped_step, Closing};
use crate::pool::{over_backlog, settlement_of, Outcome, Pool, Settlement, Stage};
use crate::scope::{messaging_after_execute, messaging_after_with_state, submission_of};
use crate::scope::{with_state_step, Submission};
use crate::worker::{in_checkpoint_after, maker_calls, makes_state, messaging_after_turn, turn_of};
use crate::worker::{states_given_up, Action};
use vstd::prelude::*;

verus! {

/// What a worker thread is doing. A job is known by its number in the order of
/// submission.
pub enum Activity {
    /// It is about to take its turn with the lock.
    Ready,
    /// It sleeps until the workers are notified.
    Asleep,
    /// It runs the job of this number.
    Busy(nat),
    /// It has left its loop and still has to say so; it may have panicked.
    Leaving(bool),
    /// It has ended; it may have panicked.
    Gone(bool),
}

/// A worker thread.
#[verifier::ext_equal]
pub struct WorkerModel<M> {
    pub in_checkpoint: bool,
    pub activity: Activity,
    /// The state makers that it has called and that have returned, call by call.
    pub made: Seq<M>,
    /// How many state makers the pool had been given when the worker's state was made.
    pub epoch: nat,
    /// How many states it has given up.
    pub given_up: nat,
    /// The numbers of the jobs that have run on that state and returned.
    pub applied: Seq<nat>,
}

/// What the caller is doing. Where a scope has a state, it is known by the number of
/// state makers that the pool had been given when the scope got it.
pub enum Operation<J, M> {
    /// It is in no scope.
    Idle,
    /// It runs the code in a scope.
    InScope(Option<nat>),
    /// It submits a job that has to wait to be queued.
    Submitting(J, Option<nat>),
    /// It has queued a job, and waits because too many are pending.
    Settling(Option<nat>),
    /// It gives every worker a state.
    GivingState(Stage<M>),
    /// It ends the scope.
    EndingScope(Stage<()>),
    /// It has dropped the pool.
    Closed(Closing),
}

/// The pool and its caller.
#[verifier::ext_equal]
pub struct System<J, M> {
    pub nthreads: usize,
    pub backlog: Option<usize>,
    pub messaging: MessagingView<J, M>,
    pub workers: Seq<WorkerModel<M>>,
    pub caller: Operation<J, M>,
    /// The caller sleeps until a worker notifies it.
    pub asleep: bool,
    /// The jobs that have been queued so far.
    pub submitted: Seq<J>,
    /// For each of these, the state of the scope that it was submitted in.
    pub needs: Seq<Option<nat>>,
    /// How many of these a worker has taken.
    pub started: nat,
    /// The numbers of the jobs that have returned.
    pub finished: Set<nat>,
    /// The numbers of the jobs that have panicked.
    pub failed: Set<nat>,
    /// The state makers that the pool has been given so far.
    pub makers: Seq<M>,
}

/// What can happen next.
pub enum Event<J, M> {
    /// A worker takes its turn; the state maker, if it is called, returns.
    WorkerTurn(int),
    /// A worker takes its turn, and the state maker panics.
    MakerPanics(int),
    /// The job that a worker runs returns.
    JobReturns(int),
    /// The job that a worker runs panics.
    JobPanics(int),
    /// A worker that has left its loop ends.
    WorkerEnds(int),
    /// A worker wakes unasked.
    WorkerWakes(int),
    /// The caller wakes unasked.
    CallerWakes,
    /// The caller enters a scope.
    Enter,
    /// The code in the scope panics.
    Abandon,
    /// The caller submits a job.
    Execute(J),
    /// The caller tries again to submit the job that had to wait to be queued.
    Retry,
    /// The caller gives the workers a state.
    WithState(M),
    /// The code in the scope returns.
    EndScope,
    /// The caller takes its next turn in a meeting or in a submission that waits.
    Proceed,
    /// The caller drops the pool.
    Drop,
}

impl<M> WorkerModel<M> {
    /// A worker that has just been started.
    pub open spec fn fresh() -> Self {
        WorkerModel {
            in_checkpoint: false,
            activity: Activity::Ready,
            made: Seq::empty(),
            epoch: 0,
            given_up: 0,
            applied: Seq::empty(),
        }
    }

    pub open spec fn doing(self, activity: Activity) -> Self {
        WorkerModel { activity, ..self }
    }

    /// The worker is notified.
    pub open spec fn notified(self) -> Self {
        if self.activity is Asleep {
            self.doing(Activity::Ready)
        } else {
            self
        }
    }

    /// The worker has panicked, whether it has said so or not.
    pub open spec fn panicked(self) -> bool {
        self.activity == Activity::Leaving(true) || self.activity == Activity::Gone(true)
    }

    /// The worker is in its loop and runs no job.
    pub open spec fn at_rest(self) -> bool {
        self.activity is Ready || self.activity is Asleep
    }
}

/// All workers are notified.
pub open spec fn all_notified<M>(workers: Seq<WorkerModel<M>>) -> Seq<WorkerModel<M>> {
    workers.map_values(|w: WorkerModel<M>| w.notified())
}

/// One sleeping worker is notified, where there is one.
pub open spec fn one_notified<M>(
    workers: Seq<WorkerModel<M>>,
    after: Seq<WorkerModel<M>>,
) -> bool {
    ||| after == workers && forall|i: int|
        0 <= i < workers.len() ==> !((#[trigger] workers[i]).activity is Asleep)
    ||| exists|i: int|
        0 <= i < workers.len() && (#[trigger] workers[i]).activity is Asleep && after
            == workers.update(i, workers[i].notified())
}

impl<J, M> System<J, M> {
    /// The pool has just been made.
    pub open spec fn initial(pool: Pool) -> Self {
        System {
            nthreads: pool.nthreads(),
            backlog: pool.backlog(),
            messaging: MessagingView::initial(),
            workers: Seq::new(pool.nthreads() as nat, |i: int| WorkerModel::fresh()),
            caller: Operation::Idle,
            asleep: false,
            submitted: Seq::empty(),
            needs: Seq::empty(),
            started: 0,
            finished: Set::empty(),
            failed: Set::empty(),
            makers: Seq::empty(),
        }
    }

    /// There is a worker `i`, and it is doing this.
    pub open spec fn worker_is(self, i: int, activity: Activity) -> bool {
        0 <= i < self.workers.len() && self.workers[i].activity == activity
    }

    pub open spec fn busy(self, i: int) -> bool {
        0 <= i < self.workers.len() && self.workers[i].activity is Busy
    }

    pub open spec fn with_worker(self, i: int, worker: WorkerModel<M>) -> Self {
        System { workers: self.workers.update(i, worker), ..self }
    }

    /// The state maker in use is called by worker `i`.
    pub open spec fn calls_maker(self, i: int) -> bool {
        makes_state(self.workers[i].in_checkpoint, self.messaging)
    }

    /// After worker `i` has taken its turn.
    pub open spec fn after_turn(self, i: int) -> Self {
        let w = self.workers[i];
        let turn = turn_of(w.in_checkpoint, self.messaging);
        System {
            messaging: messaging_after_turn(w.in_checkpoint, self.messaging),
            workers: self.workers.update(
                i,
                WorkerModel {
                    in_checkpoint: in_checkpoint_after(w.in_checkpoint, self.messaging),
                    activity: match turn.action {
                        Action::Wait => Activity::Asleep,
                        Action::Again => Activity::Ready,
                        Action::Run(_) => Activity::Busy(self.started),
                        Action::Exit => Activity::Leaving(false),
                    },
                    made: w.made + Seq::new(
                        maker_calls(w.in_checkpoint, self.messaging),
                        |k: int| self.messaging.state_maker->0,
                    ),
                    epoch: if self.calls_maker(i) {
                        self.makers.len()
                    } else {
                        w.epoch
                    },
                    given_up: w.given_up + states_given_up(w.in_checkpoint, self.messaging),
                    applied: if self.calls_maker(i) {
                        Seq::empty()
                    } else {
                        w.applied
                    },
                },
            ),
            asleep: self.asleep && !turn.answered && !(turn.action is Run),
            started: if turn.action is Run {
                self.started + 1
            } else {
                self.started
            },
            ..self
        }
    }

    /// After the job that worker `i` runs has returned.
    pub open spec fn after_return(self, i: int) -> Self {
        let w = self.workers[i];
        let k = w.activity->Busy_0;
        System {
            finished: self.finished.insert(k),
            ..self.with_worker(
                i,
                WorkerModel {
                    activity: Activity::Ready,
                    applied: if self.needs[k as int] is Some {
                        w.applied.push(k)
                    } else {
                        w.applied
                    },
                    ..w
                },
            )
        }
    }

    /// After the job that worker `i` runs has panicked.
    pub open spec fn after_panic(self, i: int) -> Self {
        System {
            failed: self.failed.insert(self.workers[i].activity->Busy_0),
            ..self.with_worker(i, self.workers[i].doing(Activity::Leaving(true)))
        }
    }

    /// After worker `i`, which has left its loop, has ended.
    pub open spec fn after_end(self, i: int) -> Self {
        let has_panic = self.workers[i].activity->Leaving_0;
        System {
            messaging: self.messaging.with_worker_ended(has_panic),
            asleep: false,
            ..self.with_worker(i, self.workers[i].doing(Activity::Gone(has_panic)))
        }
    }

    /// `after` is what may come of submitting `job` in a scope of the given state.
    pub open spec fn submits(self, job: J, state: Option<nat>, after: Self) -> bool {
        let messaging = messaging_after_execute(self.backlog, job, self.messaging);
        let queued = System {
            messaging,
            caller: Operation::InScope(state),
            asleep: false,
            submitted: self.submitted.push(job),
            needs: self.needs.push(state),
            ..self
        };
        match submission_of(self.backlog, job, self.messaging) {
            Submission::Blocked(job) => after == (System {
                messaging,
                caller: Operation::Submitting(job, state),
                asleep: true,
                ..self
            }),
            Submission::Queued => one_notified(self.workers, after.workers) && after == (System {
                workers: after.workers,
                ..queued
            }),
            Submission::Settling => one_notified(self.workers, after.workers) && after == (System {
                workers: after.workers,
                caller: Operation::Settling(state),
                asleep: true,
                ..queued
            }),
            Submission::Panic(_) => if over_backlog(self.backlog, self.messaging.job_queue.len()) {
                after == (System { caller: Operation::InScope(state), asleep: false, ..self })
            } else {
                after == queued
            },
        }
    }

    /// After the caller, which submits a job in a scope of the given state, has asked what
    /// has become of it.
    pub open spec fn after_settled(self, state: Option<nat>) -> Self {
        match settlement_of(self.backlog, self.messaging) {
            Settlement::Waiting => System { asleep: true, ..self },
            Settlement::Done => System { caller: Operation::InScope(state), ..self },
            Settlement::Panic(_) => System { caller: Operation::InScope(state), ..self },
        }
    }

    /// After the caller's turn at `stage` of a meeting that gives every worker a state.
    /// Where it ends in a panic, the code in the scope goes on without a state.
    pub open spec fn after_with_state(self, stage: Stage<M>) -> Self {
        let state = self.makers.len();
        let step = with_state_step(self.nthreads as nat, stage, self.messaging, state);
        System {
            messaging: messaging_after_with_state(self.nthreads as nat, stage, self.messaging),
            workers: if step.notify_all {
                all_notified(self.workers)
            } else {
                self.workers
            },
            caller: match step.outcome {
                Outcome::Wait(next) => Operation::GivingState(next),
                Outcome::Relock(next) => Operation::GivingState(next),
                Outcome::Panic(_) => Operation::InScope(None),
                Outcome::Done(state) => Operation::InScope(Some(state)),
            },
            asleep: step.outcome is Wait,
            ..self
        }
    }

    /// After the caller's turn at `stage` of the meeting that ends a scope.
    pub open spec fn after_scoped(self, stage: Stage<()>) -> Self {
        let step = scoped_step(self.nthreads as nat, stage, self.messaging);
        System {
            messaging: messaging_after_scoped(self.nthreads as nat, stage, self.messaging),
            workers: if step.notify_all {
                all_notified(self.workers)
            } else {
                self.workers
            },
            caller: match step.outcome {
                Outcome::Wait(next) => Operation::EndingScope(next),
                Outcome::Relock(next) => Operation::EndingScope(next),
                Outcome::Panic(_) => Operation::Idle,
                Outcome::Done(_) => Operation::Idle,
            },
            asleep: step.outcome is Wait,
            ..self
        }
    }

    /// After the caller has dropped the pool.
    pub open spec fn after_drop(self) -> Self {
        let closing = closing_of(self.messaging);
        System {
            messaging: messaging_after_drop(self.messaging),
            workers: if closing is Join {
                all_notified(self.workers)
            } else {
                self.workers
            },
            caller: Operation::Closed(closing),
            ..self
        }
    }

    /// `event` can happen, and then `after` is what may come of it.
    pub open spec fn next(self, event: Event<J, M>, after: Self) -> bool {
        match event {
            Event::WorkerTurn(i) => self.worker_is(i, Activity::Ready) && after == self.after_turn(
                i,
            ),
            Event::MakerPanics(i) => self.worker_is(i, Activity::Ready) && self.calls_maker(i)
                && after == self.with_worker(
                i,
                self.workers[i].doing(Activity::Leaving(true)),
            ),
            Event::JobReturns(i) => self.busy(i) && after == self.after_return(i),
            Event::JobPanics(i) => self.busy(i) && after == self.after_panic(i),
            Event::WorkerEnds(i) => 0 <= i < self.workers.len()
                && self.workers[i].activity is Leaving && after == self.after_end(i),
            Event::WorkerWakes(i) => self.worker_is(i, Activity::Asleep) && after
                == self.with_worker(i, self.workers[i].notified()),
            Event::CallerWakes => self.asleep && after == (System { asleep: false, ..self }),
            Event::Enter => self.caller is Idle && after == (System {
                caller: Operation::InScope(None),
                ..self
            }),
            Event::Abandon => self.caller is InScope && after == (System {
                caller: Operation::Idle,
                ..self
            }),
            Event::Execute(job) => self.caller is InScope && self.submits(
                job,
                self.caller->InScope_0,
                after,
            ),
            Event::Retry => self.caller is Submitting && !self.asleep && self.submits(
                self.caller->Submitting_0,
                self.caller->Submitting_1,
                after,
            ),
            Event::WithState(maker) => self.caller == Operation::<J, M>::InScope(None) && after
                == (System { makers: self.makers.push(maker), ..self }).after_with_state(
                Stage::Begin(maker),
            ),
            Event::EndScope => self.caller is InScope && after == self.after_scoped(
                Stage::Begin(()),
            ),
            Event::Proceed => !self.asleep && match self.caller {
                Operation::GivingState(stage) => after == self.after_with_state(stage),
                Operation::EndingScope(stage) => after == self.after_scoped(stage),
                Operation::Settling(state) => after == self.after_settled(state),
                _ => false,
            },
            Event::Drop => self.caller is Idle && after == self.after_drop(),
        }
    }
}

/// A pool's life: each state follows from the one before by an event.
pub open spec fn is_run<J, M>(states: Seq<System<J, M>>, events: Seq<Event<J, M>>) -> bool {
    &&& states.len() == events.len() + 1
    &&& exists|pool: Pool| pool.nthreads() >= 1 && states[0] == System::<J, M>::initial(pool)
    &&& forall|k: int|
        0 <= k < events.len() ==> states[k].next(#[trigger] events[k], states[k + 1])
}

/// The pool can come to be as it is in `s`.
pub open spec fn reachable<J, M>(s: System<J, M>) -> bool {
    exists|states: Seq<System<J, M>>, events: Seq<Event<J, M>>|
        is_run(states, events) && states.last() == s
}

} // verus!

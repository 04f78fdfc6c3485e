//! What a worker thread does while it holds the lock.
use crate::messaging::{Flag, Messaging, MessagingView};
use crate::state::{Retired, StateMaker, Worker};
use vstd::prelude::*;
use vstd::std_specs::cmp::{PartialEqSpec, PartialEqSpecImpl};

verus! {

/// What a worker does after its turn with the lock.
#[derive(Debug, PartialEq, Eq)]
pub enum Action<J> {
    /// Sleep until the workers are notified, then take the next turn.
    Wait,
    /// Let go of the lock and take the next turn.
    Again,
    /// Notify the caller, let go of the lock, run the job, take the next turn.
    Run(J),
    /// End the thread.
    Exit,
}

/// A worker's turn.
#[derive(Debug, PartialEq, Eq)]
pub struct Turn<J> {
    /// The worker has answered the flag: notify the caller.
    pub answered: bool,
    /// What comes next.
    pub action: Action<J>,
}

/// A worker's turn, with what it leaves behind.
#[derive(Debug)]
pub struct Turned<J, S> {
    /// The worker has answered the flag: notify the caller.
    pub answered: bool,
    /// What comes next.
    pub action: Action<J>,
    /// The state that the worker has replaced: it is the caller's to let go.
    pub replaced: Option<Retired<S>>,
}

impl<J, S> Turned<J, S> {
    /// The turn without what it leaves behind.
    pub open spec fn turn(self) -> Turn<J> {
        Turn { answered: self.answered, action: self.action }
    }
}

impl<J: PartialEq, S> PartialEq<Turn<J>> for Turned<J, S> {
    fn eq(&self, other: &Turn<J>) -> (equal: bool) {
        self.answered == other.answered && match (&self.action, &other.action) {
            (Action::Wait, Action::Wait) => true,
            (Action::Again, Action::Again) => true,
            (Action::Run(job), Action::Run(other_job)) => *job == *other_job,
            (Action::Exit, Action::Exit) => true,
            _ => false,
        }
    }
}

impl<J: PartialEq, S> PartialEqSpecImpl<Turn<J>> for Turned<J, S> {
    open spec fn obeys_eq_spec() -> bool {
        J::obeys_eq_spec()
    }

    open spec fn eq_spec(&self, other: &Turn<J>) -> bool {
        &&& self.answered == other.answered
        &&& match (self.action, other.action) {
            (Action::Wait, Action::Wait) => true,
            (Action::Again, Action::Again) => true,
            (Action::Run(job), Action::Run(other_job)) => job.eq_spec(&other_job),
            (Action::Exit, Action::Exit) => true,
            _ => false,
        }
    }
}

/// The worker has nothing to do: it is to stay in its checkpoint, or there is neither
/// a job nor a flag.
pub open spec fn must_wait<J, M>(in_checkpoint: bool, m: MessagingView<J, M>) -> bool {
    ||| in_checkpoint && (m.flag is None || m.flag == Some(Flag::Checkpoint))
    ||| m.job_queue.len() == 0 && m.flag is None
}

/// The worker answers the flag: a checkpoint once there are no jobs left, a resume
/// where it is in a checkpoint.
pub open spec fn answers<J, M>(in_checkpoint: bool, m: MessagingView<J, M>) -> bool {
    match m.flag {
        Some(Flag::Checkpoint) => !in_checkpoint && m.job_queue.len() == 0,
        Some(Flag::SetState) => !in_checkpoint && m.job_queue.len() == 0,
        Some(Flag::Resume) => in_checkpoint,
        _ => false,
    }
}

/// The worker makes itself a new state.
pub open spec fn makes_state<J, M>(in_checkpoint: bool, m: MessagingView<J, M>) -> bool {
    m.flag == Some(Flag::SetState) && answers(in_checkpoint, m)
}

/// How often the worker calls the state maker.
pub open spec fn maker_calls<J, M>(in_checkpoint: bool, m: MessagingView<J, M>) -> nat {
    if makes_state(in_checkpoint, m) {
        1
    } else {
        0
    }
}

/// How many states the worker gives up.
pub open spec fn states_given_up<J, M>(in_checkpoint: bool, m: MessagingView<J, M>) -> nat {
    if makes_state(in_checkpoint, m) {
        1
    } else {
        0
    }
}

/// Whether the worker is in a checkpoint after its turn.
pub open spec fn in_checkpoint_after<J, M>(in_checkpoint: bool, m: MessagingView<J, M>) -> bool {
    if answers(in_checkpoint, m) {
        m.flag != Some(Flag::Resume)
    } else {
        in_checkpoint
    }
}

/// What the worker's turn comes to.
pub open spec fn turn_of<J, M>(in_checkpoint: bool, m: MessagingView<J, M>) -> Turn<J> {
    Turn {
        answered: answers(in_checkpoint, m),
        action: if must_wait(in_checkpoint, m) {
            Action::Wait
        } else if m.flag == Some(Flag::Exit) {
            Action::Exit
        } else if m.job_queue.len() > 0 {
            Action::Run(m.job_queue[0])
        } else {
            Action::Again
        },
    }
}

/// The shared value after the worker's turn: an answer is counted, and the job that
/// the worker runs, the oldest, has left the queue.
pub open spec fn messaging_after_turn<J, M>(
    in_checkpoint: bool,
    m: MessagingView<J, M>,
) -> MessagingView<J, M> {
    MessagingView {
        completion_counter: if answers(in_checkpoint, m) {
            m.completion_counter + 1
        } else {
            m.completion_counter
        },
        job_queue: if turn_of(in_checkpoint, m).action is Run {
            m.job_queue.drop_first()
        } else {
            m.job_queue
        },
        ..m
    }
}

impl<S> Worker<S> {
    /// One turn of the worker's thread, with the lock held.
    ///
    /// A state is made under the lock, before anything is changed. A closure may be called
    /// as a maker where it may be called, and makes what it returns
    /// (`closures_make_what_they_return`).
    pub fn run_thread<J, M>(&mut self, messaging: &mut Messaging<J, M>) -> (turn: Turned<J, S>)
        where M: StateMaker<S>
        requires
            old(messaging).flag == Some(Flag::SetState) ==> old(messaging).state_maker is Some,
            old(messaging).flag == Some(Flag::Resume) && old(self).in_checkpoint ==> old(
                messaging,
            ).completion_counter < usize::MAX,
            (old(messaging).flag == Some(Flag::Checkpoint) || old(messaging).flag == Some(
                Flag::SetState,
            )) && !old(self).in_checkpoint && old(messaging).job_queue@.len() == 0 ==> old(
                messaging,
            ).completion_counter < usize::MAX,
            old(messaging).flag == Some(Flag::SetState) && !old(self).in_checkpoint && old(
                messaging,
            ).job_queue@.len() == 0 ==> old(messaging).state_maker->0.can_make(),
        ensures
            turn.turn() == turn_of(old(self).in_checkpoint, old(messaging)@),
            final(messaging)@ == messaging_after_turn(old(self).in_checkpoint, old(messaging)@),
            final(messaging)@.wf(),
            final(self).in_checkpoint == in_checkpoint_after(
                old(self).in_checkpoint,
                old(messaging)@,
            ),
            final(self).calls.count() == old(self).calls.count() + maker_calls(
                old(self).in_checkpoint,
                old(messaging)@,
            ),
            turn.replaced is Some <==> states_given_up(old(self).in_checkpoint, old(messaging)@) == 1,
            turn.replaced is None <==> states_given_up(old(self).in_checkpoint, old(messaging)@) == 0,
            makes_state(old(self).in_checkpoint, old(messaging)@) ==> old(
                messaging,
            ).state_maker->0.makes(final(self).state),
            !makes_state(old(self).in_checkpoint, old(messaging)@) ==> final(self).state == old(
                self,
            ).state,
            // A job is run exactly where there is one and nothing holds the worker back: it
            // is the oldest, and it alone leaves the queue.
            turn.action is Run <==> old(messaging).job_queue@.len() > 0 && old(messaging).flag
                != Some(Flag::Exit) && !(old(self).in_checkpoint && (old(messaging).flag is None
                || old(messaging).flag == Some(Flag::Checkpoint))),
            turn.action matches Action::Run(job) ==> old(messaging).job_queue@ == seq![job]
                + final(messaging).job_queue@,
            !(turn.action is Run) ==> final(messaging).job_queue@ == old(messaging).job_queue@,
            // It leaves exactly where it is told to, and sleeps exactly where it has nothing
            // to do.
            turn.action is Exit <==> old(messaging).flag == Some(Flag::Exit),
            turn.action is Wait <==> (old(self).in_checkpoint && (old(messaging).flag is None
                || old(messaging).flag == Some(Flag::Checkpoint))) || (old(
                messaging,
            ).job_queue@.len() == 0 && old(messaging).flag is None),
            // It answers to gather once the queue is empty, and to go on where it has
            // gathered; an answer is counted once, and nothing else is.
            turn.answered <==> (if old(self).in_checkpoint {
                old(messaging).flag == Some(Flag::Resume)
            } else {
                old(messaging).job_queue@.len() == 0 && (old(messaging).flag == Some(
                    Flag::Checkpoint,
                ) || old(messaging).flag == Some(Flag::SetState))
            }),
            final(self).in_checkpoint == (old(self).in_checkpoint != turn.answered),
            final(messaging).completion_counter == old(messaging).completion_counter + (
            if turn.answered {
                1int
            } else {
                0int
            }),
            // An answer to `SetState` comes with one call of the maker, whose state replaces
            // the old one; that one is handed out. There is no other call, and no other
            // state comes or goes.
            final(self).calls.count() == old(self).calls.count() + (if turn.answered && old(
                messaging,
            ).flag == Some(Flag::SetState) {
                1int
            } else {
                0int
            }),
            turn.replaced is Some <==> turn.answered && old(messaging).flag == Some(Flag::SetState),
            turn.replaced matches Some(retired) ==> retired.state() == old(self).state && old(
                messaging,
            ).state_maker->0.makes(final(self).state),
            turn.replaced is None ==> final(self).state == old(self).state,
            // Whatever else the threads share stays as it is.
            final(messaging).flag == old(messaging).flag,
            final(messaging).panic_detected == old(messaging).panic_detected,
            final(messaging).state_maker == old(messaging).state_maker,
    {
        let idle = messaging.job_queue.len() == 0;
        let stay = self.in_checkpoint && match messaging.flag {
            None => true,
            Some(flag) => flag == Flag::Checkpoint,
        };
        if stay || (idle && messaging.flag.is_none()) {
            return Turned { answered: false, action: Action::Wait, replaced: None };
        }
        let mut answered = false;
        let mut replaced = None;
        match messaging.flag {
            Some(Flag::Checkpoint) => {
                if !self.in_checkpoint && idle {
                    messaging.completion_counter = messaging.completion_counter + 1;
                    self.in_checkpoint = true;
                    return Turned { answered: true, action: Action::Again, replaced };
                }
            },
            Some(Flag::Resume) => {
                if self.in_checkpoint {
                    messaging.completion_counter = messaging.completion_counter + 1;
                    self.in_checkpoint = false;
                    answered = true;
                }
            },
            Some(Flag::SetState) => {
                if !self.in_checkpoint && idle {
                    let maker = messaging.state_maker.as_ref().unwrap();
                    replaced = Some(self.calls.renew(&mut self.state, maker));
                    messaging.completion_counter = messaging.completion_counter + 1;
                    self.in_checkpoint = true;
                    answered = true;
                }
            },
            Some(Flag::Exit) => {
                return Turned { answered: false, action: Action::Exit, replaced };
            },
            None => {},
        }
        let ghost queue = messaging.job_queue@;
        match messaging.job_queue.pop_front() {
            Some(job) => {
                assert(queue =~= seq![job] + messaging.job_queue@);
                Turned { answered, action: Action::Run(job), replaced }
            },
            None => Turned { answered, action: Action::Again, replaced },
        }
    }
}

} // verus!

//! What the threads of a pool share.
use std::collections::VecDeque;
use vstd::prelude::*;

verus! {

/// What the workers are asked to do besides running jobs.
#[derive(Clone, Copy, Debug, PartialEq, Eq, Structural)]
pub enum Flag {
    /// Every worker answers once the queue is empty, then stays where it is.
    Checkpoint,
    /// Every worker that stays where it is answers and goes on.
    Resume,
    /// Every worker leaves.
    Exit,
    /// As `Checkpoint`, but a worker makes itself a new state before it answers.
    SetState,
}

/// Why a call into the pool panics.
#[derive(Clone, Copy, Debug, PartialEq, Eq, Structural)]
pub enum Failure {
    /// A worker died of a panic.
    WorkerPanicked,
    /// The pool is dropped while jobs are still queued.
    JobsLeft,
}

impl Failure {
    /// The text that the panic carries.
    pub fn message(&self) -> (text: &'static str)
        ensures
            *self is WorkerPanicked ==> text@ == "worker thread panicked"@,
            *self is JobsLeft ==> text@ == "pond::Pool: one or more worker thread panicked"@,
    {
        match self {
            Failure::WorkerPanicked => "worker thread panicked",
            Failure::JobsLeft => "pond::Pool: one or more worker thread panicked",
        }
    }
}

/// The value behind the pool's lock, with jobs of type `J` and state makers of type `M`.
pub struct Messaging<J, M> {
    /// The jobs that no worker has taken yet, in the order of their submission.
    pub job_queue: VecDeque<J>,
    /// What the workers are asked to do, if anything.
    pub flag: Option<Flag>,
    /// How many workers have answered the flag.
    pub completion_counter: usize,
    /// Whether a worker has died of a panic.
    pub panic_detected: bool,
    /// What makes the state that `Flag::SetState` asks for.
    pub state_maker: Option<M>,
}

/// The mathematical value of a `Messaging`.
#[verifier::ext_equal]
pub struct MessagingView<J, M> {
    pub job_queue: Seq<J>,
    pub flag: Option<Flag>,
    pub completion_counter: nat,
    pub panic_detected: bool,
    pub state_maker: Option<M>,
}

impl<J, M> MessagingView<J, M> {
    /// The shared value of a pool that nothing has been asked of.
    pub open spec fn initial() -> Self {
        MessagingView {
            job_queue: Seq::empty(),
            flag: None,
            completion_counter: 0,
            panic_detected: false,
            state_maker: None,
        }
    }

    /// A state can be asked for only where there is something to make it.
    pub open spec fn wf(self) -> bool {
        self.flag == Some(Flag::SetState) ==> self.state_maker is Some
    }

    /// The workers are asked for `flag`, and none has answered yet.
    pub open spec fn asking(self, flag: Flag) -> Self {
        MessagingView { flag: Some(flag), completion_counter: 0, ..self }
    }

    /// A worker has ended.
    pub open spec fn with_worker_ended(self, has_panic: bool) -> Self {
        MessagingView { panic_detected: self.panic_detected || has_panic, ..self }
    }
}

impl<J, M> View for Messaging<J, M> {
    type V = MessagingView<J, M>;

    open spec fn view(&self) -> MessagingView<J, M> {
        MessagingView {
            job_queue: self.job_queue@,
            flag: self.flag,
            completion_counter: self.completion_counter as nat,
            panic_detected: self.panic_detected,
            state_maker: self.state_maker,
        }
    }
}

impl<J, M> Messaging<J, M> {
    /// Nothing queued, nothing asked, no one dead.
    pub fn new() -> (messaging: Self)
        ensures
            messaging@ == MessagingView::<J, M>::initial(),
            messaging@.wf(),
            messaging.job_queue@.len() == 0,
            messaging.flag is None,
            messaging.completion_counter == 0,
            !messaging.panic_detected,
            messaging.state_maker is None,
    {
        Messaging {
            job_queue: VecDeque::new(),
            flag: None,
            completion_counter: 0,
            panic_detected: false,
            state_maker: None,
        }
    }

    /// The last thing a worker does, whether it was told to leave or died of a panic.
    /// The caller of the pool has to be notified afterwards.
    pub fn worker_ended(&mut self, has_panic: bool)
        ensures
            final(self)@ == old(self)@.with_worker_ended(has_panic),
            old(self)@.wf() ==> final(self)@.wf(),
            final(self).panic_detected <==> old(self).panic_detected || has_panic,
            final(self).job_queue@ == old(self).job_queue@,
            final(self).flag == old(self).flag,
            final(self).completion_counter == old(self).completion_counter,
            final(self).state_maker == old(self).state_maker,
    {
        if has_panic {
            self.panic_detected = true;
        }
    }
}

} // verus!

//! What a worker keeps to itself, and how it gets a state.
use vstd::prelude::*;

verus! {

/// A call of a state maker. Only `Calls::renew` can make one.
pub struct Call {
    made_here: (),
}

/// What makes states of type `S`.
pub trait StateMaker<S> {
    /// It may be called.
    spec fn can_make(&self) -> bool;

    /// A call may return `state`.
    spec fn makes(&self, state: S) -> bool;

    /// Makes a state.
    fn create(&self, call: Call) -> (state: S)
        requires
            self.can_make(),
        ensures
            self.makes(state),
    ;
}

impl<S, F: Fn() -> S> StateMaker<S> for F {
    open spec fn can_make(&self) -> bool {
        call_requires(*self, ())
    }

    open spec fn makes(&self, state: S) -> bool {
        call_ensures(*self, (), state)
    }

    fn create(&self, call: Call) -> (state: S) {
        self()
    }
}

/// A closure makes what it returns, and may be called as a maker where it may be called.
pub proof fn closures_make_what_they_return<S, F: Fn() -> S>(f: F, state: S)
    ensures
        StateMaker::<S>::can_make(&f) <==> call_requires(f, ()),
        StateMaker::<S>::makes(&f, state) <==> call_ensures(f, (), state),
{
}

/// A state that a worker has given up: it lives until it is let go.
#[derive(Debug)]
pub struct Retired<S> {
    state: S,
}

impl<S> Retired<S> {
    /// The state that was given up.
    pub closed spec fn state(self) -> S {
        self.state
    }
}

/// How often a worker has called a state maker. Only `Calls::renew` calls one, and counts.
pub struct Calls {
    count: Ghost<nat>,
}

impl Calls {
    /// The number of calls.
    pub closed spec fn count(self) -> nat {
        self.count@
    }

    /// Replaces a state by a new one, with one call of the maker, and gives up the old one.
    pub(crate) fn renew<S, M: StateMaker<S>>(&mut self, state: &mut S, maker: &M) -> (retired:
        Retired<S>)
        requires
            maker.can_make(),
        ensures
            maker.makes(*final(state)),
            retired.state() == *old(state),
            final(self).count() == old(self).count() + 1,
    {
        let mut replaced = maker.create(Call { made_here: () });
        self.count = Ghost(self.count@ + 1);
        std::mem::swap(state, &mut replaced);
        Retired { state: replaced }
    }
}

/// What a worker keeps to itself.
pub struct Worker<S> {
    /// It has answered a `Checkpoint` or a `SetState`, and no `Resume` since.
    pub in_checkpoint: bool,
    /// What it hands to the jobs that it runs.
    pub state: S,
    /// Its calls of state makers.
    pub calls: Calls,
}

impl<S> Worker<S> {
    /// A worker that has just been started.
    pub fn new(state: S) -> (worker: Self)
        ensures
            !worker.in_checkpoint,
            worker.state == state,
            worker.calls.count() == 0,
    {
        Worker { in_checkpoint: false, state, calls: Calls { count: Ghost(0) } }
    }
}

} // verus!

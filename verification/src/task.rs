//! Jobs.
use vstd::prelude::*;

verus! {

/// A job: one that takes nothing, or one that takes the state of the worker that runs it.
#[derive(Debug, PartialEq, Eq)]
pub enum Task<F, G> {
    FnStateless(F),
    FnState(G),
}

impl<F, G> Task<F, G> {
    /// Runs the job on a worker's state. A job that takes nothing leaves it alone.
    pub fn run<S>(self, state: &mut S)
        where F: FnOnce(), G: FnOnce(&mut S)
        requires
            self matches Task::FnStateless(f) ==> call_requires(f, ()),
            self matches Task::FnState(g) ==> forall|r: &mut S|
                *r == *old(state) ==> call_requires(g, (r,)),
        ensures
            self matches Task::FnStateless(f) ==> call_ensures(f, (), ()) && *final(state) == *old(
                state,
            ),
            self matches Task::FnState(g) ==> exists|r: &mut S|
                *r == *old(state) && *final(r) == *final(state) && #[trigger] call_ensures(
                    g,
                    (r,),
                    (),
                ),
    {
        match self {
            Task::FnStateless(f) => f(),
            Task::FnState(g) => g(state),
        }
    }
}

} // verus!

//! How every call into a pool comes to its end, where the threads are scheduled fairly and
//! every job and every state maker returns or panics.
use crate::consistency::{lemma_count_bounds, lemma_initial_reachable, lemma_next};
use crate::consistency::{lemma_next_reachable, lemma_reachable, lemma_ready_exists, some_asleep};
use crate::consistency::some_panicked;
use crate::laws::{all_jobs_done, dropping_ends_every_worker, dropping_panics_only_over_jobs_left};
use crate::laws::{ending_outcome, every_job_runs_once, free_workers_take_the_oldest_job, is_panic};
use crate::laws::{known_panic_has_happened, leaves_scope, panics_come_from_jobs_and_makers};
use crate::laws::{scope_panics_iff_a_worker_has, scope_returns_after_all_jobs};
use crate::messaging::Failure;
use crate::pool::{over_backlog, Closing, Outcome, Pool, Stage};
use crate::progress::{can_move, due, helps, moves, moves_left, someone_can_gather};
use crate::progress::{someone_can_go_on, someone_can_take_a_job, waiting_leaves_fewer_moves};
use crate::progress::{waits, Wait};
use crate::system::{reachable, Activity, Event, Operation, System};
use vstd::prelude::*;

verus! {

/// What happens between one moment and the next; it may be nothing.
pub open spec fn happens<J, M>(
    s: System<J, M>,
    event: Option<Event<J, M>>,
    t: System<J, M>,
) -> bool {
    match event {
        Some(event) => s.next(event, t),
        None => t == s,
    }
}

/// A pool's life, moment by moment, for ever.
pub open spec fn is_life<J, M>(
    states: spec_fn(nat) -> System<J, M>,
    events: spec_fn(nat) -> Option<Event<J, M>>,
) -> bool {
    &&& exists|pool: Pool| pool.nthreads() >= 1 && states(0) == System::<J, M>::initial(pool)
    &&& forall|k: nat| happens(states(k), #[trigger] events(k), states(k + 1))
}

/// Worker `i` moves: it takes its turn, its job ends, or it ends itself.
pub open spec fn worker_moves<J, M>(event: Option<Event<J, M>>, i: int) -> bool {
    event matches Some(e) && (moves(e, i) || e == Event::<J, M>::WorkerEnds(i))
}

/// The caller takes its next turn in a call.
pub open spec fn caller_moves<J, M>(event: Option<Event<J, M>>) -> bool {
    event == Some(Event::<J, M>::Proceed)
}

/// The caller is in a call that waits.
pub open spec fn in_call<J, M>(s: System<J, M>) -> bool {
    s.caller is GivingState || s.caller is EndingScope || s.caller is Settling
}

/// After `n` there is a moment at which worker `i` moves or cannot.
pub open spec fn worker_gets_on<J, M>(
    states: spec_fn(nat) -> System<J, M>,
    events: spec_fn(nat) -> Option<Event<J, M>>,
    i: int,
    n: nat,
) -> bool {
    exists|m: nat| n <= m && (!can_move(#[trigger] states(m), i) || worker_moves(events(m), i))
}

/// After `n` there is a moment at which the caller goes on with its call, or is in none, or
/// sleeps.
pub open spec fn caller_gets_on<J, M>(
    states: spec_fn(nat) -> System<J, M>,
    events: spec_fn(nat) -> Option<Event<J, M>>,
    n: nat,
) -> bool {
    exists|m: nat|
        n <= m && (!in_call(#[trigger] states(m)) || states(m).asleep || caller_moves(events(m)))
}

/// The threads are scheduled fairly, and every job and every state maker ends: no worker
/// that can move is kept from it for ever, nor is the caller.
pub open spec fn is_fair<J, M>(
    states: spec_fn(nat) -> System<J, M>,
    events: spec_fn(nat) -> Option<Event<J, M>>,
) -> bool {
    &&& forall|i: int, n: nat| #[trigger] worker_gets_on(states, events, i, n)
    &&& forall|n: nat| #[trigger] caller_gets_on(states, events, n)
}

/// A job or a state maker has panicked on a worker before the moment `n`.
pub open spec fn panicked_before<J, M>(
    events: spec_fn(nat) -> Option<Event<J, M>>,
    n: nat,
) -> bool {
    exists|j: nat| j < n && (#[trigger] events(j) matches Some(e) && is_panic(e))
}

/// At each moment of its life the pool is as it can come to be, and a worker has panicked
/// if and only if a job or a state maker has.
pub proof fn moments_of_a_life<J, M>(
    states: spec_fn(nat) -> System<J, M>,
    events: spec_fn(nat) -> Option<Event<J, M>>,
    n: nat,
)
    requires
        is_life(states, events),
    ensures
        reachable(states(n)),
        some_panicked(states(n)) <==> panicked_before(events, n),
    decreases n,
{
    if n == 0 {
        let pool = choose|pool: Pool|
            pool.nthreads() >= 1 && states(0) == System::<J, M>::initial(pool);
        lemma_initial_reachable::<J, M>(pool);
    } else {
        let p = (n - 1) as nat;
        moments_of_a_life(states, events, p);
        assert(happens(states(p), events(p), states(p + 1)));
        if let Some(e) = events(p) {
            lemma_next_reachable(states(p), e, states(n));
            panics_come_from_jobs_and_makers(states(p), e, states(n));
        }
        assert(panicked_before(events, n) <==> panicked_before(events, p) || (events(p) matches Some(
            e,
        ) && is_panic(e)));
    }
}

/// A worker that can move does, and stays as it is until then.
proof fn lemma_worker_moves<J, M>(
    states: spec_fn(nat) -> System<J, M>,
    events: spec_fn(nat) -> Option<Event<J, M>>,
    i: int,
    n: nat,
    bound: nat,
) -> (m: nat)
    requires
        is_life(states, events),
        can_move(states(n), i),
        n <= bound,
        !can_move(states(bound), i) || worker_moves(events(bound), i),
    ensures
        n <= m,
        worker_moves(events(m), i),
        forall|k: nat|
            n <= k <= m ==> (#[trigger] states(k)).workers[i] == states(n).workers[i] && can_move(
                states(k),
                i,
            ),
    decreases bound - n,
{
    if worker_moves(events(n), i) {
        n
    } else {
        assert(happens(states(n), events(n), states(n + 1)));
        let m = lemma_worker_moves(states, events, i, n + 1, bound);
        assert forall|k: nat| n <= k <= m implies (#[trigger] states(k)).workers[i] == states(
            n,
        ).workers[i] && can_move(states(k), i) by {
            if k > n {
                assert(n + 1 <= k <= m);
            }
        }
        m
    }
}

/// The caller stays in its stage until what it waits for has come; until then each move
/// of a worker that it waits for leaves fewer of them.
proof fn lemma_waiting_step<J, M>(wait: Wait, s: System<J, M>, event: Event<J, M>, t: System<J, M>)
    requires
        reachable(s),
        waits(wait, s),
        !due(s),
        s.next(event, t),
    ensures
        t.caller == s.caller,
        due(t) || (waits(wait, t) && moves_left(wait, t) <= moves_left(wait, s) && (helps(
            wait,
            s,
            event,
        ) ==> moves_left(wait, t) < moves_left(wait, s))),
{
    lemma_reachable(s);
    lemma_next(s, event, t);
    if !due(t) {
        waiting_leaves_fewer_moves(wait, s, event, t);
    }
}

/// What the caller waits for does not go away before its next turn.
proof fn lemma_due_step<J, M>(s: System<J, M>, event: Event<J, M>, t: System<J, M>)
    requires
        reachable(s),
        due(s),
        s.next(event, t),
        !(event is Proceed),
    ensures
        due(t),
        t.caller == s.caller,
{
    lemma_reachable(s);
    lemma_count_bounds(s.workers);
}

/// Worker `i` can move, and the caller waits for that.
spec fn awaited<J, M>(wait: Wait, s: System<J, M>, i: int) -> bool {
    can_move(s, i) && match wait {
        Wait::Gathering => !s.workers[i].in_checkpoint,
        Wait::Draining => s.workers[i].in_checkpoint && s.workers[i].activity is Ready,
        Wait::Submitting => true,
    }
}

/// Some worker can move that the caller waits for.
proof fn lemma_someone_awaited<J, M>(wait: Wait, s: System<J, M>) -> (i: int)
    requires
        reachable(s),
        waits(wait, s),
        !due(s),
    ensures
        awaited(wait, s, i),
{
    lemma_reachable(s);
    match wait {
        Wait::Gathering => someone_can_gather(s),
        Wait::Draining => someone_can_go_on(s),
        Wait::Submitting => someone_can_take_a_job(s),
    }
}

/// From `n` to the move of worker `i` at `m`: what the caller waits for comes, or that
/// move leaves fewer of them.
proof fn lemma_until_move<J, M>(
    wait: Wait,
    states: spec_fn(nat) -> System<J, M>,
    events: spec_fn(nat) -> Option<Event<J, M>>,
    i: int,
    n: nat,
    m: nat,
) -> (r: nat)
    requires
        is_life(states, events),
        waits(wait, states(n)),
        !due(states(n)),
        n <= m,
        worker_moves(events(m), i),
        forall|k: nat| n <= k <= m ==> awaited(wait, #[trigger] states(k), i),
    ensures
        n <= r,
        forall|k: nat| n <= k <= r ==> (#[trigger] states(k)).caller == states(n).caller,
        due(states(r)) || (waits(wait, states(r)) && moves_left(wait, states(r)) < moves_left(
            wait,
            states(n),
        )),
    decreases m - n,
{
    let s = states(n);
    let t = states(n + 1);
    moments_of_a_life(states, events, n);
    assert(happens(s, events(n), t));
    if let Some(e) = events(n) {
        lemma_waiting_step(wait, s, e, t);
    }
    if due(t) {
        n + 1
    } else if n == m {
        let e = events(n)->0;
        assert(awaited(wait, states(n), i));
        lemma_reachable(s);
        if e == Event::<J, M>::WorkerEnds(i) {
            assert(t.messaging.panic_detected);
        } else {
            assert(moves(e, i));
            assert(helps(wait, s, e));
        }
        n + 1
    } else {
        let r = lemma_until_move(wait, states, events, i, n + 1, m);
        assert forall|k: nat| n <= k <= r implies (#[trigger] states(k)).caller == states(
            n,
        ).caller by {
            if k > n {
                assert(n + 1 <= k <= r);
            }
        }
        r
    }
}

/// What the caller waits for comes.
proof fn lemma_becomes_due<J, M>(
    wait: Wait,
    states: spec_fn(nat) -> System<J, M>,
    events: spec_fn(nat) -> Option<Event<J, M>>,
    n: nat,
) -> (r: nat)
    requires
        is_life(states, events),
        is_fair(states, events),
        waits(wait, states(n)),
        !due(states(n)),
    ensures
        n <= r,
        due(states(r)),
        forall|k: nat| n <= k <= r ==> (#[trigger] states(k)).caller == states(n).caller,
    decreases moves_left(wait, states(n)),
{
    moments_of_a_life(states, events, n);
    let i = lemma_someone_awaited(wait, states(n));
    assert(worker_gets_on(states, events, i, n));
    let bound = choose|m: nat|
        n <= m && (!can_move(#[trigger] states(m), i) || worker_moves(events(m), i));
    let m = lemma_worker_moves(states, events, i, n, bound);
    let r = lemma_until_move(wait, states, events, i, n, m);
    if due(states(r)) {
        r
    } else {
        let q = lemma_becomes_due(wait, states, events, r);
        assert forall|k: nat| n <= k <= q implies (#[trigger] states(k)).caller == states(
            n,
        ).caller by {
            if k > r {
                assert(r <= k <= q);
                assert(states(k).caller == states(r).caller);
            }
        }
        assert(states(r).caller == states(n).caller);
        q
    }
}

/// Once what the caller waits for has come, it takes its next turn.
proof fn lemma_proceeds<J, M>(
    states: spec_fn(nat) -> System<J, M>,
    events: spec_fn(nat) -> Option<Event<J, M>>,
    n: nat,
    bound: nat,
) -> (m: nat)
    requires
        is_life(states, events),
        due(states(n)),
        n <= bound,
        !in_call(states(bound)) || states(bound).asleep || caller_moves(events(bound)),
    ensures
        n <= m,
        caller_moves(events(m)),
        due(states(m)),
        forall|k: nat| n <= k <= m ==> (#[trigger] states(k)).caller == states(n).caller,
    decreases bound - n,
{
    moments_of_a_life(states, events, n);
    lemma_reachable(states(n));
    if caller_moves(events(n)) {
        n
    } else {
        assert(happens(states(n), events(n), states(n + 1)));
        if let Some(e) = events(n) {
            lemma_due_step(states(n), e, states(n + 1));
        }
        let m = lemma_proceeds(states, events, n + 1, bound);
        assert forall|k: nat| n <= k <= m implies (#[trigger] states(k)).caller == states(
            n,
        ).caller by {
            if k > n {
                assert(n + 1 <= k <= m);
            }
        }
        m
    }
}

/// The caller does not stay in one stage of a call for ever.
proof fn lemma_stage_ends<J, M>(
    states: spec_fn(nat) -> System<J, M>,
    events: spec_fn(nat) -> Option<Event<J, M>>,
    n: nat,
) -> (m: nat)
    requires
        is_life(states, events),
        is_fair(states, events),
        in_call(states(n)),
    ensures
        n <= m,
        caller_moves(events(m)),
        due(states(m)),
        reachable(states(m)),
        states(m).next(Event::Proceed, states(m + 1)),
        forall|k: nat| n <= k <= m ==> (#[trigger] states(k)).caller == states(n).caller,
{
    let s = states(n);
    moments_of_a_life(states, events, n);
    lemma_reachable(s);
    let r = if due(s) {
        n
    } else {
        let wait = if s.caller is Settling {
            Wait::Submitting
        } else if s.caller == Operation::<J, M>::EndingScope(Stage::Gather) || s.caller
            == Operation::<J, M>::GivingState(Stage::Gather) {
            Wait::Gathering
        } else {
            Wait::Draining
        };
        lemma_becomes_due(wait, states, events, n)
    };
    assert(caller_gets_on(states, events, r));
    let bound = choose|m: nat|
        r <= m && (!in_call(#[trigger] states(m)) || states(m).asleep || caller_moves(events(m)));
    let m = lemma_proceeds(states, events, r, bound);
    assert(states(r).caller == states(n).caller);
    assert forall|k: nat| n <= k <= m implies (#[trigger] states(k)).caller == states(
        n,
    ).caller by {
        if k > r {
            assert(states(k).caller == states(r).caller);
        }
    }
    moments_of_a_life(states, events, m);
    assert(happens(states(m), events(m), states(m + 1)));
    m
}

/// A meeting comes to its end: the caller takes its last turn in it.
proof fn lemma_meeting_ends<J, M>(
    states: spec_fn(nat) -> System<J, M>,
    events: spec_fn(nat) -> Option<Event<J, M>>,
    n: nat,
) -> (m: nat)
    requires
        is_life(states, events),
        is_fair(states, events),
        states(n).caller is EndingScope || states(n).caller is GivingState,
    ensures
        n <= m,
        caller_moves(events(m)),
        reachable(states(m)),
        states(m).next(Event::Proceed, states(m + 1)),
        states(n).caller is EndingScope ==> {
            &&& forall|k: nat| n <= k <= m ==> (#[trigger] states(k)).caller is EndingScope
            &&& states(m + 1).caller is Idle
        },
        states(n).caller is GivingState ==> {
            &&& forall|k: nat| n <= k <= m ==> (#[trigger] states(k)).caller is GivingState
            &&& states(m + 1).caller is InScope
        },
    decreases stages_left(states(n)),
{
    moments_of_a_life(states, events, n);
    lemma_reachable(states(n));
    let m = lemma_stage_ends(states, events, n);
    assert(states(m).caller == states(n).caller);
    lemma_reachable(states(m));
    if states(m + 1).caller is EndingScope || states(m + 1).caller is GivingState {
        let q = lemma_meeting_ends(states, events, m + 1);
        assert forall|k: nat|
            n <= k <= q && states(n).caller is EndingScope implies (#[trigger] states(
            k,
        )).caller is EndingScope by {
            if k <= m {
                assert(states(k).caller == states(n).caller);
            } else {
                assert(m + 1 <= k <= q);
            }
        }
        assert forall|k: nat|
            n <= k <= q && states(n).caller is GivingState implies (#[trigger] states(
            k,
        )).caller is GivingState by {
            if k <= m {
                assert(states(k).caller == states(n).caller);
            } else {
                assert(m + 1 <= k <= q);
            }
        }
        q
    } else {
        m
    }
}

/// How many stages of a meeting are left.
spec fn stages_left<J, M>(s: System<J, M>) -> nat {
    match s.caller {
        Operation::GivingState(Stage::Gather) => 2,
        Operation::GivingState(Stage::Release) => 1,
        Operation::EndingScope(Stage::Gather) => 2,
        Operation::EndingScope(Stage::Release) => 1,
        _ => 0,
    }
}

/// A scope whose code returns comes to its end: the meeting that begins at `n` takes its
/// last turn at a moment `m`. It panics if a job or a state maker has panicked on a worker
/// since the pool was made, and only then; otherwise it returns, and all jobs are done.
pub proof fn scope_comes_to_its_end<J, M>(
    states: spec_fn(nat) -> System<J, M>,
    events: spec_fn(nat) -> Option<Event<J, M>>,
    n: nat,
) -> (m: nat)
    requires
        is_life(states, events),
        is_fair(states, events),
        events(n) == Some(Event::<J, M>::EndScope),
    ensures
        n <= m,
        events(m) is Some,
        leaves_scope(states(m), states(m + 1)),
        forall|k: nat| n < k <= m ==> (#[trigger] states(k)).caller is EndingScope,
        panicked_before(events, m) <==> ending_outcome(states(m), events(m)->0) == Outcome::<
            (),
            (),
        >::Panic(Failure::WorkerPanicked),
        !panicked_before(events, m) <==> ending_outcome(states(m), events(m)->0) == Outcome::<
            (),
            (),
        >::Done(()),
        !panicked_before(events, m) ==> all_jobs_done(states(m + 1)) && states(m + 1).submitted
            == states(n).submitted,
{
    moments_of_a_life(states, events, n);
    assert(happens(states(n), events(n), states(n + 1)));
    lemma_reachable(states(n));
    let m = if states(n + 1).caller is Idle {
        n
    } else {
        lemma_meeting_ends(states, events, n + 1)
    };
    moments_of_a_life(states, events, m);
    scope_panics_iff_a_worker_has(states(m), events(m)->0, states(m + 1));
    if !panicked_before(events, m) {
        lemma_reachable(states(m));
        if m == n {
            assert(states(n).messaging.panic_detected);
            known_panic_has_happened(states(n));
        } else {
            scope_returns_after_all_jobs(
                states(m),
                states(m).caller->EndingScope_0,
                states(m + 1),
            );
            lemma_nothing_submitted(states, events, n, m);
        }
    }
    m
}

/// Nothing is submitted while a scope ends.
proof fn lemma_nothing_submitted<J, M>(
    states: spec_fn(nat) -> System<J, M>,
    events: spec_fn(nat) -> Option<Event<J, M>>,
    n: nat,
    m: nat,
)
    requires
        is_life(states, events),
        events(n) == Some(Event::<J, M>::EndScope),
        n < m,
        forall|k: nat| n < k <= m ==> (#[trigger] states(k)).caller is EndingScope,
    ensures
        states(m).submitted == states(n).submitted,
    decreases m - n,
{
    let p = (m - 1) as nat;
    assert(happens(states(p), events(p), states(p + 1)));
    if p > n {
        lemma_nothing_submitted(states, events, n, p);
        assert(states(p).caller is EndingScope);
    }
}

/// The giving of a state comes to its end: the meeting that begins at `n` takes its last
/// turn at a moment `m`. It panics if a job or a state maker has panicked on a worker since
/// the pool was made, and only then; otherwise the scope has its state, and every worker
/// has called the maker once, has called no other, and has given up one state.
pub proof fn state_giving_comes_to_its_end<J, M>(
    states: spec_fn(nat) -> System<J, M>,
    events: spec_fn(nat) -> Option<Event<J, M>>,
    n: nat,
    maker: M,
) -> (m: nat)
    requires
        is_life(states, events),
        is_fair(states, events),
        events(n) == Some(Event::<J, M>::WithState(maker)),
    ensures
        n <= m,
        forall|k: nat| n < k <= m ==> (#[trigger] states(k)).caller is GivingState,
        panicked_before(events, m) <==> states(m + 1).caller == Operation::<J, M>::InScope(None),
        !panicked_before(events, m) <==> states(m + 1).caller == Operation::<J, M>::InScope(
            Some(states(m + 1).makers.len()),
        ),
        !panicked_before(events, m) ==> forall|i: int|
            0 <= i < states(n).workers.len() ==> {
                let before = #[trigger] states(n).workers[i];
                let after = states(m + 1).workers[i];
                &&& after.made == before.made.push(maker)
                &&& after.given_up == before.given_up + 1
            },
{
    moments_of_a_life(states, events, n);
    assert(happens(states(n), events(n), states(n + 1)));
    lemma_reachable(states(n));
    if states(n).messaging.panic_detected {
        known_panic_has_happened(states(n));
    }
    let m = if states(n + 1).caller is InScope {
        n
    } else {
        lemma_meeting_ends(states, events, n + 1)
    };
    moments_of_a_life(states, events, m);
    lemma_reachable(states(m));
    if states(m).messaging.panic_detected {
        known_panic_has_happened(states(m));
    }
    if m > n {
        assert(states(m).caller is GivingState);
        lemma_count_bounds(states(m).workers);
        lemma_no_other_maker(states, events, n, m, maker);
        lemma_grows(states, events, n, m + 1);
        moments_of_a_life(states, events, m + 1);
        lemma_reachable(states(m + 1));
        if !panicked_before(events, m) {
            lemma_panics_stay(states, events, n, m);
            assert forall|i: int| 0 <= i < states(n).workers.len() implies ({
                let before = #[trigger] states(n).workers[i];
                let after = states(m + 1).workers[i];
                &&& after.made == before.made.push(maker)
                &&& after.given_up == before.given_up + 1
            }) by {
                assert(states(m + 1).workers[i].made == states(m + 1).makers);
            }
        }
    }
    m
}

/// No other state maker is given while one is.
proof fn lemma_no_other_maker<J, M>(
    states: spec_fn(nat) -> System<J, M>,
    events: spec_fn(nat) -> Option<Event<J, M>>,
    n: nat,
    m: nat,
    maker: M,
)
    requires
        is_life(states, events),
        events(n) == Some(Event::<J, M>::WithState(maker)),
        n < m,
        forall|k: nat| n < k <= m ==> (#[trigger] states(k)).caller is GivingState,
    ensures
        states(m).makers == states(n).makers.push(maker),
    decreases m - n,
{
    let p = (m - 1) as nat;
    assert(happens(states(p), events(p), states(p + 1)));
    if p > n {
        lemma_no_other_maker(states, events, n, p, maker);
        assert(states(p).caller is GivingState);
    }
}

/// Where nothing has panicked, no panic was known before.
proof fn lemma_panics_stay<J, M>(
    states: spec_fn(nat) -> System<J, M>,
    events: spec_fn(nat) -> Option<Event<J, M>>,
    n: nat,
    m: nat,
)
    requires
        is_life(states, events),
        n <= m,
        !panicked_before(events, m),
    ensures
        !some_panicked(states(n)),
        !states(n).messaging.panic_detected,
{
    moments_of_a_life(states, events, n);
    if states(n).messaging.panic_detected {
        known_panic_has_happened(states(n));
    }
    if panicked_before(events, n) {
        let j = choose|j: nat| j < n && (#[trigger] events(j) matches Some(e) && is_panic(e));
        assert(j < m);
    }
}

/// Jobs that are submitted or started stay so.
proof fn lemma_grows<J, M>(
    states: spec_fn(nat) -> System<J, M>,
    events: spec_fn(nat) -> Option<Event<J, M>>,
    n: nat,
    m: nat,
)
    requires
        is_life(states, events),
        n <= m,
    ensures
        states(n).started <= states(m).started,
        states(n).submitted.len() <= states(m).submitted.len(),
        states(m).workers.len() == states(n).workers.len(),
    decreases m - n,
{
    if n < m {
        let p = (m - 1) as nat;
        lemma_grows(states, events, n, p);
        moments_of_a_life(states, events, p);
        lemma_reachable(states(p));
        assert(happens(states(p), events(p), states(p + 1)));
    }
}

/// A worker in its loop that is not in a checkpoint serves the queue, whoever else has
/// panicked and whatever is asked of the workers: each job that has been submitted is
/// taken, unless a job of that worker panics before.
pub proof fn free_workers_serve_the_queue<J, M>(
    states: spec_fn(nat) -> System<J, M>,
    events: spec_fn(nat) -> Option<Event<J, M>>,
    n: nat,
    i: int,
    k: nat,
) -> (m: nat)
    requires
        is_life(states, events),
        is_fair(states, events),
        0 <= i < states(n).workers.len(),
        states(n).workers[i].activity is Ready || states(n).workers[i].activity is Busy,
        !states(n).workers[i].in_checkpoint,
        k < states(n).submitted.len(),
    ensures
        n <= m,
        k < states(m).started || states(m).workers[i].panicked(),
    decreases k + 1 - states(n).started, (if states(n).workers[i].activity is Busy {
        1int
    } else {
        0int
    }),
{
    if k < states(n).started {
        n
    } else {
        assert(worker_gets_on(states, events, i, n));
        let bound = choose|m: nat|
            n <= m && (!can_move(#[trigger] states(m), i) || worker_moves(events(m), i));
        let m = lemma_worker_moves(states, events, i, n, bound);
        lemma_grows(states, events, n, m);
        assert(states(m).workers[i] == states(n).workers[i]);
        if k < states(m).started {
            m
        } else {
            let s = states(m);
            let t = states(m + 1);
            moments_of_a_life(states, events, m);
            lemma_reachable(s);
            assert(happens(s, events(m), t));
            let e = events(m)->0;
            assert(s.messaging.job_queue.len() > 0);
            if e == Event::<J, M>::WorkerTurn(i) {
                free_workers_take_the_oldest_job(s, i, t);
            }
            if t.workers[i].panicked() {
                m + 1
            } else {
                free_workers_serve_the_queue(states, events, m + 1, i, k)
            }
        }
    }
}

/// Each job that has been submitted is taken, unless a worker panics before.
pub proof fn every_job_is_started<J, M>(
    states: spec_fn(nat) -> System<J, M>,
    events: spec_fn(nat) -> Option<Event<J, M>>,
    n: nat,
    k: nat,
) -> (m: nat)
    requires
        is_life(states, events),
        is_fair(states, events),
        k < states(n).submitted.len(),
    ensures
        n <= m,
        k < states(m).started || panicked_before(events, m),
{
    let s = states(n);
    moments_of_a_life(states, events, n);
    lemma_reachable(s);
    if k < s.started || some_panicked(s) {
        n
    } else {
        if s.messaging.panic_detected {
            known_panic_has_happened(s);
        }
        assert(s.messaging.job_queue.len() > 0);
        let i = if s.messaging.flag is None && some_asleep(s) {
            lemma_ready_exists(s.workers)
        } else {
            assert(!(s.workers[0].activity is Asleep));
            0
        };
        assert(!s.workers[i].panicked());
        let m = free_workers_serve_the_queue(states, events, n, i, k);
        moments_of_a_life(states, events, m);
        lemma_grows(states, events, n, m);
        m
    }
}

/// Each job that has been taken returns or panics.
pub proof fn every_started_job_ends<J, M>(
    states: spec_fn(nat) -> System<J, M>,
    events: spec_fn(nat) -> Option<Event<J, M>>,
    n: nat,
    k: nat,
) -> (m: nat)
    requires
        is_life(states, events),
        is_fair(states, events),
        k < states(n).started,
    ensures
        n <= m,
        states(m).finished.contains(k) || states(m).failed.contains(k),
{
    let s = states(n);
    moments_of_a_life(states, events, n);
    every_job_runs_once(s, k);
    if s.finished.contains(k) || s.failed.contains(k) {
        n
    } else {
        let i = choose|i: int|
            0 <= i < s.workers.len() && (#[trigger] s.workers[i]).activity == Activity::Busy(k);
        assert(worker_gets_on(states, events, i, n));
        let bound = choose|m: nat|
            n <= m && (!can_move(#[trigger] states(m), i) || worker_moves(events(m), i));
        let m = lemma_worker_moves(states, events, i, n, bound);
        assert(states(m).workers[i] == s.workers[i]);
        assert(happens(states(m), events(m), states(m + 1)));
        m + 1
    }
}

/// A pool without jobs left that is dropped ends all its workers.
pub proof fn dropped_pools_end<J, M>(
    states: spec_fn(nat) -> System<J, M>,
    events: spec_fn(nat) -> Option<Event<J, M>>,
    n: nat,
    i: int,
) -> (m: nat)
    requires
        is_life(states, events),
        is_fair(states, events),
        events(n) == Some(Event::<J, M>::Drop),
        states(n).messaging.job_queue.len() == 0,
        0 <= i < states(n).workers.len(),
    ensures
        n <= m,
        states(m).workers[i].activity is Gone,
{
    moments_of_a_life(states, events, n);
    assert(happens(states(n), events(n), states(n + 1)));
    dropping_panics_only_over_jobs_left(states(n), states(n + 1));
    dropped_workers_end(states, events, n + 1, i)
}

/// A submission comes to its end: that of the job submitted at `n` takes its last turn at
/// a moment `m`. It has then panicked over a worker that is known to be dead, or no more
/// jobs are pending than the backlog allows.
pub proof fn submission_comes_to_its_end<J, M>(
    states: spec_fn(nat) -> System<J, M>,
    events: spec_fn(nat) -> Option<Event<J, M>>,
    n: nat,
    job: J,
) -> (m: nat)
    requires
        is_life(states, events),
        is_fair(states, events),
        events(n) == Some(Event::<J, M>::Execute(job)),
    ensures
        n <= m,
        forall|k: nat| n < k <= m ==> (#[trigger] states(k)).caller is Settling,
        states(m + 1).caller is InScope,
        states(m).messaging.panic_detected || !over_backlog(
            states(m + 1).backlog,
            states(m + 1).messaging.job_queue.len(),
        ),
{
    moments_of_a_life(states, events, n);
    assert(happens(states(n), events(n), states(n + 1)));
    lemma_reachable(states(n));
    moments_of_a_life(states, events, n + 1);
    lemma_reachable(states(n + 1));
    if states(n + 1).caller is Settling {
        let m = lemma_stage_ends(states, events, n + 1);
        assert forall|k: nat| n < k <= m implies (#[trigger] states(k)).caller is Settling by {
            assert(n + 1 <= k <= m);
        }
        m
    } else {
        n
    }
}

/// Once the pool is dropped, every worker ends.
pub proof fn dropped_workers_end<J, M>(
    states: spec_fn(nat) -> System<J, M>,
    events: spec_fn(nat) -> Option<Event<J, M>>,
    n: nat,
    i: int,
) -> (m: nat)
    requires
        is_life(states, events),
        is_fair(states, events),
        states(n).caller == Operation::<J, M>::Closed(Closing::Join),
        0 <= i < states(n).workers.len(),
    ensures
        n <= m,
        states(m).workers[i].activity is Gone,
    decreases turns_to_the_end(states(n), i),
{
    moments_of_a_life(states, events, n);
    dropping_ends_every_worker(states(n), i);
    if states(n).workers[i].activity is Gone {
        n
    } else {
        assert(worker_gets_on(states, events, i, n));
        let bound = choose|m: nat|
            n <= m && (!can_move(#[trigger] states(m), i) || worker_moves(events(m), i));
        let m = lemma_worker_moves(states, events, i, n, bound);
        lemma_stays_closed(states, events, n, m);
        assert(states(m).workers[i] == states(n).workers[i]);
        moments_of_a_life(states, events, m);
        dropping_ends_every_worker(states(m), i);
        assert(happens(states(m), events(m), states(m + 1)));
        dropped_workers_end(states, events, m + 1, i)
    }
}

/// How many moves worker `i` of a dropped pool has left.
pub open spec fn turns_to_the_end<J, M>(s: System<J, M>, i: int) -> nat {
    match s.workers[i].activity {
        Activity::Busy(_) => 3,
        Activity::Ready => 2,
        Activity::Leaving(_) => 1,
        _ => 0,
    }
}

proof fn lemma_stays_closed<J, M>(
    states: spec_fn(nat) -> System<J, M>,
    events: spec_fn(nat) -> Option<Event<J, M>>,
    n: nat,
    m: nat,
)
    requires
        is_life(states, events),
        states(n).caller == Operation::<J, M>::Closed(Closing::Join),
        n <= m,
    ensures
        states(m).caller == states(n).caller,
        states(m).workers.len() == states(n).workers.len(),
    decreases m - n,
{
    if n < m {
        let p = (m - 1) as nat;
        lemma_stays_closed(states, events, n, p);
        moments_of_a_life(states, events, p);
        assert(happens(states(p), events(p), states(p + 1)));
    }
}

} // verus!

//! Why a caller that waits does not wait in vain: some worker that it waits for can move,
//! and there are only so many such moves.
use crate::consistency::{checkpoint_count, lemma_count_bounds, lemma_count_update};
use crate::consistency::{lemma_ready_exists, lemma_reachable, lemma_run_reachable, some_asleep};
use crate::consistency::some_panicked;
use crate::laws::{draining, gathering, submitting};
use crate::pool::{over_backlog, settlement_of, Stage};
use crate::scope::submission_of;
use crate::system::{is_run, reachable, Activity, Event, Operation, System, WorkerModel};
use crate::worker::turn_of;
use vstd::prelude::*;

verus! {

/// What a worker has still to do before it has gathered: end its job, and answer. One that
/// has left its loop does neither.
pub open spec fn duties<M>(w: WorkerModel<M>) -> nat {
    if w.activity is Leaving || w.activity is Gone {
        0
    } else {
        (if w.activity is Busy {
            1nat
        } else {
            0nat
        }) + (if w.in_checkpoint {
            0nat
        } else {
            1nat
        })
    }
}

/// What all workers have still to do before they have gathered.
pub open spec fn all_duties<M>(workers: Seq<WorkerModel<M>>) -> nat
    decreases workers.len(),
{
    if workers.len() == 0 {
        0
    } else {
        all_duties(workers.drop_last()) + duties(workers.last())
    }
}

/// What is left to do before the workers have gathered: each job in the queue has to be
/// taken and ended.
pub open spec fn work_left<J, M>(s: System<J, M>) -> nat {
    2 * s.messaging.job_queue.len() + all_duties(s.workers)
}

/// How many workers run a job.
pub open spec fn busy_count<M>(workers: Seq<WorkerModel<M>>) -> nat
    decreases workers.len(),
{
    if workers.len() == 0 {
        0
    } else {
        busy_count(workers.drop_last()) + if workers.last().activity is Busy {
            1nat
        } else {
            0nat
        }
    }
}

/// Worker `i` is not held by anything: it runs a job, is about to take its turn, or has
/// left its loop and is about to say so.
pub open spec fn can_move<J, M>(s: System<J, M>, i: int) -> bool {
    &&& 0 <= i < s.workers.len()
    &&& s.workers[i].activity is Ready || s.workers[i].activity is Busy
        || s.workers[i].activity is Leaving
}

/// `event` is a move of worker `i` in its loop: it takes its turn, or its job ends.
pub open spec fn moves<J, M>(event: Event<J, M>, i: int) -> bool {
    ||| event == Event::<J, M>::WorkerTurn(i)
    ||| event == Event::<J, M>::MakerPanics(i)
    ||| event == Event::<J, M>::JobReturns(i)
    ||| event == Event::<J, M>::JobPanics(i)
}

proof fn lemma_duties_update<M>(workers: Seq<WorkerModel<M>>, i: int, w: WorkerModel<M>)
    requires
        0 <= i < workers.len(),
    ensures
        all_duties(workers.update(i, w)) == all_duties(workers) - duties(workers[i]) + duties(w),
    decreases workers.len(),
{
    let last = workers.len() - 1;
    if i == last {
        assert(workers.update(i, w).drop_last() =~= workers.drop_last());
    } else {
        lemma_duties_update(workers.drop_last(), i, w);
        assert(workers.update(i, w).drop_last() =~= workers.drop_last().update(i, w));
    }
}

proof fn lemma_busy_update<M>(workers: Seq<WorkerModel<M>>, i: int, w: WorkerModel<M>)
    requires
        0 <= i < workers.len(),
    ensures
        busy_count(workers.update(i, w)) == busy_count(workers) - (if workers[i].activity is Busy {
            1int
        } else {
            0int
        }) + (if w.activity is Busy {
            1int
        } else {
            0int
        }),
    decreases workers.len(),
{
    let last = workers.len() - 1;
    if i == last {
        assert(workers.update(i, w).drop_last() =~= workers.drop_last());
    } else {
        lemma_busy_update(workers.drop_last(), i, w);
        assert(workers.update(i, w).drop_last() =~= workers.drop_last().update(i, w));
    }
}

/// While not all workers have gathered and no panic is known, a worker that has not
/// gathered is free to move.
pub proof fn someone_can_gather<J, M>(s: System<J, M>) -> (i: int)
    requires
        reachable(s),
        gathering(s),
        !s.messaging.panic_detected,
        s.messaging.completion_counter != s.nthreads,
    ensures
        can_move(s, i),
        !s.workers[i].in_checkpoint,
{
    lemma_reachable(s);
    lemma_count_bounds(s.workers);
    let i = choose|i: int| 0 <= i < s.workers.len() && !(#[trigger] s.workers[i]).in_checkpoint;
    i
}

/// Each move of a worker that has not gathered leaves less to do, and nothing that
/// happens meanwhile leaves more.
pub proof fn gathering_leaves_less_to_do<J, M>(
    s: System<J, M>,
    event: Event<J, M>,
    t: System<J, M>,
)
    requires
        reachable(s),
        gathering(s),
        !s.messaging.panic_detected,
        s.next(event, t),
        gathering(t),
    ensures
        work_left(t) <= work_left(s),
        forall|i: int|
            moves(event, i) && !(#[trigger] s.workers[i]).in_checkpoint ==> work_left(t)
                < work_left(s),
{
    lemma_reachable(s);
    match event {
        Event::WorkerTurn(i) => lemma_duties_update(s.workers, i, t.workers[i]),
        Event::MakerPanics(i) => lemma_duties_update(s.workers, i, t.workers[i]),
        Event::JobReturns(i) => lemma_duties_update(s.workers, i, t.workers[i]),
        Event::JobPanics(i) => lemma_duties_update(s.workers, i, t.workers[i]),
        Event::WorkerEnds(i) => lemma_duties_update(s.workers, i, t.workers[i]),
        Event::WorkerWakes(i) => lemma_duties_update(s.workers, i, t.workers[i]),
        _ => {},
    }
}

/// While not all workers have gone on, one that has not is about to take its turn, and
/// with that turn it goes on.
pub proof fn someone_can_go_on<J, M>(s: System<J, M>) -> (i: int)
    requires
        reachable(s),
        draining(s),
        s.messaging.completion_counter != s.nthreads,
    ensures
        s.worker_is(i, Activity::Ready),
        s.workers[i].in_checkpoint,
        !s.after_turn(i).workers[i].in_checkpoint,
        s.after_turn(i).messaging.completion_counter == s.messaging.completion_counter + 1,
{
    lemma_reachable(s);
    lemma_count_bounds(s.workers);
    let i = choose|i: int| 0 <= i < s.workers.len() && (#[trigger] s.workers[i]).in_checkpoint;
    i
}

/// Each turn of a worker that has not gone on leaves fewer such workers, and nothing that
/// happens meanwhile leaves more.
pub proof fn draining_leaves_fewer_behind<J, M>(
    s: System<J, M>,
    event: Event<J, M>,
    t: System<J, M>,
)
    requires
        reachable(s),
        draining(s),
        s.next(event, t),
        draining(t),
    ensures
        s.messaging.completion_counter + checkpoint_count(s.workers) == s.nthreads,
        checkpoint_count(t.workers) <= checkpoint_count(s.workers),
        forall|i: int|
            moves(event, i) && (#[trigger] s.workers[i]).in_checkpoint ==> checkpoint_count(
                t.workers,
            ) < checkpoint_count(s.workers),
{
    lemma_reachable(s);
    match event {
        Event::WorkerTurn(i) => lemma_count_update(s.workers, i, t.workers[i]),
        Event::WorkerWakes(i) => lemma_count_update(s.workers, i, t.workers[i]),
        _ => {},
    }
}

/// While a submission has to wait and no panic is known, some worker is free to move, and
/// whichever worker takes its turn takes a job.
pub proof fn someone_can_take_a_job<J, M>(s: System<J, M>) -> (i: int)
    requires
        reachable(s),
        submitting(s),
        !s.messaging.panic_detected,
        over_backlog(s.backlog, s.messaging.job_queue.len()),
    ensures
        can_move(s, i),
        forall|j: int| #[trigger]
            s.worker_is(j, Activity::Ready) ==> turn_of(
                s.workers[j].in_checkpoint,
                s.messaging,
            ).action is Run && !s.after_turn(j).asleep,
{
    lemma_reachable(s);
    if some_asleep(s) {
        lemma_ready_exists(s.workers)
    } else {
        assert(!(s.workers[0].activity is Asleep));
        0
    }
}

/// Nothing that happens while a submission waits adds to the queue, and each turn of a
/// worker takes a job off it: after one such turn the submission is over, unless a panic
/// is known.
pub proof fn one_job_taken_is_enough<J, M>(s: System<J, M>, event: Event<J, M>, t: System<J, M>)
    requires
        reachable(s),
        submitting(s),
        s.next(event, t),
        submitting(t),
    ensures
        t.messaging.job_queue.len() <= s.messaging.job_queue.len(),
        event is WorkerTurn && !t.messaging.panic_detected && s.messaging.job_queue.len() > 0
            ==> settlement_of(t.backlog, t.messaging) is Done,
{
    lemma_reachable(s);
}

/// While a submission has to wait and no panic is known, each move of a worker takes a job
/// or leaves fewer workers busy, and nothing that happens meanwhile makes more of them
/// busy but the taking of a job.
pub proof fn waiting_leaves_fewer_busy<J, M>(s: System<J, M>, event: Event<J, M>, t: System<J, M>)
    requires
        reachable(s),
        submitting(s),
        !s.messaging.panic_detected,
        over_backlog(s.backlog, s.messaging.job_queue.len()),
        s.next(event, t),
    ensures
        t.messaging.job_queue.len() < s.messaging.job_queue.len() || busy_count(t.workers)
            <= busy_count(s.workers),
        forall|i: int| #[trigger]
            moves(event, i) ==> t.messaging.job_queue.len() < s.messaging.job_queue.len()
                || busy_count(t.workers) < busy_count(s.workers),
{
    lemma_reachable(s);
    match event {
        Event::WorkerTurn(i) => lemma_busy_update(s.workers, i, t.workers[i]),
        Event::MakerPanics(i) => lemma_busy_update(s.workers, i, t.workers[i]),
        Event::JobReturns(i) => lemma_busy_update(s.workers, i, t.workers[i]),
        Event::JobPanics(i) => lemma_busy_update(s.workers, i, t.workers[i]),
        Event::WorkerEnds(i) => lemma_busy_update(s.workers, i, t.workers[i]),
        Event::WorkerWakes(i) => lemma_busy_update(s.workers, i, t.workers[i]),
        _ => {},
    }
}

/// What a caller can wait for.
pub enum Wait {
    /// For the workers to gather.
    Gathering,
    /// For the workers to go on.
    Draining,
    /// For room in the queue.
    Submitting,
}

/// The caller waits for this, and not in vain: no panic is known.
pub open spec fn waits<J, M>(wait: Wait, s: System<J, M>) -> bool {
    match wait {
        Wait::Gathering => gathering(s) && !s.messaging.panic_detected,
        Wait::Draining => draining(s),
        Wait::Submitting => submitting(s) && !s.messaging.panic_detected && over_backlog(
            s.backlog,
            s.messaging.job_queue.len(),
        ),
    }
}

/// `event` is a move of a worker that the caller waits for.
pub open spec fn helps<J, M>(wait: Wait, s: System<J, M>, event: Event<J, M>) -> bool {
    exists|i: int|
        0 <= i < s.workers.len() && #[trigger] moves(event, i) && match wait {
            Wait::Gathering => !s.workers[i].in_checkpoint,
            Wait::Draining => s.workers[i].in_checkpoint,
            Wait::Submitting => true,
        }
}

/// How many more such moves there can be.
pub open spec fn moves_left<J, M>(wait: Wait, s: System<J, M>) -> nat {
    match wait {
        Wait::Gathering => work_left(s),
        Wait::Draining => checkpoint_count(s.workers),
        Wait::Submitting => busy_count(s.workers),
    }
}

/// How many moves of workers that the caller waits for there are in a run between its
/// states `a` and `b`.
pub open spec fn moves_between<J, M>(
    wait: Wait,
    states: Seq<System<J, M>>,
    events: Seq<Event<J, M>>,
    a: int,
    b: int,
) -> nat
    decreases b - a,
{
    if a >= b {
        0
    } else {
        moves_between(wait, states, events, a, b - 1) + if helps(
            wait,
            states[b - 1],
            events[b - 1],
        ) {
            1nat
        } else {
            0nat
        }
    }
}

/// While the caller waits, whatever it waits for, each move of a worker that it waits for
/// leaves fewer of them, and nothing that happens meanwhile leaves more.
pub proof fn waiting_leaves_fewer_moves<J, M>(
    wait: Wait,
    s: System<J, M>,
    event: Event<J, M>,
    t: System<J, M>,
)
    requires
        reachable(s),
        waits(wait, s),
        s.next(event, t),
        waits(wait, t),
    ensures
        moves_left(wait, t) + (if helps(wait, s, event) {
            1nat
        } else {
            0nat
        }) <= moves_left(wait, s),
{
    match wait {
        Wait::Gathering => gathering_leaves_less_to_do(s, event, t),
        Wait::Draining => draining_leaves_fewer_behind(s, event, t),
        Wait::Submitting => {
            lemma_reachable(s);
            waiting_leaves_fewer_busy(s, event, t);
        },
    }
}

/// No wait is endless: in every run there are, while the caller waits, no more moves of
/// workers that it waits for than were left when it began. For the gathering of the
/// workers these are the moves of those that have not gathered, and what is left is
/// `work_left`; for their going on, the turns of those that have not, and their number;
/// for room in the queue, all moves, and the number of busy workers.
pub proof fn waits_are_bounded<J, M>(
    wait: Wait,
    states: Seq<System<J, M>>,
    events: Seq<Event<J, M>>,
    a: int,
    b: int,
)
    requires
        is_run(states, events),
        0 <= a <= b < states.len(),
        forall|k: int| a <= k <= b ==> waits(wait, #[trigger] states[k]),
    ensures
        moves_between(wait, states, events, a, b) + moves_left(wait, states[b]) <= moves_left(
            wait,
            states[a],
        ),
    decreases b - a,
{
    if a < b {
        waits_are_bounded(wait, states, events, a, b - 1);
        lemma_run_reachable(states, events, b - 1);
        assert(states[b - 1].next(events[b - 1], states[b]));
        waiting_leaves_fewer_moves(wait, states[b - 1], events[b - 1], states[b]);
    }
}

/// What the caller waits for has come: its next turn is the last in its stage.
pub open spec fn due<J, M>(s: System<J, M>) -> bool {
    match s.caller {
        Operation::GivingState(Stage::Gather) => s.messaging.panic_detected
            || s.messaging.completion_counter == s.nthreads,
        Operation::GivingState(Stage::Release) => true,
        Operation::GivingState(Stage::Drain) => s.messaging.completion_counter == s.nthreads,
        Operation::EndingScope(Stage::Gather) => s.messaging.panic_detected
            || s.messaging.completion_counter == s.nthreads,
        Operation::EndingScope(Stage::Release) => true,
        Operation::EndingScope(Stage::Drain) => s.messaging.completion_counter == s.nthreads,
        Operation::Settling(_) => s.messaging.panic_detected || !over_backlog(
            s.backlog,
            s.messaging.job_queue.len(),
        ),
        _ => false,
    }
}

/// The caller is never left asleep: while it sleeps, what it waits for has not come.
pub proof fn caller_is_always_woken<J, M>(s: System<J, M>)
    requires
        reachable(s),
        s.asleep,
    ensures
        gathering(s) ==> s.messaging.completion_counter != s.nthreads
            && !s.messaging.panic_detected,
        draining(s) ==> s.messaging.completion_counter != s.nthreads,
        submitting(s) ==> over_backlog(s.backlog, s.messaging.job_queue.len())
            && !s.messaging.panic_detected,
        gathering(s) || draining(s) || submitting(s),
        !due(s),
{
    lemma_reachable(s);
}

/// A worker's panic reaches a caller that gathers the workers or submits a job: either it is known, and
/// then the caller is awake and its next turn panics, or the worker is about to end, and
/// then it becomes known and wakes the caller.
pub proof fn panic_reaches_the_caller<J, M>(s: System<J, M>) -> (i: int)
    requires
        reachable(s),
        gathering(s) || submitting(s),
        some_panicked(s),
    ensures
        s.messaging.panic_detected ==> {
            &&& !s.asleep
            &&& s.caller is EndingScope ==> s.next(
                Event::Proceed,
                System { caller: Operation::Idle, ..s },
            )
            &&& s.caller is GivingState ==> s.next(
                Event::Proceed,
                System { caller: Operation::InScope(None), ..s },
            )
            &&& s.caller matches Operation::Settling(state) ==> settlement_of(
                s.backlog,
                s.messaging,
            ) is Panic && s.next(
                Event::Proceed,
                System { caller: Operation::InScope(state), ..s },
            )
            &&& s.caller matches Operation::Submitting(job, _) ==> submission_of(
                s.backlog,
                job,
                s.messaging,
            ) is Panic
        },
        !s.messaging.panic_detected ==> {
            &&& s.worker_is(i, Activity::Leaving(true))
            &&& s.next(Event::WorkerEnds(i), s.after_end(i))
            &&& s.after_end(i).messaging.panic_detected
            &&& !s.after_end(i).asleep
        },
{
    lemma_reachable(s);
    let i = choose|i: int| 0 <= i < s.workers.len() && (#[trigger] s.workers[i]).panicked();
    i
}

} // verus!

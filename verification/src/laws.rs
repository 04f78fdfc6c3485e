//! What a pool promises, whatever its jobs do and however its threads are scheduled.
use crate::consistency::{applied_somewhere, lemma_count_bounds, lemma_next, lemma_reachable};
use crate::consistency::{lemma_next_reachable, lemma_run_reachable, ready_count, running, some_asleep, some_panicked};
use crate::messaging::{Failure, Flag};
use crate::pool::{over_backlog, scoped_step, settlement_of, Closing, Outcome, Settlement, Stage};
use crate::scope::{submission_of, with_state_step, Submission};
use crate::system::{is_run, reachable, Activity, Event, Operation, System, WorkerModel};
use crate::worker::{answers, makes_state, turn_of, Action};
use vstd::prelude::*;

verus! {

/// The caller has gathered all workers and has not let all of them go yet.
pub open spec fn past_gathering<J, M>(s: System<J, M>) -> bool {
    match s.caller {
        Operation::GivingState(stage) => stage is Release || stage is Drain,
        Operation::EndingScope(stage) => stage is Release || stage is Drain,
        _ => false,
    }
}

/// The caller waits for the workers to gather.
pub open spec fn gathering<J, M>(s: System<J, M>) -> bool {
    match s.caller {
        Operation::GivingState(stage) => stage is Gather,
        Operation::EndingScope(stage) => stage is Gather,
        _ => false,
    }
}

/// The caller waits for the workers to go on.
pub open spec fn draining<J, M>(s: System<J, M>) -> bool {
    match s.caller {
        Operation::GivingState(stage) => stage is Drain,
        Operation::EndingScope(stage) => stage is Drain,
        _ => false,
    }
}

/// The caller submits a job and waits.
pub open spec fn submitting<J, M>(s: System<J, M>) -> bool {
    s.caller is Submitting || s.caller is Settling
}

/// Every job submitted so far has run to its end.
pub open spec fn all_jobs_done<J, M>(s: System<J, M>) -> bool {
    &&& s.messaging.job_queue.len() == 0
    &&& forall|i: int| 0 <= i < s.workers.len() ==> (#[trigger] s.workers[i]).at_rest()
    &&& forall|k: nat| k < s.submitted.len() ==> #[trigger] s.finished.contains(k)
    &&& s.failed == Set::<nat>::empty()
}

/// Jobs are started in the order of their submission: the queue holds what is not
/// started yet, and the job that a worker takes is the next one.
pub proof fn jobs_start_in_order<J, M>(s: System<J, M>, i: int, t: System<J, M>)
    requires
        reachable(s),
        s.next(Event::WorkerTurn(i), t),
    ensures
        s.messaging.job_queue == s.submitted.skip(s.started as int),
        turn_of(s.workers[i].in_checkpoint, s.messaging).action matches Action::Run(job) ==> {
            &&& s.started < s.submitted.len()
            &&& job == s.submitted[s.started as int]
            &&& t.workers[i].activity == Activity::Busy(s.started)
            &&& t.started == s.started + 1
        },
{
    lemma_reachable(s);
}

/// No job is lost and none runs twice: a job that has been started is run by exactly one
/// worker, or has returned, or has panicked, and only one of these; one that has not is
/// none of these.
pub proof fn every_job_runs_once<J, M>(s: System<J, M>, k: nat)
    requires
        reachable(s),
    ensures
        k < s.started <==> running(s, k) || s.finished.contains(k) || s.failed.contains(k),
        !(running(s, k) && s.finished.contains(k)),
        !(running(s, k) && s.failed.contains(k)),
        !(s.finished.contains(k) && s.failed.contains(k)),
        forall|i: int, j: int|
            s.worker_is(i, Activity::Busy(k)) && s.worker_is(j, Activity::Busy(k)) ==> i == j,
{
    lemma_reachable(s);
    assert(k < s.started ==> s.finished.contains(k) || s.failed.contains(k) || running(s, k));
    assert forall|i: int, j: int|
        s.worker_is(i, Activity::Busy(k)) && s.worker_is(j, Activity::Busy(k)) implies i == j by {
        assert(s.workers[i].activity == s.workers[j].activity);
    }
}

/// Once the workers have gathered, every job has run to its end, and none has panicked.
pub proof fn gathering_waits_for_all_jobs<J, M>(s: System<J, M>)
    requires
        reachable(s),
        past_gathering(s),
    ensures
        all_jobs_done(s),
        !s.messaging.panic_detected,
        !some_panicked(s),
{
    lemma_reachable(s);
    assert(s.submitted.skip(s.started as int).len() == s.submitted.len() - s.started);
    assert forall|k: nat| k < s.submitted.len() implies #[trigger] s.finished.contains(k) by {
        assert(k < s.started);
    }
    assert(s.failed =~= Set::<nat>::empty());
}

/// A scope does not return until all jobs submitted in it have run to their end. When it
/// does, no job has panicked, nothing is asked of the workers any more, and each of them
/// is free to take jobs.
pub proof fn scope_returns_after_all_jobs<J, M>(s: System<J, M>, stage: Stage<()>, t: System<J, M>)
    requires
        reachable(s),
        s.caller == Operation::<J, M>::EndingScope(stage),
        scoped_step(s.nthreads as nat, stage, s.messaging).outcome is Done,
        s.next(Event::Proceed, t),
    ensures
        t.caller is Idle,
        t.submitted == s.submitted,
        all_jobs_done(t),
        !some_panicked(t),
        t.messaging.flag is None,
        t.messaging.state_maker is None,
        forall|i: int| 0 <= i < t.workers.len() ==> !(#[trigger] t.workers[i]).in_checkpoint,
{
    lemma_reachable(s);
    lemma_next(s, Event::Proceed, t);
    gathering_waits_for_all_jobs(s);
    lemma_count_bounds(s.workers);
}

/// A panic is never passed over: where a job or a worker has panicked, neither a scope nor
/// the giving of a state gets past gathering.
pub proof fn no_meeting_passes_over_a_panic<J, M>(s: System<J, M>, k: nat)
    requires
        reachable(s),
        some_panicked(s) || s.failed.contains(k),
    ensures
        !past_gathering(s),
{
    lemma_reachable(s);
}

/// Once a worker's panic is known it stays known, and every way into the pool panics: no
/// call that has begun since gets anywhere, and one that waits waits no longer.
pub proof fn known_panic_fails_every_call<J, M>(
    s: System<J, M>,
    event: Event<J, M>,
    t: System<J, M>,
    job: J,
    maker: M,
)
    requires
        reachable(s),
        s.messaging.panic_detected,
        s.next(event, t),
    ensures
        t.messaging.panic_detected,
        scoped_step(s.nthreads as nat, Stage::Begin(()), s.messaging).outcome == Outcome::<
            (),
            (),
        >::Panic(Failure::WorkerPanicked),
        with_state_step(s.nthreads as nat, Stage::Begin(maker), s.messaging, ()).outcome
            == Outcome::<M, ()>::Panic(Failure::WorkerPanicked),
        submission_of(s.backlog, job, s.messaging) == Submission::<J>::Panic(
            Failure::WorkerPanicked,
        ),
        settlement_of(s.backlog, s.messaging) == Settlement::Panic(Failure::WorkerPanicked),
        gathering(s) ==> !s.asleep && (event is Proceed ==> t.caller is Idle
            || t.caller == Operation::<J, M>::InScope(None)),
        submitting(s) ==> !s.asleep && (event is Proceed ==> t.caller is InScope),
        !past_gathering(s),
{
    lemma_reachable(s);
}

/// The pool does not cry wolf: where a panic is known, a worker has panicked.
pub proof fn known_panic_has_happened<J, M>(s: System<J, M>)
    requires
        reachable(s),
        s.messaging.panic_detected,
    ensures
        some_panicked(s),
{
    lemma_reachable(s);
    let i = choose|i: int|
        0 <= i < s.workers.len() && (#[trigger] s.workers[i]).activity == Activity::Gone(true);
    assert(s.workers[i].panicked());
}

/// A job or a state maker panics.
pub open spec fn is_panic<J, M>(event: Event<J, M>) -> bool {
    event is JobPanics || event is MakerPanics
}

/// A worker that has panicked is one on which a job or a state maker has, and stays so.
pub proof fn panics_come_from_jobs_and_makers<J, M>(
    s: System<J, M>,
    event: Event<J, M>,
    t: System<J, M>,
)
    requires
        reachable(s),
        s.next(event, t),
    ensures
        some_panicked(t) <==> some_panicked(s) || is_panic(event),
{
    lemma_reachable(s);
    if some_panicked(s) {
        let i = choose|i: int| 0 <= i < s.workers.len() && (#[trigger] s.workers[i]).panicked();
        assert(t.workers[i].panicked());
    }
    match event {
        Event::JobPanics(i) => assert(t.workers[i].panicked()),
        Event::MakerPanics(i) => assert(t.workers[i].panicked()),
        _ => {
            if some_panicked(t) {
                let i = choose|i: int|
                    0 <= i < t.workers.len() && (#[trigger] t.workers[i]).panicked();
                assert(s.workers[i].panicked());
            }
        },
    }
}

/// In a run, a worker has panicked if and only if a job or a state maker has.
pub proof fn panics_of_a_run<J, M>(states: Seq<System<J, M>>, events: Seq<Event<J, M>>, k: int)
    requires
        is_run(states, events),
        0 <= k < states.len(),
    ensures
        some_panicked(states[k]) <==> exists|j: int| 0 <= j < k && is_panic(#[trigger] events[j]),
    decreases k,
{
    if k > 0 {
        panics_of_a_run(states, events, k - 1);
        lemma_run_reachable(states, events, k - 1);
        assert(states[k - 1].next(events[k - 1], states[k]));
        panics_come_from_jobs_and_makers(states[k - 1], events[k - 1], states[k]);
    }
}

/// The stage at which the caller takes its turn in the meeting that ends a scope.
pub open spec fn ending_stage<J, M>(s: System<J, M>, event: Event<J, M>) -> Stage<()> {
    if event is EndScope {
        Stage::Begin(())
    } else {
        s.caller->EndingScope_0
    }
}

/// What the caller's turn in the meeting that ends a scope comes to.
pub open spec fn ending_outcome<J, M>(s: System<J, M>, event: Event<J, M>) -> Outcome<(), ()> {
    scoped_step(s.nthreads as nat, ending_stage(s, event), s.messaging).outcome
}

/// The caller leaves a scope.
pub open spec fn leaves_scope<J, M>(s: System<J, M>, t: System<J, M>) -> bool {
    !(s.caller is Idle) && t.caller is Idle
}

/// How a scope ends: its own code panics, or the meeting that ends it does, or it returns.
/// The meeting panics if and only if a worker has panicked; otherwise it returns.
pub proof fn scope_panics_iff_a_worker_has<J, M>(
    s: System<J, M>,
    event: Event<J, M>,
    t: System<J, M>,
)
    requires
        reachable(s),
        s.next(event, t),
        leaves_scope(s, t),
    ensures
        event is Abandon || event is EndScope || (event is Proceed && s.caller is EndingScope),
        !(event is Abandon) ==> {
            &&& some_panicked(s) <==> ending_outcome(s, event) == Outcome::<(), ()>::Panic(
                Failure::WorkerPanicked,
            )
            &&& !some_panicked(s) <==> ending_outcome(s, event) == Outcome::<(), ()>::Done(())
        },
{
    lemma_reachable(s);
    if s.messaging.panic_detected {
        known_panic_has_happened(s);
    }
    if past_gathering(s) {
        gathering_waits_for_all_jobs(s);
    }
}

/// The same over a run: the meeting that ends a scope panics if and only if a job or a
/// state maker has panicked on a worker since the pool was made; otherwise it returns.
pub proof fn scope_panics_iff_something_has<J, M>(
    states: Seq<System<J, M>>,
    events: Seq<Event<J, M>>,
    k: int,
)
    requires
        is_run(states, events),
        0 <= k < events.len(),
        leaves_scope(states[k], states[k + 1]),
        !(events[k] is Abandon),
    ensures
        ({
            let outcome = ending_outcome(states[k], events[k]);
            let panicked = exists|j: int| 0 <= j < k && is_panic(#[trigger] events[j]);
            &&& panicked <==> outcome == Outcome::<(), ()>::Panic(Failure::WorkerPanicked)
            &&& !panicked <==> outcome == Outcome::<(), ()>::Done(())
        }),
{
    assert(states[k].next(events[k], states[k + 1]));
    lemma_run_reachable(states, events, k);
    panics_of_a_run(states, events, k);
    scope_panics_iff_a_worker_has(states[k], events[k], states[k + 1]);
}

/// Each worker calls each state maker that the pool is given exactly once, in the order
/// in which they are given, and all of them have called the last one before the giving
/// of a state is over.
pub proof fn every_worker_makes_every_state_once<J, M>(s: System<J, M>, i: int)
    requires
        reachable(s),
        !s.messaging.panic_detected,
        0 <= i < s.workers.len(),
        !(s.caller is Closed),
    ensures
        s.caller != Operation::<J, M>::GivingState(Stage::Gather) ==> s.workers[i].made == s.makers,
        s.caller == Operation::<J, M>::GivingState(Stage::Gather) ==> s.workers[i].made
            == s.makers || s.workers[i].made == s.makers.drop_last(),
{
    lemma_reachable(s);
}

/// A worker always has one state: for each that it makes it gives one up, and no other.
pub proof fn every_state_is_kept_or_given_up<J, M>(s: System<J, M>, i: int)
    requires
        reachable(s),
        0 <= i < s.workers.len(),
    ensures
        s.workers[i].given_up == s.workers[i].made.len(),
{
    lemma_reachable(s);
}

/// When a scope gets a state, every worker has just made that state for itself, all jobs
/// submitted before have run to their end, and every worker is free to take jobs.
pub proof fn state_is_given_to_every_worker<J, M>(
    s: System<J, M>,
    stage: Stage<M>,
    t: System<J, M>,
)
    requires
        reachable(s),
        s.caller == Operation::<J, M>::GivingState(stage),
        with_state_step(s.nthreads as nat, stage, s.messaging, ()).outcome is Done,
        s.next(Event::Proceed, t),
    ensures
        s.makers.len() > 0,
        t.caller == Operation::<J, M>::InScope(Some(s.makers.len())),
        all_jobs_done(t),
        t.messaging.flag is None,
        t.messaging.state_maker is None,
        forall|i: int|
            0 <= i < t.workers.len() ==> {
                let w = #[trigger] t.workers[i];
                &&& w.made.len() > 0 && w.made.last() == s.makers.last()
                &&& w.epoch == s.makers.len()
                &&& !w.in_checkpoint
            },
{
    lemma_reachable(s);
    lemma_next(s, Event::Proceed, t);
    gathering_waits_for_all_jobs(s);
    lemma_count_bounds(s.workers);
}

/// A state maker is kept by the pool only while the workers are asked to call it, unless
/// a panic is known.
pub proof fn state_makers_are_not_kept<J, M>(s: System<J, M>)
    requires
        reachable(s),
        !s.messaging.panic_detected,
        s.caller != Operation::<J, M>::GivingState(Stage::Gather),
        s.caller != Operation::<J, M>::GivingState(Stage::Release),
    ensures
        s.messaging.state_maker is None,
{
    lemma_reachable(s);
}

/// The jobs that were submitted for the state that the pool was given when there were `e`
/// makers.
pub open spec fn jobs_of<J, M>(s: System<J, M>, e: nat) -> Set<nat> {
    Set::new(|k: nat| k < s.submitted.len() && s.needs[k as int] == Some(e))
}

/// What has run on the states that the workers have now, worker by worker.
pub open spec fn all_applied<M>(workers: Seq<WorkerModel<M>>) -> Seq<nat>
    decreases workers.len(),
{
    if workers.len() == 0 {
        Seq::empty()
    } else {
        all_applied(workers.drop_last()) + workers.last().applied
    }
}

proof fn lemma_all_applied<M>(workers: Seq<WorkerModel<M>>)
    requires
        forall|i: int|
            0 <= i < workers.len() ==> (#[trigger] workers[i]).applied.no_duplicates(),
        forall|i: int, j: int, k: nat|
            0 <= i < workers.len() && 0 <= j < workers.len()
                && #[trigger] workers[i].applied.contains(k)
                && #[trigger] workers[j].applied.contains(k) ==> i == j,
    ensures
        all_applied(workers).no_duplicates(),
        forall|k: nat| #[trigger]
            all_applied(workers).contains(k) <==> exists|i: int|
                0 <= i < workers.len() && #[trigger] workers[i].applied.contains(k),
    decreases workers.len(),
{
    if workers.len() > 0 {
        let front = workers.drop_last();
        let last = workers.len() - 1;
        let a = all_applied(front);
        let b = workers.last().applied;
        let all = all_applied(workers);
        assert forall|i: int, j: int, k: nat|
            0 <= i < front.len() && 0 <= j < front.len() && #[trigger] front[i].applied.contains(k)
                && #[trigger] front[j].applied.contains(k) implies i == j by {
            assert(workers[i].applied.contains(k) && workers[j].applied.contains(k));
        }
        assert forall|i: int| 0 <= i < front.len() implies (
        #[trigger] front[i]).applied.no_duplicates() by {
            assert(workers[i].applied.no_duplicates());
        }
        lemma_all_applied(front);
        assert forall|k: nat| #[trigger] all.contains(k) implies exists|i: int|
            0 <= i < workers.len() && #[trigger] workers[i].applied.contains(k) by {
            let n = all.index_of(k);
            if n < a.len() {
                assert(a[n] == k);
                assert(a.contains(k));
                let i = choose|i: int|
                    0 <= i < front.len() && #[trigger] front[i].applied.contains(k);
                assert(workers[i].applied.contains(k));
            } else {
                assert(b[n - a.len()] == k);
                assert(workers[last].applied.contains(k));
            }
        }
        assert forall|k: nat|
            (exists|i: int|
                0 <= i < workers.len() && #[trigger] workers[i].applied.contains(
                    k,
                )) implies #[trigger] all.contains(k) by {
            let i = choose|i: int|
                0 <= i < workers.len() && #[trigger] workers[i].applied.contains(k);
            if i == last {
                assert(all[a.len() + b.index_of(k)] == k);
            } else {
                assert(front[i].applied.contains(k));
                assert(a.contains(k));
                assert(all[a.index_of(k)] == k);
            }
        }
        assert forall|k: nat| #[trigger] a.contains(k) implies !b.contains(k) by {
            let i = choose|i: int| 0 <= i < front.len() && #[trigger] front[i].applied.contains(k);
            assert(workers[i].applied.contains(k));
            if b.contains(k) {
                assert(workers[last].applied.contains(k));
            }
        }
        assert forall|x: int, y: int|
            0 <= x < all.len() && 0 <= y < all.len() && x != y implies all[x] != all[y] by {
            if x < a.len() && y < a.len() {
                assert(a[x] != a[y]);
            } else if x >= a.len() && y >= a.len() {
                assert(workers[last].applied.no_duplicates());
                assert(b[x - a.len()] != b[y - a.len()]);
            } else if x < a.len() {
                assert(a.contains(a[x]) && b.contains(b[y - a.len()]));
            } else {
                assert(a.contains(a[y]) && b.contains(b[x - a.len()]));
            }
        }
    }
}

/// The workers' states together account for each job exactly once: a job that was
/// submitted for the state that the pool was given last, and has returned, has run on the
/// state of exactly one worker, and once; nothing else has run on these states. So there
/// are as many runs on all states together as such jobs, and once all of these are done, as
/// jobs that were submitted for that state. This holds until the next state is given, and
/// goes on holding when the pool is dropped.
pub proof fn states_account_for_each_job_once<J, M>(s: System<J, M>)
    requires
        reachable(s),
        !s.messaging.panic_detected,
        s.caller != Operation::<J, M>::GivingState(Stage::Gather),
    ensures
        forall|k: nat| #[trigger]
            jobs_of(s, s.makers.len()).contains(k) && s.finished.contains(k) <==> applied_somewhere(
                s,
                k,
            ),
        forall|i: int, j: int, k: nat|
            0 <= i < s.workers.len() && 0 <= j < s.workers.len()
                && #[trigger] s.workers[i].applied.contains(k)
                && #[trigger] s.workers[j].applied.contains(k) ==> i == j,
        forall|i: int|
            0 <= i < s.workers.len() ==> (#[trigger] s.workers[i]).applied.no_duplicates(),
        jobs_of(s, s.makers.len()).intersect(s.finished).finite(),
        all_applied(s.workers).len() == jobs_of(s, s.makers.len()).intersect(s.finished).len(),
        jobs_of(s, s.makers.len()).subset_of(s.finished) ==> all_applied(s.workers).len()
            == jobs_of(s, s.makers.len()).len(),
        all_jobs_done(s) ==> jobs_of(s, s.makers.len()).subset_of(s.finished),
{
    lemma_reachable(s);
    lemma_all_applied(s.workers);
    let all = all_applied(s.workers);
    let jobs = jobs_of(s, s.makers.len());
    assert forall|k: nat| #[trigger] jobs.contains(k) && s.finished.contains(
        k,
    ) implies applied_somewhere(s, k) by {
        assert(s.finished.contains(k));
    }
    assert forall|k: nat| #[trigger] applied_somewhere(s, k) implies jobs.contains(k)
        && s.finished.contains(k) by {
        let i = choose|i: int|
            0 <= i < s.workers.len() && #[trigger] s.workers[i].applied.contains(k);
        assert(s.finished.contains(k));
        assert(s.workers[i].epoch == s.makers.len());
    }
    all.unique_seq_to_set();
    vstd::seq_lib::seq_to_set_is_finite(all);
    assert(all.to_set() =~= jobs.intersect(s.finished)) by {
        assert forall|k: nat| #[trigger] all.to_set().contains(k) <==> jobs.intersect(
            s.finished,
        ).contains(k) by {
            assert(all.contains(k) <==> applied_somewhere(s, k));
        }
    }
    if jobs.subset_of(s.finished) {
        assert(jobs.intersect(s.finished) =~= jobs);
    }
}

/// A job that is submitted in a scope with a state runs on a state that the worker has
/// made with the state maker of that scope, whatever has panicked in between.
pub proof fn jobs_run_on_the_state_of_their_scope<J, M>(s: System<J, M>, i: int, k: nat, e: nat)
    requires
        reachable(s),
        s.worker_is(i, Activity::Busy(k)),
        s.needs[k as int] == Some(e),
    ensures
        0 < e <= s.makers.len(),
        s.workers[i].epoch == e,
        s.workers[i].made.len() > 0,
        s.workers[i].made.last() == s.makers[e - 1],
{
    lemma_reachable(s);
}

/// No more jobs are pending than the backlog allows, but for the one whose submission
/// waits for that, or fails over a dead worker; no job has to wait to be queued, and
/// without a backlog no submission waits at all.
pub proof fn backlog_is_kept<J, M>(s: System<J, M>, job: J)
    requires
        reachable(s),
    ensures
        s.backlog matches Some(allowed) ==> {
            &&& s.messaging.job_queue.len() <= allowed + 1
            &&& !s.messaging.panic_detected && !submitting(s) ==> s.messaging.job_queue.len()
                <= allowed
        },
        !(s.caller is Submitting),
        s.caller is InScope ==> !(submission_of(s.backlog, job, s.messaging) is Blocked),
        s.backlog is None ==> !submitting(s) && !(submission_of(
            s.backlog,
            job,
            s.messaging,
        ) is Settling),
{
    lemma_reachable(s);
}

/// A submission that returns normally leaves no more jobs pending than the backlog allows,
/// and its job is queued or has been taken.
pub proof fn submission_returns_within_the_backlog<J, M>(
    s: System<J, M>,
    event: Event<J, M>,
    t: System<J, M>,
)
    requires
        reachable(s),
        event is Execute || (event is Proceed && s.caller is Settling),
        s.next(event, t),
        t.caller is InScope,
        !t.messaging.panic_detected,
    ensures
        !over_backlog(t.backlog, t.messaging.job_queue.len()),
        event matches Event::Execute(job) ==> t.submitted == s.submitted.push(job),
        event is Proceed ==> t.submitted == s.submitted,
{
    lemma_reachable(s);
    lemma_next(s, event, t);
}

/// A submission waits for nothing but the backlog: while the job is one of no more than
/// the backlog, or there is none, it is queued and the submission returns at once, unless
/// a panic is known.
pub proof fn submissions_wait_for_nothing_but_the_backlog<J, M>(
    s: System<J, M>,
    job: J,
    t: System<J, M>,
)
    requires
        reachable(s),
        !s.messaging.panic_detected,
        s.next(Event::Execute(job), t),
    ensures
        (s.backlog matches Some(allowed) ==> s.messaging.job_queue.len() + 1 <= allowed)
            <==> t.caller is InScope,
        t.caller is InScope ==> t.caller == s.caller && !t.asleep,
        t.messaging.job_queue == s.messaging.job_queue.push(job),
        t.submitted == s.submitted.push(job),
        t.messaging.flag == s.messaging.flag,
        t.messaging.panic_detected == s.messaging.panic_detected,
{
    lemma_reachable(s);
}

/// A submission that waits goes on waiting exactly while more jobs are pending than the
/// backlog, and returns to the scope that it came from.
pub proof fn submissions_wait_no_longer_than_the_backlog<J, M>(
    s: System<J, M>,
    state: Option<nat>,
    t: System<J, M>,
)
    requires
        reachable(s),
        !s.messaging.panic_detected,
        s.caller == Operation::<J, M>::Settling(state),
        s.next(Event::Proceed, t),
    ensures
        s.backlog matches Some(allowed) && (s.messaging.job_queue.len() <= allowed <==> t.caller
            == Operation::<J, M>::InScope(state)),
        t.messaging == s.messaging,
        t.submitted == s.submitted,
{
    lemma_reachable(s);
}

/// Jobs run in parallel: as long as a worker sleeps, there is for each job in the queue a
/// worker that is about to take its turn. This is so unless a panic is known or something
/// else is asked of the workers.
pub proof fn no_job_waits_while_a_worker_sleeps<J, M>(s: System<J, M>)
    requires
        reachable(s),
        !s.messaging.panic_detected,
        s.messaging.flag is None,
        some_asleep(s),
    ensures
        s.messaging.job_queue.len() <= ready_count(s.workers),
{
    lemma_reachable(s);
}

/// Between two calls, unless a panic is known, nothing is asked of the workers, no state
/// maker is kept and no worker is held in a checkpoint: a meeting leaves the pool as it
/// found it.
pub proof fn nothing_is_left_between_calls<J, M>(s: System<J, M>)
    requires
        reachable(s),
        s.caller is Idle || s.caller is InScope || submitting(s),
        !s.messaging.panic_detected,
    ensures
        s.messaging.flag is None,
        s.messaging.state_maker is None,
        forall|i: int| 0 <= i < s.workers.len() ==> !(#[trigger] s.workers[i]).in_checkpoint,
{
    lemma_reachable(s);
}

/// A worker can always take its turn: what its turn requires holds whenever it comes.
pub proof fn turns_are_always_possible<J, M>(s: System<J, M>, i: int)
    requires
        reachable(s),
        s.worker_is(i, Activity::Ready),
    ensures
        s.messaging.wf(),
        s.messaging.flag == Some(Flag::SetState) ==> s.messaging.state_maker is Some,
        s.messaging.flag == Some(Flag::Resume) && s.workers[i].in_checkpoint
            ==> s.messaging.completion_counter < usize::MAX,
        (s.messaging.flag == Some(Flag::Checkpoint) || s.messaging.flag == Some(Flag::SetState))
            && !s.workers[i].in_checkpoint ==> s.messaging.completion_counter < usize::MAX,
        answers(s.workers[i].in_checkpoint, s.messaging) ==> s.messaging.completion_counter
            < usize::MAX,
        makes_state(s.workers[i].in_checkpoint, s.messaging) ==> s.messaging.state_maker == Some(
            s.makers.last(),
        ),
{
    lemma_reachable(s);
    lemma_count_bounds(s.workers);
}

/// A worker that is not in a checkpoint takes the oldest job whenever there is one,
/// whatever else is asked of it and whoever has panicked.
pub proof fn free_workers_take_the_oldest_job<J, M>(s: System<J, M>, i: int, t: System<J, M>)
    requires
        reachable(s),
        s.next(Event::WorkerTurn(i), t),
        !s.workers[i].in_checkpoint,
        s.messaging.job_queue.len() > 0,
    ensures
        t.workers[i].activity == Activity::Busy(s.started),
        !t.workers[i].in_checkpoint,
        s.messaging.job_queue == seq![s.submitted[s.started as int]] + t.messaging.job_queue,
        t.started == s.started + 1,
        t.messaging.completion_counter == s.messaging.completion_counter,
{
    lemma_reachable(s);
    assert(s.messaging.job_queue =~= seq![s.submitted[s.started as int]] + t.messaging.job_queue);
}

/// Dropping the pool panics if jobs are left in the queue, and only then. Otherwise all
/// workers are told to leave, and none of them sleeps.
pub proof fn dropping_panics_only_over_jobs_left<J, M>(s: System<J, M>, t: System<J, M>)
    requires
        reachable(s),
        s.next(Event::Drop, t),
    ensures
        s.messaging.job_queue.len() == 0 <==> t.caller == Operation::<J, M>::Closed(Closing::Join),
        s.messaging.job_queue.len() > 0 <==> t.caller == Operation::<J, M>::Closed(
            Closing::Panic(Failure::JobsLeft),
        ),
        s.messaging.job_queue.len() == 0 ==> t.messaging.flag == Some(Flag::Exit) && forall|i: int|
            0 <= i < t.workers.len() ==> !((#[trigger] t.workers[i]).activity is Asleep),
        s.messaging.job_queue.len() > 0 ==> t.messaging.flag == s.messaging.flag,
        t.messaging.job_queue == s.messaging.job_queue,
{
    lemma_reachable(s);
}

/// A pool whose last scope has returned is dropped without a panic.
pub proof fn dropping_after_a_scope_joins<J, M>(
    s: System<J, M>,
    stage: Stage<()>,
    t: System<J, M>,
    u: System<J, M>,
)
    requires
        reachable(s),
        s.caller == Operation::<J, M>::EndingScope(stage),
        scoped_step(s.nthreads as nat, stage, s.messaging).outcome is Done,
        s.next(Event::Proceed, t),
        t.next(Event::Drop, u),
    ensures
        u.caller == Operation::<J, M>::Closed(Closing::Join),
{
    scope_returns_after_all_jobs(s, stage, t);
    lemma_next_reachable(s, Event::Proceed, t);
    dropping_panics_only_over_jobs_left(t, u);
}

/// Once the pool is dropped, every worker leaves: none sleeps, and the next turn of each
/// is its last.
pub proof fn dropping_ends_every_worker<J, M>(s: System<J, M>, i: int)
    requires
        reachable(s),
        s.caller == Operation::<J, M>::Closed(Closing::Join),
        0 <= i < s.workers.len(),
    ensures
        !(s.workers[i].activity is Asleep),
        turn_of(s.workers[i].in_checkpoint, s.messaging).action is Exit,
        s.messaging.job_queue.len() == 0,
{
    lemma_reachable(s);
}

} // verus!

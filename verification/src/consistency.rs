//! What holds of a pool at every moment.
use crate::messaging::Flag;
use crate::pool::{over_backlog, Closing, Pool, Stage};
use crate::system::{is_run, reachable, Activity, Event, Operation, System, WorkerModel};
use crate::worker::{must_wait, turn_of};
use vstd::prelude::*;

verus! {

/// How many workers are in a checkpoint.
pub open spec fn checkpoint_count<M>(workers: Seq<WorkerModel<M>>) -> nat
    decreases workers.len(),
{
    if workers.len() == 0 {
        0
    } else {
        checkpoint_count(workers.drop_last()) + if workers.last().in_checkpoint {
            1nat
        } else {
            0nat
        }
    }
}

/// How many workers are about to take their turn.
pub open spec fn ready_count<M>(workers: Seq<WorkerModel<M>>) -> nat
    decreases workers.len(),
{
    if workers.len() == 0 {
        0
    } else {
        ready_count(workers.drop_last()) + if workers.last().activity is Ready {
            1nat
        } else {
            0nat
        }
    }
}

/// Some worker has panicked.
pub open spec fn some_panicked<J, M>(s: System<J, M>) -> bool {
    exists|i: int| 0 <= i < s.workers.len() && (#[trigger] s.workers[i]).panicked()
}

/// Some worker has said that it has panicked.
pub open spec fn some_reported<J, M>(s: System<J, M>) -> bool {
    exists|i: int|
        0 <= i < s.workers.len() && (#[trigger] s.workers[i]).activity == Activity::Gone(true)
}

/// Some worker runs job `k`.
pub open spec fn running<J, M>(s: System<J, M>, k: nat) -> bool {
    exists|i: int|
        0 <= i < s.workers.len() && (#[trigger] s.workers[i]).activity == Activity::Busy(k)
}

/// The queue holds the jobs that no worker has taken, in the order of submission.
pub open spec fn queue_in_order<J, M>(s: System<J, M>) -> bool {
    &&& s.nthreads >= 1
    &&& s.workers.len() == s.nthreads
    &&& s.needs.len() == s.submitted.len()
    &&& s.started <= s.submitted.len()
    &&& s.messaging.job_queue == s.submitted.skip(s.started as int)
}

/// The queue is never longer than the backlog but while a submission waits, and then by
/// one job; without a backlog none waits. No job ever has to wait to be queued.
pub open spec fn queue_bounded<J, M>(s: System<J, M>) -> bool {
    &&& !(s.caller is Submitting)
    &&& match s.backlog {
        Some(allowed) => {
            &&& s.messaging.job_queue.len() <= allowed + 1
            &&& !s.messaging.panic_detected && !(s.caller is Settling)
                ==> s.messaging.job_queue.len() <= allowed
        },
        None => !(s.caller is Settling),
    }
}

/// A job that has been taken runs on one worker, or has returned, or has panicked, and
/// only one of these.
pub open spec fn each_job_once<J, M>(s: System<J, M>) -> bool {
    &&& forall|i: int|
        0 <= i < s.workers.len() ==> ((#[trigger] s.workers[i]).activity matches Activity::Busy(k)
            ==> k < s.started && !s.finished.contains(k) && !s.failed.contains(k))
    &&& forall|i: int, j: int|
        0 <= i < j < s.workers.len() && (#[trigger] s.workers[i]).activity is Busy
            ==> s.workers[i].activity != (#[trigger] s.workers[j]).activity
    &&& forall|k: nat| #[trigger] s.finished.contains(k) ==> k < s.started && !s.failed.contains(k)
    &&& forall|k: nat| #[trigger] s.failed.contains(k) ==> k < s.started
    &&& forall|k: nat|
        k < s.started ==> #[trigger] s.finished.contains(k) || s.failed.contains(k) || running(s, k)
}

/// The panic of a worker is known once it has ended, and then for good.
pub open spec fn panics_noted<J, M>(s: System<J, M>) -> bool {
    &&& s.messaging.panic_detected <==> some_reported(s)
    &&& forall|k: nat| #[trigger] s.failed.contains(k) ==> some_panicked(s)
}

/// No more answers are counted than workers can have given.
pub open spec fn answers_counted<J, M>(s: System<J, M>) -> bool {
    match s.messaging.flag {
        Some(Flag::Checkpoint) => s.messaging.completion_counter <= checkpoint_count(s.workers),
        Some(Flag::SetState) => s.messaging.completion_counter <= checkpoint_count(s.workers),
        Some(Flag::Resume) => s.messaging.completion_counter + checkpoint_count(s.workers)
            <= s.nthreads,
        _ => true,
    }
}

/// A job that needs the state of its scope finds it on whichever worker takes it.
pub open spec fn states_fit<J, M>(s: System<J, M>) -> bool {
    &&& s.messaging.flag == Some(Flag::SetState) ==> s.makers.len() > 0 && s.messaging.state_maker
        == Some(s.makers.last())
    &&& forall|i: int|
        0 <= i < s.workers.len() ==> {
            let w = #[trigger] s.workers[i];
            &&& w.given_up == w.made.len()
            &&& w.epoch <= s.makers.len()
            &&& w.epoch > 0 ==> w.made.len() > 0 && w.made.last() == s.makers[w.epoch - 1]
            &&& w.activity matches Activity::Busy(k) ==> k < s.needs.len() && (
            s.needs[k as int] matches Some(e) ==> w.epoch == e && e > 0)
        }
    &&& forall|k: int, i: int|
        s.started <= k < s.needs.len() && 0 <= i < s.workers.len() && (#[trigger] s.needs[k]) is Some
            ==> s.needs[k]->0 > 0 && (#[trigger] s.workers[i]).epoch == s.needs[k]->0
    &&& match s.caller {
        Operation::InScope(Some(e)) => state_given(s, e),
        Operation::Settling(Some(e)) => state_given(s, e),
        _ => true,
    }
}

/// Every worker has the state that the scope got when there were `e` makers.
pub open spec fn state_given<J, M>(s: System<J, M>, e: nat) -> bool {
    &&& s.messaging.flag is None
    &&& e > 0
    &&& forall|i: int| 0 <= i < s.workers.len() ==> (#[trigger] s.workers[i]).epoch == e
}

/// What the workers are asked fits what the caller does.
pub open spec fn flag_fits<J, M>(s: System<J, M>) -> bool {
    &&& s.messaging.flag == Some(Flag::Exit) ==> s.caller is Closed && s.messaging.job_queue.len()
        == 0
    &&& match s.caller {
        Operation::GivingState(stage) => match stage {
            Stage::Begin(_) => false,
            Stage::Gather => s.messaging.flag == Some(Flag::SetState),
            Stage::Release => s.messaging.flag == Some(Flag::SetState)
                && !s.messaging.panic_detected,
            Stage::Drain => s.messaging.flag == Some(Flag::Resume) && !s.messaging.panic_detected,
        },
        Operation::EndingScope(stage) => match stage {
            Stage::Begin(_) => false,
            Stage::Gather => s.messaging.flag == Some(Flag::Checkpoint),
            Stage::Release => s.messaging.flag == Some(Flag::Checkpoint)
                && !s.messaging.panic_detected,
            Stage::Drain => s.messaging.flag == Some(Flag::Resume) && !s.messaging.panic_detected,
        },
        Operation::Closed(Closing::Join) => s.messaging.flag == Some(Flag::Exit),
        _ => !s.messaging.panic_detected ==> s.messaging.flag is None,
    }
}

/// What the caller sleeps for has not come yet.
pub open spec fn caller_sleeps_rightly<J, M>(s: System<J, M>) -> bool {
    s.asleep ==> match s.caller {
        Operation::Settling(_) => over_backlog(s.backlog, s.messaging.job_queue.len())
            && !s.messaging.panic_detected,
        Operation::GivingState(Stage::Gather) => s.messaging.completion_counter != s.nthreads
            && !s.messaging.panic_detected,
        Operation::GivingState(Stage::Drain) => s.messaging.completion_counter != s.nthreads,
        Operation::EndingScope(Stage::Gather) => s.messaging.completion_counter != s.nthreads
            && !s.messaging.panic_detected,
        Operation::EndingScope(Stage::Drain) => s.messaging.completion_counter != s.nthreads,
        _ => false,
    }
}

/// No worker sleeps over a flag, and none over a job that no other worker is about to
/// take.
pub open spec fn workers_sleep_rightly<J, M>(s: System<J, M>) -> bool {
    &&& s.messaging.flag is Some ==> forall|i: int|
        0 <= i < s.workers.len() && (#[trigger] s.workers[i]).activity is Asleep ==> must_wait(
            s.workers[i].in_checkpoint,
            s.messaging,
        )
    &&& s.messaging.flag is None && !s.messaging.panic_detected && some_asleep(s)
        ==> s.messaging.job_queue.len() <= ready_count(s.workers)
}

/// Some worker sleeps.
pub open spec fn some_asleep<J, M>(s: System<J, M>) -> bool {
    exists|i: int| 0 <= i < s.workers.len() && (#[trigger] s.workers[i]).activity is Asleep
}

/// A worker has run job `k` on the state that it has now.
pub open spec fn applied_somewhere<J, M>(s: System<J, M>, k: nat) -> bool {
    exists|i: int| 0 <= i < s.workers.len() && #[trigger] s.workers[i].applied.contains(k)
}

/// No job is submitted for a state that has not been asked for, nor for one that the
/// workers are still asked to make.
pub open spec fn needs_fit<J, M>(s: System<J, M>) -> bool {
    forall|k: int|
        0 <= k < s.needs.len() ==> (#[trigger] s.needs[k] matches Some(e) ==> e <= s.makers.len()
            && (s.messaging.flag == Some(Flag::SetState) ==> e < s.makers.len()))
}

/// The workers' states account for the jobs: what has run on a state has returned and was
/// submitted for it, nothing has run on two states or twice on one, and nothing that has
/// returned is missing from the states that were made last.
pub open spec fn accounts_fit<J, M>(s: System<J, M>) -> bool {
    &&& forall|i: int|
        0 <= i < s.workers.len() ==> (#[trigger] s.workers[i]).applied.no_duplicates()
    &&& forall|i: int, k: nat|
        0 <= i < s.workers.len() && #[trigger] s.workers[i].applied.contains(k)
            ==> s.finished.contains(k) && s.needs[k as int] == Some(s.workers[i].epoch)
    &&& forall|i: int, j: int, k: nat|
        0 <= i < s.workers.len() && 0 <= j < s.workers.len()
            && #[trigger] s.workers[i].applied.contains(k)
            && #[trigger] s.workers[j].applied.contains(k) ==> i == j
    &&& forall|k: nat| #[trigger]
        s.finished.contains(k) && s.needs[k as int] == Some(s.makers.len()) ==> applied_somewhere(
            s,
            k,
        )
}

/// As long as no panic is known, a state maker is kept only while it is needed, and but
/// for the time in which the workers make their states, each has the last one.
pub open spec fn makers_fit<J, M>(s: System<J, M>) -> bool {
    !s.messaging.panic_detected ==> {
        &&& s.caller != Operation::<J, M>::GivingState(Stage::Gather) && s.caller != Operation::<
            J,
            M,
        >::GivingState(Stage::Release) ==> s.messaging.state_maker is None
        &&& s.caller != Operation::<J, M>::GivingState(Stage::Gather) ==> forall|i: int|
            0 <= i < s.workers.len() ==> (#[trigger] s.workers[i]).epoch == s.makers.len()
    }
}

/// The worker of a pool in which no panic is known.
pub open spec fn worker_in_step<J, M>(s: System<J, M>, w: WorkerModel<M>) -> bool {
    let queue_empty = s.messaging.job_queue.len() == 0;
    &&& w.activity != Activity::Leaving(false)
    &&& !(w.activity is Gone)
    &&& w.in_checkpoint ==> w.at_rest()
    &&& match s.caller {
        Operation::GivingState(Stage::Gather) => {
            &&& w.in_checkpoint ==> queue_empty && w.made == s.makers && w.epoch == s.makers.len()
            &&& !w.in_checkpoint ==> w.made == s.makers.drop_last() && w.epoch == s.makers.len() - 1
        },
        Operation::GivingState(Stage::Release) => w.in_checkpoint && w.at_rest() && w.made
            == s.makers && w.epoch == s.makers.len(),
        Operation::GivingState(Stage::Drain) => w.at_rest() && w.made == s.makers && w.epoch
            == s.makers.len(),
        Operation::EndingScope(Stage::Gather) => w.made == s.makers && (w.in_checkpoint
            ==> queue_empty),
        Operation::EndingScope(Stage::Release) => w.in_checkpoint && w.at_rest() && w.made
            == s.makers,
        Operation::EndingScope(Stage::Drain) => w.at_rest() && w.made == s.makers,
        _ => !w.in_checkpoint && w.made == s.makers,
    }
}

/// As long as no panic is known and the workers are not told to leave, they keep step
/// with the caller.
pub open spec fn in_step<J, M>(s: System<J, M>) -> bool {
    !s.messaging.panic_detected && s.messaging.flag != Some(Flag::Exit) ==> {
        &&& forall|i: int| 0 <= i < s.workers.len() ==> worker_in_step(s, #[trigger] s.workers[i])
        &&& match s.messaging.flag {
            Some(Flag::Resume) => s.messaging.completion_counter + checkpoint_count(s.workers)
                == s.nthreads,
            Some(_) => s.messaging.completion_counter == checkpoint_count(s.workers),
            None => true,
        }
        &&& s.caller is GivingState ==> s.makers.len() > 0
        &&& match s.caller {
            Operation::GivingState(stage) => stage is Gather || s.messaging.job_queue.len() == 0,
            Operation::EndingScope(stage) => stage is Gather || s.messaging.job_queue.len() == 0,
            _ => true,
        }
    }
}

/// What holds of a pool at every moment.
pub open spec fn inv<J, M>(s: System<J, M>) -> bool {
    &&& queue_in_order(s)
    &&& queue_bounded(s)
    &&& each_job_once(s)
    &&& panics_noted(s)
    &&& answers_counted(s)
    &&& states_fit(s)
    &&& flag_fits(s)
    &&& caller_sleeps_rightly(s)
    &&& workers_sleep_rightly(s)
    &&& needs_fit(s)
    &&& accounts_fit(s)
    &&& makers_fit(s)
    &&& in_step(s)
}

proof fn lemma_ready_update<M>(workers: Seq<WorkerModel<M>>, i: int, w: WorkerModel<M>)
    requires
        0 <= i < workers.len(),
    ensures
        ready_count(workers.update(i, w)) == ready_count(workers) - (
        if workers[i].activity is Ready {
            1int
        } else {
            0int
        }) + (if w.activity is Ready {
            1int
        } else {
            0int
        }),
    decreases workers.len(),
{
    let last = workers.len() - 1;
    if i == last {
        assert(workers.update(i, w).drop_last() =~= workers.drop_last());
    } else {
        lemma_ready_update(workers.drop_last(), i, w);
        assert(workers.update(i, w).drop_last() =~= workers.drop_last().update(i, w));
    }
}

pub proof fn lemma_ready_exists<M>(workers: Seq<WorkerModel<M>>) -> (i: int)
    requires
        ready_count(workers) > 0,
    ensures
        0 <= i < workers.len(),
        workers[i].activity is Ready,
    decreases workers.len(),
{
    if workers.last().activity is Ready {
        workers.len() - 1
    } else {
        lemma_ready_exists(workers.drop_last())
    }
}

pub proof fn lemma_count_update<M>(workers: Seq<WorkerModel<M>>, i: int, w: WorkerModel<M>)
    requires
        0 <= i < workers.len(),
    ensures
        checkpoint_count(workers.update(i, w)) == checkpoint_count(workers) - (
        if workers[i].in_checkpoint {
            1int
        } else {
            0int
        }) + (if w.in_checkpoint {
            1int
        } else {
            0int
        }),
    decreases workers.len(),
{
    let last = workers.len() - 1;
    if i == last {
        assert(workers.update(i, w).drop_last() =~= workers.drop_last());
    } else {
        lemma_count_update(workers.drop_last(), i, w);
        assert(workers.update(i, w).drop_last() =~= workers.drop_last().update(i, w));
    }
}

pub proof fn lemma_count_bounds<M>(workers: Seq<WorkerModel<M>>)
    ensures
        checkpoint_count(workers) <= workers.len(),
        checkpoint_count(workers) == workers.len() ==> forall|i: int|
            0 <= i < workers.len() ==> (#[trigger] workers[i]).in_checkpoint,
        checkpoint_count(workers) == 0 ==> forall|i: int|
            0 <= i < workers.len() ==> !(#[trigger] workers[i]).in_checkpoint,
        (forall|i: int| 0 <= i < workers.len() ==> (#[trigger] workers[i]).in_checkpoint)
            ==> checkpoint_count(workers) == workers.len(),
        (forall|i: int| 0 <= i < workers.len() ==> !(#[trigger] workers[i]).in_checkpoint)
            ==> checkpoint_count(workers) == 0,
    decreases workers.len(),
{
    if workers.len() > 0 {
        let front = workers.drop_last();
        lemma_count_bounds(front);
        assert(forall|i: int| 0 <= i < front.len() ==> front[i] == workers[i]);
        assert forall|i: int|
            checkpoint_count(workers) == workers.len() && 0 <= i
                < workers.len() implies (#[trigger] workers[i]).in_checkpoint by {
            if i < front.len() {
                assert(front[i].in_checkpoint);
            }
        }
        assert forall|i: int|
            checkpoint_count(workers) == 0 && 0 <= i
                < workers.len() implies !(#[trigger] workers[i]).in_checkpoint by {
            if i < front.len() {
                assert(!front[i].in_checkpoint);
            }
        }
    }
}

proof fn lemma_count_same<M>(workers: Seq<WorkerModel<M>>, other: Seq<WorkerModel<M>>)
    requires
        workers.len() == other.len(),
        forall|i: int|
            0 <= i < workers.len() ==> (#[trigger] workers[i]).in_checkpoint
                == other[i].in_checkpoint,
    ensures
        checkpoint_count(workers) == checkpoint_count(other),
    decreases workers.len(),
{
    if workers.len() > 0 {
        assert forall|i: int| 0 <= i < workers.drop_last().len() implies (
        #[trigger] workers.drop_last()[i]).in_checkpoint == other.drop_last()[i].in_checkpoint by {
            assert(workers[i].in_checkpoint == other[i].in_checkpoint);
        }
        lemma_count_same(workers.drop_last(), other.drop_last());
        assert(workers[workers.len() - 1].in_checkpoint == other[workers.len() - 1].in_checkpoint);
    }
}

/// The workers' states go on accounting for the jobs where no job returns and no worker
/// gets another state.
proof fn lemma_accounts_same<J, M>(s: System<J, M>, t: System<J, M>)
    requires
        inv(s),
        t.workers.len() == s.workers.len(),
        forall|i: int|
            0 <= i < s.workers.len() ==> (#[trigger] t.workers[i]).applied == s.workers[i].applied
                && t.workers[i].epoch == s.workers[i].epoch,
        t.finished == s.finished,
        t.needs.len() >= s.needs.len(),
        forall|k: int| 0 <= k < s.needs.len() ==> #[trigger] t.needs[k] == s.needs[k],
        t.makers.len() >= s.makers.len(),
    ensures
        accounts_fit(t),
{
    assert forall|k: nat| #[trigger]
        t.finished.contains(k) && t.needs[k as int] == Some(
            t.makers.len(),
        ) implies applied_somewhere(t, k) by {
        assert(s.finished.contains(k));
        assert(t.needs[k as int] == s.needs[k as int]);
        let i = choose|i: int|
            0 <= i < s.workers.len() && #[trigger] s.workers[i].applied.contains(k);
        assert(t.workers[i].applied.contains(k));
    }
    assert forall|i: int, k: nat|
        0 <= i < t.workers.len() && #[trigger] t.workers[i].applied.contains(
            k,
        ) implies t.finished.contains(k) && t.needs[k as int] == Some(t.workers[i].epoch) by {
        assert(s.workers[i].applied.contains(k));
        assert(t.needs[k as int] == s.needs[k as int]);
    }
    assert forall|i: int, j: int, k: nat|
        0 <= i < t.workers.len() && 0 <= j < t.workers.len()
            && #[trigger] t.workers[i].applied.contains(k)
            && #[trigger] t.workers[j].applied.contains(k) implies i == j by {
        assert(s.workers[i].applied.contains(k));
        assert(s.workers[j].applied.contains(k));
    }
}

/// The workers' states go on accounting for the jobs where a worker takes its turn.
proof fn lemma_accounts_turn<J, M>(s: System<J, M>, i: int)
    requires
        inv(s),
        s.worker_is(i, Activity::Ready),
    ensures
        accounts_fit(s.after_turn(i)),
{
    let t = s.after_turn(i);
    if !s.calls_maker(i) {
        lemma_accounts_same(s, t);
    } else {
        assert(forall|j: int| 0 <= j < s.workers.len() && j != i ==> t.workers[j] == s.workers[j]);
        assert forall|k: nat| #[trigger]
            t.finished.contains(k) && t.needs[k as int] == Some(
                t.makers.len(),
            ) implies applied_somewhere(t, k) by {
            assert(s.finished.contains(k));
            assert(s.needs[k as int] == Some(s.makers.len()));
        }
        assert forall|j: int, k: nat|
            0 <= j < t.workers.len() && #[trigger] t.workers[j].applied.contains(
                k,
            ) implies t.finished.contains(k) && t.needs[k as int] == Some(t.workers[j].epoch) by {
            assert(s.workers[j].applied.contains(k));
        }
        assert forall|j: int, l: int, k: nat|
            0 <= j < t.workers.len() && 0 <= l < t.workers.len()
                && #[trigger] t.workers[j].applied.contains(k)
                && #[trigger] t.workers[l].applied.contains(k) implies j == l by {
            assert(s.workers[j].applied.contains(k));
            assert(s.workers[l].applied.contains(k));
        }
    }
}

/// The workers' states go on accounting for the jobs where a job returns.
proof fn lemma_accounts_return<J, M>(s: System<J, M>, i: int)
    requires
        inv(s),
        s.busy(i),
    ensures
        accounts_fit(s.after_return(i)),
{
    let t = s.after_return(i);
    let job = s.workers[i].activity->Busy_0;
    let before = s.workers[i].applied;
    let after = t.workers[i].applied;
    let counts = s.needs[job as int] is Some;
    assert(!before.contains(job)) by {
        assert(!s.finished.contains(job));
    }
    assert(forall|j: int| 0 <= j < s.workers.len() && j != i ==> t.workers[j] == s.workers[j]);
    assert forall|k: nat| #[trigger] after.contains(k) implies before.contains(k) || (counts && k
        == job) by {
        let n = after.index_of(k);
        if n < before.len() {
            assert(before[n] == k);
        }
    }
    assert forall|k: nat| before.contains(k) || (counts && k == job) implies #[trigger]
    after.contains(k) by {
        if before.contains(k) {
            assert(after[before.index_of(k)] == k);
        } else {
            assert(after[before.len() as int] == k);
        }
    }
    assert(after.no_duplicates());
    assert forall|k: nat| #[trigger]
        t.finished.contains(k) && t.needs[k as int] == Some(
            t.makers.len(),
        ) implies applied_somewhere(t, k) by {
        if k == job {
            assert(t.workers[i].applied.contains(k));
        } else {
            assert(s.finished.contains(k));
            let j = choose|j: int|
                0 <= j < s.workers.len() && #[trigger] s.workers[j].applied.contains(k);
            assert(t.workers[j].applied.contains(k));
        }
    }
    assert forall|j: int, k: nat|
        0 <= j < t.workers.len() && #[trigger] t.workers[j].applied.contains(
            k,
        ) implies t.finished.contains(k) && t.needs[k as int] == Some(t.workers[j].epoch) by {
        if !(j == i && k == job) {
            assert(s.workers[j].applied.contains(k));
        }
    }
    assert forall|j: int, l: int, k: nat|
        0 <= j < t.workers.len() && 0 <= l < t.workers.len()
            && #[trigger] t.workers[j].applied.contains(k)
            && #[trigger] t.workers[l].applied.contains(k) implies j == l by {
        if k == job {
            assert(!s.finished.contains(k));
            if j != i {
                assert(s.workers[j].applied.contains(k));
            }
            if l != i {
                assert(s.workers[l].applied.contains(k));
            }
        } else {
            assert(s.workers[j].applied.contains(k));
            assert(s.workers[l].applied.contains(k));
        }
    }
}

proof fn lemma_initial<J, M>(pool: Pool)
    requires
        pool.nthreads() >= 1,
    ensures
        inv(System::<J, M>::initial(pool)),
{
    let s = System::<J, M>::initial(pool);
    assert(s.messaging.job_queue =~= s.submitted.skip(0));
    assert(forall|i: int| 0 <= i < s.workers.len() ==> s.workers[i] == WorkerModel::<M>::fresh());
}

proof fn lemma_worker_turn<J, M>(s: System<J, M>, i: int)
    requires
        inv(s),
        s.worker_is(i, Activity::Ready),
    ensures
        inv(s.after_turn(i)),
{
    let t = s.after_turn(i);
    let w = s.workers[i];
    let turn = turn_of(w.in_checkpoint, s.messaging);
    lemma_count_update(s.workers, i, t.workers[i]);
    lemma_ready_update(s.workers, i, t.workers[i]);
    lemma_count_bounds(s.workers);
    assert(forall|j: int| 0 <= j < s.workers.len() && j != i ==> t.workers[j] == s.workers[j]);
    if turn.action is Run {
        assert(t.messaging.job_queue =~= s.submitted.skip(t.started as int));
    }
    if s.calls_maker(i) {
        assert(s.makers.drop_last().push(s.makers.last()) =~= s.makers);
        assert(t.workers[i].made =~= w.made.push(s.makers.last()));
    } else {
        assert(t.workers[i].made =~= w.made);
    }
    lemma_accounts_turn(s, i);
}

proof fn lemma_worker_panics<J, M>(s: System<J, M>, i: int)
    requires
        inv(s),
        s.busy(i) || (s.worker_is(i, Activity::Ready) && s.calls_maker(i)),
    ensures
        s.busy(i) ==> inv(s.after_panic(i)),
        s.worker_is(i, Activity::Ready) ==> inv(
            s.with_worker(i, s.workers[i].doing(Activity::Leaving(true))),
        ),
{
    let w = s.workers[i].doing(Activity::Leaving(true));
    let t = if s.busy(i) {
        s.after_panic(i)
    } else {
        s.with_worker(i, w)
    };
    lemma_count_update(s.workers, i, w);
    lemma_ready_update(s.workers, i, w);
    assert(forall|j: int| 0 <= j < s.workers.len() && j != i ==> t.workers[j] == s.workers[j]);
    assert(t.workers[i].panicked());
    lemma_accounts_same(s, t);
}

proof fn lemma_job_returns<J, M>(s: System<J, M>, i: int)
    requires
        inv(s),
        s.busy(i),
    ensures
        inv(s.after_return(i)),
{
    let t = s.after_return(i);
    lemma_accounts_return(s, i);
    lemma_count_update(s.workers, i, t.workers[i]);
    lemma_ready_update(s.workers, i, t.workers[i]);
    assert(forall|j: int| 0 <= j < s.workers.len() && j != i ==> t.workers[j] == s.workers[j]);
}

proof fn lemma_worker_ends<J, M>(s: System<J, M>, i: int)
    requires
        inv(s),
        0 <= i < s.workers.len(),
        s.workers[i].activity is Leaving,
    ensures
        inv(s.after_end(i)),
{
    let t = s.after_end(i);
    lemma_count_update(s.workers, i, t.workers[i]);
    lemma_ready_update(s.workers, i, t.workers[i]);
    assert(forall|j: int| 0 <= j < s.workers.len() && j != i ==> t.workers[j] == s.workers[j]);
    assert(t.workers[i].activity is Gone);
    lemma_accounts_same(s, t);
}

proof fn lemma_worker_wakes<J, M>(s: System<J, M>, i: int)
    requires
        inv(s),
        s.worker_is(i, Activity::Asleep),
    ensures
        inv(s.with_worker(i, s.workers[i].notified())),
{
    let t = s.with_worker(i, s.workers[i].notified());
    lemma_count_update(s.workers, i, t.workers[i]);
    lemma_ready_update(s.workers, i, t.workers[i]);
    assert(forall|j: int| 0 <= j < s.workers.len() && j != i ==> t.workers[j] == s.workers[j]);
    assert(t.workers[i].activity is Ready);
    lemma_accounts_same(s, t);
}

proof fn lemma_submits<J, M>(s: System<J, M>, job: J, state: Option<nat>, t: System<J, M>)
    requires
        inv(s),
        s.caller == Operation::<J, M>::InScope(state) || (s.caller == Operation::<
            J,
            M,
        >::Submitting(job, state) && !s.asleep),
        s.submits(job, state, t),
    ensures
        inv(t),
{
    assert(t.messaging.job_queue =~= t.submitted.skip(t.started as int));
    lemma_notified(s, t);
    lemma_accounts_same(s, t);
    if some_asleep(s) && t.workers != s.workers {
        let i = choose|i: int|
            0 <= i < s.workers.len() && (#[trigger] s.workers[i]).activity is Asleep && t.workers
                == s.workers.update(i, s.workers[i].notified());
        lemma_ready_update(s.workers, i, s.workers[i].notified());
    }
}

/// Waking workers changes nothing but who sleeps.
proof fn lemma_notified<J, M>(s: System<J, M>, t: System<J, M>)
    requires
        t.workers.len() == s.workers.len(),
        forall|i: int|
            0 <= i < s.workers.len() ==> (#[trigger] t.workers[i] == s.workers[i] || t.workers[i]
                == s.workers[i].notified()),
    ensures
        checkpoint_count(t.workers) == checkpoint_count(s.workers),
        some_reported(t) == some_reported(s),
        some_panicked(t) == some_panicked(s),
        forall|k: nat| #[trigger] running(t, k) == running(s, k),
        forall|i: int|
            #![trigger s.workers[i]]
            0 <= i < s.workers.len() ==> t.workers[i] == s.workers[i] || t.workers[i]
                == s.workers[i].notified(),
{
    assert(forall|i: int|
        #![trigger s.workers[i]]
        0 <= i < s.workers.len() ==> t.workers[i] == s.workers[i] || t.workers[i]
            == s.workers[i].notified());
    lemma_count_same(s.workers, t.workers);
}

proof fn lemma_with_state<J, M>(s: System<J, M>, maker: M)
    requires
        inv(s),
        s.caller == Operation::<J, M>::InScope(None),
    ensures
        inv(
            (System { makers: s.makers.push(maker), ..s }).after_with_state(Stage::Begin(maker)),
        ),
{
    let t = (System { makers: s.makers.push(maker), ..s }).after_with_state(Stage::Begin(maker));
    lemma_notified(s, t);
    lemma_accounts_same(s, t);
    lemma_count_bounds(s.workers);
    assert(t.makers.drop_last() =~= s.makers);
}

proof fn lemma_end_scope<J, M>(s: System<J, M>)
    requires
        inv(s),
        s.caller is InScope,
    ensures
        inv(s.after_scoped(Stage::Begin(()))),
{
    let t = s.after_scoped(Stage::Begin(()));
    lemma_notified(s, t);
    lemma_accounts_same(s, t);
    lemma_count_bounds(s.workers);
}

proof fn lemma_proceed<J, M>(s: System<J, M>, t: System<J, M>)
    requires
        inv(s),
        s.next(Event::Proceed, t),
    ensures
        inv(t),
{
    lemma_notified(s, t);
    lemma_accounts_same(s, t);
    lemma_count_bounds(s.workers);
}

proof fn lemma_drop<J, M>(s: System<J, M>)
    requires
        inv(s),
        s.caller is Idle,
    ensures
        inv(s.after_drop()),
{
    let t = s.after_drop();
    lemma_notified(s, t);
    lemma_accounts_same(s, t);
}

/// Whatever happens, what holds at every moment goes on holding.
pub proof fn lemma_next<J, M>(s: System<J, M>, event: Event<J, M>, t: System<J, M>)
    requires
        inv(s),
        s.next(event, t),
    ensures
        inv(t),
{
    match event {
        Event::WorkerTurn(i) => lemma_worker_turn(s, i),
        Event::MakerPanics(i) => lemma_worker_panics(s, i),
        Event::JobReturns(i) => lemma_job_returns(s, i),
        Event::JobPanics(i) => lemma_worker_panics(s, i),
        Event::WorkerEnds(i) => lemma_worker_ends(s, i),
        Event::WorkerWakes(i) => lemma_worker_wakes(s, i),
        Event::CallerWakes => {},
        Event::Enter => {},
        Event::Abandon => {},
        Event::Execute(job) => lemma_submits(s, job, s.caller->InScope_0, t),
        Event::Retry => lemma_submits(
            s,
            s.caller->Submitting_0,
            s.caller->Submitting_1,
            t,
        ),
        Event::WithState(maker) => lemma_with_state(s, maker),
        Event::EndScope => lemma_end_scope(s),
        Event::Proceed => lemma_proceed(s, t),
        Event::Drop => lemma_drop(s),
    }
}

proof fn lemma_run<J, M>(states: Seq<System<J, M>>, events: Seq<Event<J, M>>, k: int)
    requires
        is_run(states, events),
        0 <= k < states.len(),
    ensures
        inv(states[k]),
    decreases k,
{
    if k == 0 {
        let pool = choose|pool: Pool|
            pool.nthreads() >= 1 && states[0] == System::<J, M>::initial(pool);
        lemma_initial::<J, M>(pool);
    } else {
        lemma_run(states, events, k - 1);
        lemma_next(states[k - 1], events[k - 1], states[k]);
    }
}

/// Each state of a run is one that the pool can come to be in.
pub proof fn lemma_run_reachable<J, M>(
    states: Seq<System<J, M>>,
    events: Seq<Event<J, M>>,
    k: int,
)
    requires
        is_run(states, events),
        0 <= k < states.len(),
    ensures
        reachable(states[k]),
{
    let states_k = states.take(k + 1);
    let events_k = events.take(k);
    assert(states_k[0] == states[0]);
    assert forall|j: int| 0 <= j < events_k.len() implies states_k[j].next(
        #[trigger] events_k[j],
        states_k[j + 1],
    ) by {
        assert(states[j].next(events[j], states[j + 1]));
    }
    assert(is_run(states_k, events_k));
    assert(states_k.last() == states[k]);
}

/// What comes of a state that the pool can come to be in is another one.
pub proof fn lemma_next_reachable<J, M>(s: System<J, M>, event: Event<J, M>, t: System<J, M>)
    requires
        reachable(s),
        s.next(event, t),
    ensures
        reachable(t),
{
    let (states, events) = choose|states: Seq<System<J, M>>, events: Seq<Event<J, M>>|
        is_run(states, events) && states.last() == s;
    let states_t = states.push(t);
    let events_t = events.push(event);
    assert(states_t[0] == states[0]);
    assert forall|k: int| 0 <= k < events_t.len() implies states_t[k].next(
        #[trigger] events_t[k],
        states_t[k + 1],
    ) by {
        if k < events.len() {
            assert(states[k].next(events[k], states[k + 1]));
        }
    }
    assert(is_run(states_t, events_t));
    assert(states_t.last() == t);
}

pub proof fn lemma_initial_reachable<J, M>(pool: Pool)
    requires
        pool.nthreads() >= 1,
    ensures
        reachable(System::<J, M>::initial(pool)),
{
    let s = System::<J, M>::initial(pool);
    let states = seq![s];
    let events = Seq::<Event<J, M>>::empty();
    assert(states[0] == s);
    assert(is_run(states, events));
    assert(states.last() == s);
}

/// A pool can only come to be as `inv` says.
pub proof fn lemma_reachable<J, M>(s: System<J, M>)
    requires
        reachable(s),
    ensures
        inv(s),
{
    let (states, events) = choose|states: Seq<System<J, M>>, events: Seq<Event<J, M>>|
        is_run(states, events) && states.last() == s;
    lemma_run(states, events, states.len() - 1);
}

} // verus!

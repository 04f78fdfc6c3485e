//! What each function decides, on given values.
use pond::{
    Action, Closing, Failure, Flag, Messaging, Outcome, Pool, Scope, Settlement, Stage, Step,
    Submission, Task, Turn, Worker,
};

type Shared = Messaging<Task<u8, u16>, fn() -> u32>;

fn forty_two() -> u32 {
    42
}

fn shared(jobs: u8, flag: Option<Flag>, completion_counter: usize) -> Shared {
    let mut m: Shared = Messaging::new();
    for n in 0..jobs {
        m.job_queue.push_back(Task::FnStateless(n));
    }
    m.flag = flag;
    m.completion_counter = completion_counter;
    m
}

fn worker(in_checkpoint: bool) -> Worker<u32> {
    let mut w = Worker::new(7);
    assert!(!w.in_checkpoint);
    w.in_checkpoint = in_checkpoint;
    w
}

#[test]
fn messaging_starts_empty() {
    let m: Shared = Messaging::new();
    assert!(m.job_queue.is_empty());
    assert_eq!(m.flag, None);
    assert_eq!(m.completion_counter, 0);
    assert!(!m.panic_detected);
    assert!(m.state_maker.is_none());
}

#[test]
fn worker_sleeps_without_work() {
    for (in_checkpoint, jobs, flag) in [
        (false, 0, None),
        (true, 0, None),
        (true, 2, None),
        (true, 0, Some(Flag::Checkpoint)),
        (true, 2, Some(Flag::Checkpoint)),
    ] {
        let mut m = shared(jobs, flag, 1);
        let mut w = worker(in_checkpoint);
        let turn = w.run_thread(&mut m);
        assert_eq!(turn, Turn { answered: false, action: Action::Wait });
        assert_eq!(w.in_checkpoint, in_checkpoint);
        assert_eq!(m.job_queue.len(), jobs as usize);
        assert_eq!((m.flag, m.completion_counter), (flag, 1));
    }
}

#[test]
fn worker_takes_the_oldest_job() {
    for (in_checkpoint, flag) in [
        (false, None),
        (false, Some(Flag::Checkpoint)),
        (false, Some(Flag::SetState)),
        (false, Some(Flag::Resume)),
        (true, Some(Flag::SetState)),
    ] {
        let mut m = shared(3, flag, 0);
        m.state_maker = Some(forty_two);
        let mut w = worker(in_checkpoint);
        let turn = w.run_thread(&mut m);
        assert_eq!(turn, Turn { answered: false, action: Action::Run(Task::FnStateless(0)) });
        assert_eq!(m.job_queue, [Task::FnStateless(1), Task::FnStateless(2)]);
        assert_eq!(m.completion_counter, 0);
        assert_eq!(w.in_checkpoint, in_checkpoint);
        assert_eq!(w.state, 7);
    }
}

#[test]
fn worker_answers_a_checkpoint() {
    let mut m = shared(0, Some(Flag::Checkpoint), 2);
    let mut w = worker(false);
    assert_eq!(w.run_thread(&mut m), Turn { answered: true, action: Action::Again });
    assert_eq!(m.completion_counter, 3);
    assert!(w.in_checkpoint);
    assert_eq!(w.state, 7);
}

#[test]
fn worker_makes_a_state() {
    let mut m = shared(0, Some(Flag::SetState), 0);
    m.state_maker = Some(forty_two);
    let mut w = worker(false);
    assert_eq!(w.run_thread(&mut m), Turn { answered: true, action: Action::Again });
    assert_eq!((m.completion_counter, w.in_checkpoint, w.state), (1, true, 42));
    // once is enough
    w.state = 43;
    assert_eq!(w.run_thread(&mut m), Turn { answered: false, action: Action::Again });
    assert_eq!((m.completion_counter, w.in_checkpoint, w.state), (1, true, 43));
}

#[test]
fn worker_answers_a_resume() {
    let mut m = shared(0, Some(Flag::Resume), 0);
    let mut w = worker(true);
    assert_eq!(w.run_thread(&mut m), Turn { answered: true, action: Action::Again });
    assert_eq!((m.completion_counter, w.in_checkpoint), (1, false));
    assert_eq!(w.run_thread(&mut m), Turn { answered: false, action: Action::Again });
    assert_eq!((m.completion_counter, w.in_checkpoint), (1, false));

    let mut m = shared(1, Some(Flag::Resume), 0);
    let mut w = worker(true);
    let turn = w.run_thread(&mut m);
    assert_eq!(turn, Turn { answered: true, action: Action::Run(Task::FnStateless(0)) });
}

#[test]
fn worker_leaves() {
    for in_checkpoint in [false, true] {
        for jobs in [0, 2] {
            let mut m = shared(jobs, Some(Flag::Exit), 0);
            let mut w = worker(in_checkpoint);
            assert_eq!(w.run_thread(&mut m), Turn { answered: false, action: Action::Exit });
            assert_eq!(m.job_queue.len(), jobs as usize);
        }
    }
}

#[test]
fn ended_worker_is_noted() {
    let mut m = shared(0, None, 0);
    m.worker_ended(false);
    assert!(!m.panic_detected);
    m.worker_ended(true);
    assert!(m.panic_detected);
    m.worker_ended(false);
    assert!(m.panic_detected);
}

#[test]
fn ending_a_scope() {
    let pool = Pool::new_threads_unbounded(2);
    let mut m = shared(1, None, 9);
    let step = pool.scoped(Stage::Begin(()), &mut m);
    assert_eq!(step, Step { notify_all: true, outcome: Outcome::Wait(Stage::Gather) });
    assert_eq!((m.flag, m.completion_counter), (Some(Flag::Checkpoint), 0));

    m.completion_counter = 1;
    let step = pool.scoped(Stage::Gather, &mut m);
    assert_eq!(step, Step { notify_all: false, outcome: Outcome::Wait(Stage::Gather) });
    m.completion_counter = 2;
    let step = pool.scoped(Stage::Gather, &mut m);
    assert_eq!(step, Step { notify_all: false, outcome: Outcome::Relock(Stage::Release) });
    assert_eq!((m.flag, m.completion_counter), (Some(Flag::Checkpoint), 2));

    let step = pool.scoped(Stage::Release, &mut m);
    assert_eq!(step, Step { notify_all: true, outcome: Outcome::Wait(Stage::Drain) });
    assert_eq!((m.flag, m.completion_counter), (Some(Flag::Resume), 0));
    m.completion_counter = 2;
    let step = pool.scoped(Stage::Drain, &mut m);
    assert_eq!(step, Step { notify_all: false, outcome: Outcome::Done(()) });
    assert_eq!((m.flag, m.completion_counter), (None, 2));
}

#[test]
fn ending_a_scope_over_a_dead_worker() {
    let pool = Pool::new_threads_unbounded(2);
    let failed = Outcome::Panic(Failure::WorkerPanicked);
    for counter in 0..3 {
        let mut m = shared(0, Some(Flag::Checkpoint), counter);
        m.panic_detected = true;
        let step = pool.scoped(Stage::Gather, &mut m);
        assert_eq!(step.outcome, failed);
        assert_eq!(pool.scoped(Stage::Begin(()), &mut m).outcome, failed);
        assert_eq!(m.flag, Some(Flag::Checkpoint));
    }
}

#[test]
fn giving_a_state() {
    let pool = Pool::new_threads_unbounded(1);
    let scope: Scope = pool.scope();
    let mut m = shared(0, None, 5);
    let step = scope.with_state(Stage::Begin(forty_two as fn() -> u32), &mut m);
    assert!(step.notify_all);
    assert!(matches!(step.outcome, Outcome::Wait(Stage::Gather)));
    assert_eq!((m.flag, m.completion_counter), (Some(Flag::SetState), 0));
    assert_eq!(m.state_maker.map(|f| f()), Some(42));

    let mut w = worker(false);
    assert!(w.run_thread(&mut m).answered);
    let step = scope.with_state(Stage::Gather, &mut m);
    assert!(!step.notify_all);
    assert!(matches!(step.outcome, Outcome::Relock(Stage::Release)));
    assert!(m.state_maker.is_some());

    let step = scope.with_state(Stage::Release, &mut m);
    assert!(step.notify_all);
    assert!(matches!(step.outcome, Outcome::Wait(Stage::Drain)));
    assert_eq!((m.flag, m.completion_counter), (Some(Flag::Resume), 0));
    assert!(m.state_maker.is_none());

    assert!(w.run_thread(&mut m).answered);
    match scope.with_state(Stage::Drain, &mut m).outcome {
        Outcome::Done(stateful) => {
            assert_eq!(m.flag, None);
            assert_eq!(stateful.execute(300, &mut m), Submission::Queued);
            assert_eq!(m.job_queue, [Task::FnState(300)]);
        }
        _ => panic!("the worker has gone on"),
    }
    assert_eq!(w.state, 42);
}

#[test]
fn giving_a_state_over_a_dead_worker() {
    let pool = Pool::new_threads_unbounded(1);
    let mut m = shared(0, None, 0);
    m.panic_detected = true;
    let step = pool.scope().with_state(Stage::Begin(forty_two as fn() -> u32), &mut m);
    assert!(matches!(step.outcome, Outcome::Panic(Failure::WorkerPanicked)));
}

#[test]
fn submitting_jobs() {
    let pool = Pool::new_threads(1, 2);
    let scope = pool.scope();
    let mut m = shared(0, None, 0);
    for n in 0..2 {
        assert_eq!(scope.execute(n, &mut m), Submission::Queued);
    }
    assert_eq!(scope.execute(2, &mut m), Submission::Settling);
    assert_eq!(m.job_queue.len(), 3);
    assert_eq!(scope.execute(3, &mut m), Submission::Blocked(3));
    assert_eq!(m.job_queue.len(), 3);

    assert_eq!(pool.settled(&m), Settlement::Waiting);
    m.job_queue.pop_front();
    assert_eq!(pool.settled(&m), Settlement::Done);
    assert_eq!(m.job_queue, [Task::FnStateless(1), Task::FnStateless(2)]);
}

#[test]
fn submitting_jobs_over_a_dead_worker() {
    let pool = Pool::new_threads(1, 2);
    let scope = pool.scope();
    let failed = Submission::Panic(Failure::WorkerPanicked);
    let mut m = shared(3, None, 0);
    m.panic_detected = true;
    assert_eq!(scope.execute(3, &mut m), failed);
    assert_eq!(m.job_queue.len(), 3);
    assert_eq!(pool.settled(&m), Settlement::Panic(Failure::WorkerPanicked));
    m.job_queue.pop_front();
    assert_eq!(scope.execute(3, &mut m), failed);
    assert_eq!(
        m.job_queue,
        [Task::FnStateless(1), Task::FnStateless(2), Task::FnStateless(3)]
    );
    m.job_queue.clear();
    assert_eq!(pool.settled(&m), Settlement::Panic(Failure::WorkerPanicked));
}

#[test]
fn submitting_a_job_without_a_backlog() {
    let pool = Pool::new_threads(1, 0);
    let mut m = shared(0, None, 0);
    assert_eq!(pool.scope().execute(0, &mut m), Submission::Settling);
    assert_eq!(pool.settled(&m), Settlement::Waiting);
    assert_eq!(pool.scope().execute(1, &mut m), Submission::Blocked(1));
    assert_eq!(worker(false).run_thread(&mut m).action, Action::Run(Task::FnStateless(0)));
    assert_eq!(pool.settled(&m), Settlement::Done);

    let pool = Pool::new_threads_unbounded(1);
    let m = shared(200, None, 0);
    assert_eq!(pool.settled(&m), Settlement::Done);
}

#[test]
fn dropping_the_pool() {
    let pool = Pool::new_threads_unbounded(1);
    let mut m = shared(1, None, 0);
    assert_eq!(pool.drop(&mut m), Closing::Panic(Failure::JobsLeft));
    assert_eq!(m.flag, None);
    m.job_queue.clear();
    assert_eq!(pool.drop(&mut m), Closing::Join);
    assert_eq!(m.flag, Some(Flag::Exit));
}

#[test]
fn messages() {
    assert_eq!(Failure::WorkerPanicked.message(), "worker thread panicked");
    assert_eq!(
        Failure::JobsLeft.message(),
        "pond::Pool: one or more worker thread panicked"
    );
}

/// How many jobs the pool queues before a submission waits, if less than `most`.
fn room(pool: &Pool, most: usize) -> Option<usize> {
    let mut m = shared(0, None, 0);
    for n in 0..most {
        if pool.scope().execute(0, &mut m) != Submission::Queued {
            return Some(n);
        }
    }
    None
}

#[test]
fn pools_of_the_machine() {
    let cpus = num_cpus::get();
    assert!(cpus >= 1);
    let pool = Pool::new().unwrap();
    assert_eq!(pool.thread_count(), cpus);
    assert_eq!(room(&pool, 5 * cpus), Some(4 * cpus));
    let pool = Pool::unbounded();
    assert_eq!(pool.thread_count(), cpus);
    assert_eq!(room(&pool, 5 * cpus), None);
}

#[test]
fn pools_of_given_sizes() {
    let pool = Pool::native(3).unwrap();
    assert_eq!((pool.thread_count(), room(&pool, 100)), (3, Some(12)));
    assert!(Pool::native(usize::MAX / 4).is_some());
    assert!(Pool::native(usize::MAX / 4 + 1).is_none());
    let pool = Pool::new_threads(5, 7);
    assert_eq!((pool.thread_count(), room(&pool, 100)), (5, Some(7)));
    let pool = Pool::new_threads_unbounded(6);
    assert_eq!((pool.thread_count(), room(&pool, 1000)), (6, None));
}

#[test]
fn running_a_job() {
    let mut state = 5;
    let ran = std::cell::Cell::new(0);
    let job = if ran.get() == 0 {
        Task::FnStateless(|| ran.set(1))
    } else {
        Task::FnState(|n: &mut i32| *n += 1)
    };
    job.run(&mut state);
    assert_eq!((ran.get(), state), (1, 5));
    let job = if ran.get() == 0 {
        Task::FnStateless(|| ran.set(2))
    } else {
        Task::FnState(|n: &mut i32| *n += 1)
    };
    job.run(&mut state);
    assert_eq!((ran.get(), state), (1, 6));
}

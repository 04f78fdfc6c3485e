//! Whole pools at work, on simulated threads and a simulated clock.
//!
//! Every worker takes its turns as a thread of a pool would; which of them is next is
//! drawn at random, and every test is run on several draws.
use pond::{
    Action, Closing, Flag, Messaging, Outcome, Pool, Scope, ScopeWithState, Settlement, Stage,
    Submission, Task, Worker,
};
use std::any::Any;
use std::cell::{Cell, RefCell};
use std::rc::Rc;

type State = Box<dyn Any>;
type Job<'a> = Box<dyn FnOnce() + 'a>;
type StateJob<'a> = Box<dyn FnOnce(&mut State) + 'a>;
type Maker<'a> = Box<dyn Fn() -> State + 'a>;

/// What a job can do to the thread that runs it.
#[derive(Clone)]
struct Thread<'a> {
    sleep: Rc<RefCell<Option<(u64, Job<'a>)>>>,
    dead: Rc<Cell<bool>>,
}

impl<'a> Thread<'a> {
    fn new() -> Self {
        Thread { sleep: Rc::new(RefCell::new(None)), dead: Rc::new(Cell::new(false)) }
    }

    /// The job sleeps and then does the rest.
    fn sleep_ms(&self, ms: u64, rest: impl FnOnce() + 'a) {
        *self.sleep.borrow_mut() = Some((ms, Box::new(rest)));
    }

    /// The job panics.
    fn die(&self) {
        self.dead.set(true);
    }
}

enum Doing<'a> {
    Ready,
    Asleep,
    Busy(u64, Job<'a>),
    Gone,
}

struct SimWorker<'a> {
    worker: Worker<State>,
    doing: Doing<'a>,
}

struct Sim<'a> {
    pool: &'a Pool,
    stateful: Option<ScopeWithState<'a>>,
    messaging: Messaging<Task<Job<'a>, StateJob<'a>>, Maker<'a>>,
    workers: Vec<SimWorker<'a>>,
    thread: Thread<'a>,
    now: u64,
    caller_awake: bool,
    seed: u64,
    longest_queue: usize,
    /// The longest queue when a submission returned.
    queue_between: usize,
    /// The state makers to come panic.
    maker_dies: bool,
}

impl<'a> Sim<'a> {
    fn new(pool: &'a Pool, thread: &Thread<'a>, seed: u64) -> Self {
        let mut workers = Vec::new();
        for _ in 0..pool.thread_count() {
            let state: State = Box::new(0i32);
            workers.push(SimWorker { worker: Worker::new(state), doing: Doing::Ready });
        }
        Sim {
            pool,
            stateful: None,
            messaging: Messaging::new(),
            workers,
            thread: thread.clone(),
            now: 0,
            caller_awake: true,
            seed,
            longest_queue: 0,
            queue_between: 0,
            maker_dies: false,
        }
    }

    fn draw(&mut self, n: usize) -> usize {
        self.seed = self.seed.wrapping_mul(6364136223846793005).wrapping_add(1442695040888963407);
        (self.seed >> 33) as usize % n
    }

    fn notify_all(&mut self) {
        for w in self.workers.iter_mut() {
            if matches!(w.doing, Doing::Asleep) {
                w.doing = Doing::Ready;
            }
        }
    }

    fn those(&self, wanted: fn(&Doing<'a>) -> bool) -> Vec<usize> {
        (0..self.workers.len()).filter(|&i| wanted(&self.workers[i].doing)).collect()
    }

    fn notify_one(&mut self) {
        let sleepers = self.those(|d| matches!(d, Doing::Asleep));
        if !sleepers.is_empty() {
            let i = self.draw(sleepers.len());
            self.workers[sleepers[i]].doing = Doing::Ready;
        }
    }

    /// What the job or the state maker of worker `i` has left behind.
    fn after_user_code(&mut self, i: usize) {
        if self.thread.dead.take() {
            self.messaging.worker_ended(true);
            self.caller_awake = true;
            self.workers[i].doing = Doing::Gone;
        } else if let Some((ms, rest)) = self.thread.sleep.borrow_mut().take() {
            self.workers[i].doing = Doing::Busy(self.now + ms, rest);
        } else {
            self.workers[i].doing = Doing::Ready;
        }
    }

    fn turn(&mut self, i: usize) {
        if self.maker_dies
            && self.messaging.flag == Some(Flag::SetState)
            && self.messaging.job_queue.is_empty()
            && !self.workers[i].worker.in_checkpoint
        {
            // the state maker panics before anything is changed
            self.thread.die();
            self.after_user_code(i);
            return;
        }
        let turn = self.workers[i].worker.run_thread(&mut self.messaging);
        if turn.answered {
            self.caller_awake = true;
        }
        match turn.action {
            Action::Wait => self.workers[i].doing = Doing::Asleep,
            Action::Again => {}
            Action::Run(job) => {
                self.caller_awake = true;
                job.run(&mut self.workers[i].worker.state);
                self.after_user_code(i);
            }
            Action::Exit => {
                self.messaging.worker_ended(false);
                self.caller_awake = true;
                self.workers[i].doing = Doing::Gone;
            }
        }
    }

    /// One thing happens on the side of the workers.
    fn happen(&mut self) {
        if self.draw(16) == 0 {
            self.notify_one(); // someone wakes unasked
        }
        let ready = self.those(|d| matches!(d, Doing::Ready));
        if !ready.is_empty() {
            let i = self.draw(ready.len());
            self.turn(ready[i]);
            return;
        }
        // nobody can move: the clock goes on to the next job that wakes
        let mut next: Option<(u64, usize)> = None;
        for (i, w) in self.workers.iter().enumerate() {
            if let Doing::Busy(until, _) = w.doing {
                if next.map_or(true, |(t, _)| until < t) {
                    next = Some((until, i));
                }
            }
        }
        let (until, i) = next.expect("the pool is stuck");
        self.now = until;
        let doing = std::mem::replace(&mut self.workers[i].doing, Doing::Ready);
        if let Doing::Busy(_, rest) = doing {
            rest();
        }
        self.after_user_code(i);
    }

    fn wait(&mut self) {
        self.caller_awake = false;
        while !self.caller_awake {
            self.happen();
        }
    }

    /// Lets the workers go on for a while, as they do while the caller is elsewhere.
    fn meanwhile(&mut self) {
        for _ in 0..self.draw(4) {
            if !self.those(|d| matches!(d, Doing::Ready)).is_empty() {
                self.happen();
            }
        }
    }

    /// The caller does nothing until no worker can move without the clock.
    fn pause(&mut self) {
        while !self.those(|d| matches!(d, Doing::Ready)).is_empty() {
            self.happen();
        }
    }

    fn submitted<T>(&mut self, submission: Submission<T>) -> Result<Option<T>, &'static str> {
        self.longest_queue = self.longest_queue.max(self.messaging.job_queue.len());
        match submission {
            Submission::Blocked(f) => {
                self.wait();
                Ok(Some(f))
            }
            Submission::Queued => {
                self.notify_one();
                self.returned();
                Ok(None)
            }
            Submission::Settling => {
                self.notify_one();
                loop {
                    self.wait();
                    match self.pool.settled(&self.messaging) {
                        Settlement::Waiting => {}
                        Settlement::Done => break,
                        Settlement::Panic(failure) => return Err(failure.message()),
                    }
                }
                self.returned();
                Ok(None)
            }
            Submission::Panic(failure) => Err(failure.message()),
        }
    }

    /// A submission has returned.
    fn returned(&mut self) {
        self.queue_between = self.queue_between.max(self.messaging.job_queue.len());
        self.meanwhile();
    }

    fn execute(&mut self, f: impl FnOnce() + 'a) -> Result<(), &'static str> {
        let mut f: Job<'a> = Box::new(f);
        loop {
            let scope: Scope = self.pool.scope();
            let submission = scope.execute(f, &mut self.messaging);
            match self.submitted(submission)? {
                Some(again) => f = again,
                None => return Ok(()),
            }
        }
    }

    /// Submits a job that takes a state of type `T`.
    fn execute_with<T: 'static>(
        &mut self,
        f: impl FnOnce(&mut T) + 'a,
    ) -> Result<(), &'static str> {
        let mut f: StateJob<'a> =
            Box::new(move |state: &mut State| f(state.downcast_mut::<T>().unwrap()));
        loop {
            let scope = self.stateful.as_ref().expect("the scope has no state");
            let submission = scope.execute(f, &mut self.messaging);
            match self.submitted(submission)? {
                Some(again) => f = again,
                None => return Ok(()),
            }
        }
    }

    fn with_state<T: 'static>(
        &mut self,
        maker: impl Fn() -> T + 'a,
    ) -> Result<(), &'static str> {
        let maker: Maker<'a> = Box::new(move || Box::new(maker()) as State);
        let mut stage = Stage::Begin(maker);
        loop {
            let step = self.pool.scope().with_state(stage, &mut self.messaging);
            if step.notify_all {
                self.notify_all();
            }
            match step.outcome {
                Outcome::Wait(next) => {
                    self.wait();
                    stage = next;
                }
                Outcome::Relock(next) => {
                    self.meanwhile();
                    stage = next;
                }
                Outcome::Panic(failure) => return Err(failure.message()),
                Outcome::Done(scope) => {
                    self.stateful = Some(scope);
                    return Ok(());
                }
            }
        }
    }

    fn scoped(
        &mut self,
        f: impl FnOnce(&mut Sim<'a>) -> Result<(), &'static str>,
    ) -> Result<(), &'static str> {
        self.stateful = None;
        f(self)?;
        let mut stage = Stage::Begin(());
        loop {
            let step = self.pool.scoped(stage, &mut self.messaging);
            if step.notify_all {
                self.notify_all();
            }
            match step.outcome {
                Outcome::Wait(next) => {
                    self.wait();
                    stage = next;
                }
                Outcome::Relock(next) => {
                    self.meanwhile();
                    stage = next;
                }
                Outcome::Panic(failure) => return Err(failure.message()),
                Outcome::Done(()) => {
                    // nothing is left of the scope
                    assert!(self.messaging.job_queue.is_empty());
                    assert_eq!(self.messaging.flag, None);
                    assert!(self.workers.iter().all(|w| !w.worker.in_checkpoint));
                    assert!(self.those(|d| matches!(d, Doing::Busy(..))).is_empty());
                    return Ok(());
                }
            }
        }
    }

    fn drop_pool(&mut self) -> Result<(), &'static str> {
        match self.pool.drop(&mut self.messaging) {
            Closing::Panic(failure) => Err(failure.message()),
            Closing::Join => {
                self.notify_all();
                while self.workers.iter().any(|w| !matches!(w.doing, Doing::Gone)) {
                    self.happen();
                }
                Ok(())
            }
        }
    }
}

/// A pool that is dropped where its owner is, while unwinding too.
struct Owned<'a>(Sim<'a>);

impl Drop for Owned<'_> {
    fn drop(&mut self) {
        assert_eq!(self.0.drop_pool(), Ok(()));
        assert!(self.0.workers.iter().all(|w| matches!(w.doing, Doing::Gone)));
    }
}

const DRAWS: std::ops::Range<u64> = 0..8;

#[test]
fn smoketest() {
    for seed in DRAWS {
        let plan = Pool::new_threads_unbounded(4);
        let thread = Thread::new();
        let mut pool = Sim::new(&plan, &thread, seed);
        for i in 1..7 {
            let vec: Vec<Rc<Cell<i32>>> =
                vec![0, 1, 2, 3, 4].into_iter().map(|n| Rc::new(Cell::new(n))).collect();
            let result = pool.scoped(|s| {
                for e in vec.iter() {
                    let e = e.clone();
                    s.execute(move || e.set(e.get() + i))?;
                }
                Ok(())
            });
            assert_eq!(result, Ok(()));

            let vec: Vec<i32> = vec.iter().map(|e| e.get()).collect();
            let mut vec2 = vec![0, 1, 2, 3, 4];
            for e in vec2.iter_mut() {
                *e += i;
            }
            assert_eq!(vec, vec2);
        }
    }
}

#[test]
#[should_panic]
fn thread_panic() {
    let plan = Pool::new_threads_unbounded(4);
    let thread = Thread::new();
    let mut pool = Owned(Sim::new(&plan, &thread, 1));
    let t = thread.clone();
    pool.0.scoped(|scoped| scoped.execute(move || t.die())).unwrap();
}

#[test]
#[should_panic]
fn scope_panic() {
    let plan = Pool::new_threads_unbounded(4);
    let thread = Thread::new();
    let mut pool = Owned(Sim::new(&plan, &thread, 1));
    let _ = pool.0.scoped(|_scoped| panic!());
}

#[test]
#[should_panic]
fn pool_panic() {
    let plan = Pool::new_threads_unbounded(4);
    let thread = Thread::new();
    let _pool = Owned(Sim::new(&plan, &thread, 1));
    panic!()
}

#[test]
fn join_all() {
    for seed in DRAWS {
        let plan = Pool::new_threads_unbounded(4);
        let thread = Thread::new();
        let sent = Rc::new(RefCell::new(Vec::new()));
        let mut pool = Sim::new(&plan, &thread, seed);
        let result = pool.scoped(|scoped| {
            let (tx, t) = (sent.clone(), thread.clone());
            scoped.execute(move || t.sleep_ms(1000, move || tx.borrow_mut().push(2)))?;
            let tx = sent.clone();
            scoped.execute(move || tx.borrow_mut().push(1))?;
            let (tx, t) = (sent.clone(), thread.clone());
            scoped.execute(move || t.sleep_ms(500, move || tx.borrow_mut().push(3)))
        });
        assert_eq!(result, Ok(()));
        assert_eq!(*sent.borrow(), vec![1, 3, 2]);
    }
}

#[test]
fn join_all_with_thread_panic() {
    for seed in DRAWS {
        let plan = Pool::new_threads_unbounded(8);
        let thread = Thread::new();
        let sent = Rc::new(RefCell::new(Vec::new()));
        let mut pool = Sim::new(&plan, &thread, seed);
        let result = pool.scoped(|scoped| {
            let t = thread.clone();
            scoped.execute(move || {
                let u = t.clone();
                t.sleep_ms(1000, move || u.die())
            })?;
            for _ in 1..8 {
                let (tx, t) = (sent.clone(), thread.clone());
                scoped.execute(move || t.sleep_ms(2000, move || tx.borrow_mut().push(0)))?;
            }
            Ok(())
        });
        if let Ok(..) = result {
            panic!("Pool didn't panic as expected");
        }
        sent.borrow_mut().push(1);
        assert_eq!(pool.drop_pool(), Ok(()));
        let values: Vec<u8> = sent.borrow().clone();
        assert_eq!(&values[..], &[1, 0, 0, 0, 0, 0, 0, 0]);
    }
}

#[test]
fn no_leak() {
    for seed in DRAWS {
        let counters = Rc::new(());
        {
            let plan = Pool::new_threads_unbounded(4);
            let thread = Thread::new();
            let mut pool = Sim::new(&plan, &thread, seed);
            let result = pool.scoped(|scoped| {
                let (c, t) = (Rc::clone(&counters), thread.clone());
                scoped.execute(move || {
                    t.sleep_ms(100, move || {
                        let _c = c;
                    })
                })
            });
            assert_eq!(result, Ok(()));
            assert_eq!(pool.drop_pool(), Ok(()));
        }
        assert_eq!(Rc::strong_count(&counters), 1);
    }
}

#[test]
fn no_leak2() {
    for seed in DRAWS {
        let plan = Pool::new_threads_unbounded(4);
        let thread = Thread::new();
        let mut pool = Sim::new(&plan, &thread, seed);
        let result = pool.scoped(|scoped| {
            for _ in 0..4 {
                let t = thread.clone();
                scoped.execute(move || t.sleep_ms(100, || {}))?;
            }
            Ok(())
        });
        assert_eq!(result, Ok(()));
    }
}

#[test]
fn no_leak_state() {
    for seed in DRAWS {
        let counters = Rc::new(());
        let plan = Pool::new_threads_unbounded(4);
        let thread = Thread::new();
        let mut pool = Sim::new(&plan, &thread, seed);
        let result = pool.scoped(|scoped| {
            scoped.execute(|| {
                let _c = Rc::clone(&counters);
            })
        });
        assert_eq!(result, Ok(()));
        assert_eq!(pool.drop_pool(), Ok(()));
        assert_eq!(Rc::strong_count(&counters), 1);
    }
}

#[test]
fn safe_execute() {
    for seed in DRAWS {
        let plan = Pool::new_threads_unbounded(4);
        let thread = Thread::new();
        let mut pool = Sim::new(&plan, &thread, seed);
        assert_eq!(pool.scoped(|scoped| scoped.execute(move || {})), Ok(()));
    }
}

#[test]
fn backlog_positive() {
    for seed in DRAWS {
        let plan = Pool::new_threads(4, 1);
        let thread = Thread::new();
        let mut pool = Sim::new(&plan, &thread, seed);
        let result = pool.scoped(|scoped| {
            let begin = scoped.now;
            for _ in 0..16 {
                let t = thread.clone();
                scoped.execute(move || t.sleep_ms(1000, || {}))?;
            }
            assert!((scoped.now - begin) / 1000 > 1);
            Ok(())
        });
        assert_eq!(result, Ok(()));
        assert_eq!((pool.longest_queue, pool.queue_between), (2, 1));
    }
}

#[test]
fn backlog_negative() {
    for seed in DRAWS {
        let plan = Pool::new_threads_unbounded(20);
        let thread = Thread::new();
        let mut pool = Sim::new(&plan, &thread, seed);
        let result = pool.scoped(|scoped| {
            let begin = scoped.now;
            for _ in 0..120 {
                let t = thread.clone();
                scoped.execute(move || t.sleep_ms(1000, || {}))?;
            }
            assert!((scoped.now - begin) / 1000 < 2);
            Ok(())
        });
        assert_eq!(result, Ok(()));
    }
}

#[test]
fn many_threads() {
    for seed in DRAWS {
        let plan = Pool::new_threads_unbounded(40);
        let thread = Thread::new();
        let mut pool = Sim::new(&plan, &thread, seed);
        let result = pool.scoped(|scoped| {
            for _ in 0..120 {
                let t = thread.clone();
                scoped.execute(move || t.sleep_ms(200, || {}))?;
            }
            Ok(())
        });
        assert_eq!(result, Ok(()));
        assert_eq!(pool.now, 600);
    }
}

#[test]
fn state_creator_scope() {
    for seed in DRAWS {
        let sc = "hello".to_string();
        let counter = Cell::new(0);
        let plan = Pool::new_threads_unbounded(4);
        let thread = Thread::new();
        let mut pool = Sim::new(&plan, &thread, seed);
        let result = pool.scoped(|scoped| {
            scoped.with_state(|| {
                counter.set(counter.get() + 1);
                sc.clone()
            })?;
            for _ in 0..120 {
                scoped.execute_with(move |state: &mut String| assert_eq!(state, "hello"))?;
            }
            Ok(())
        });
        assert_eq!(result, Ok(()));
        assert_eq!(counter.get(), 4);
    }
}

#[test]
fn modify_state() {
    for seed in DRAWS {
        let counter = Rc::new(Cell::new(0));
        let plan = Pool::new_threads_unbounded(4);
        let thread = Thread::new();
        let mut pool = Sim::new(&plan, &thread, seed);
        let result = pool.scoped(|scoped| {
            let c = counter.clone();
            scoped.with_state(move || c.clone())?;
            for _ in 0..120 {
                scoped.execute_with(move |f: &mut Rc<Cell<i32>>| f.set(f.get() + 1))?;
            }
            Ok(())
        });
        assert_eq!(result, Ok(()));
        assert_eq!(counter.get(), 120);
    }
}

#[test]
fn do_them_all() {
    let counter = Rc::new(Cell::new(0));
    let plan = Pool::new_threads(512, 1000);
    let thread = Thread::new();
    let mut pool = Sim::new(&plan, &thread, 3);
    let result = pool.scoped(|scoped| {
        for _ in 0..3000 {
            let (counter, t) = (counter.clone(), thread.clone());
            scoped.execute(move || {
                counter.set(counter.get() + 1);
                t.sleep_ms(1000, || {});
            })?;
        }
        Ok(())
    });
    assert_eq!(result, Ok(()));
    assert_eq!(counter.get(), 3000);
    assert!(pool.longest_queue <= 1001);
    assert!(pool.queue_between <= 1000);
}

#[test]
fn state_maker_panic() {
    for seed in DRAWS {
        let plan = Pool::new_threads_unbounded(2);
        let thread = Thread::new();
        let mut pool = Sim::new(&plan, &thread, seed);
        pool.maker_dies = true;
        let panic = pool.scoped(|scoped| scoped.with_state(|| ()));
        assert_eq!(panic, Err("worker thread panicked"));
    }
}

/// The state that a job finds is what the jobs before it have left on the same worker.
#[test]
fn state_is_kept_between_jobs() {
    for seed in DRAWS {
        let plan = Pool::new_threads_unbounded(1);
        let thread = Thread::new();
        let mut pool = Sim::new(&plan, &thread, seed);
        let seen = Rc::new(RefCell::new(Vec::new()));
        let result = pool.scoped(|scoped| {
            scoped.with_state(|| 7usize)?;
            for _ in 0..3 {
                let seen = seen.clone();
                scoped.execute_with(move |n: &mut usize| {
                    seen.borrow_mut().push(*n);
                    *n += 1;
                })?;
            }
            Ok(())
        });
        assert_eq!(result, Ok(()));
        assert_eq!(*seen.borrow(), vec![7, 8, 9]);
    }
}

/// The example of the pool's documentation.
#[test]
fn costly_setup() {
    for seed in DRAWS {
        let plan = Pool::new().unwrap();
        let thread = Thread::new();
        let mut pool = Sim::new(&plan, &thread, seed);
        let vec: Vec<Cell<usize>> = vec![Cell::new(0); 8];
        let vec: Vec<Rc<Cell<usize>>> = vec.into_iter().map(Rc::new).collect();
        let result = pool.scoped(|scoped| {
            scoped.with_state(|| "costly setup function".len())?;
            for e in vec.iter() {
                let e = e.clone();
                scoped.execute_with(move |state: &mut usize| {
                    e.set(e.get() + *state);
                    assert_eq!(e.get(), 21);
                })?;
            }
            Ok(())
        });
        assert_eq!(result, Ok(()));
        assert!(vec.iter().all(|e| e.get() == 21));
    }
}

/// One worker starts the jobs in the order of their submission.
#[test]
fn jobs_start_in_order() {
    for seed in DRAWS {
        let plan = Pool::new_threads(1, 3);
        let thread = Thread::new();
        let seen = Rc::new(RefCell::new(Vec::new()));
        let mut pool = Sim::new(&plan, &thread, seed);
        let result = pool.scoped(|scoped| {
            for n in 0..20 {
                let seen = seen.clone();
                scoped.execute(move || seen.borrow_mut().push(n))?;
            }
            Ok(())
        });
        assert_eq!(result, Ok(()));
        assert_eq!(*seen.borrow(), (0..20).collect::<Vec<i32>>());
        assert!(pool.longest_queue <= 4);
        assert!(pool.queue_between <= 3);
    }
}

/// With a backlog of nothing a submission waits until a worker has taken the job.
#[test]
fn empty_backlog() {
    for seed in DRAWS {
        let plan = Pool::new_threads(2, 0);
        let thread = Thread::new();
        let count = Rc::new(Cell::new(0));
        let mut pool = Sim::new(&plan, &thread, seed);
        let result = pool.scoped(|scoped| {
            for _ in 0..10 {
                let count = count.clone();
                scoped.execute(move || count.set(count.get() + 1))?;
            }
            Ok(())
        });
        assert_eq!(result, Ok(()));
        assert_eq!(count.get(), 10);
        assert_eq!((pool.longest_queue, pool.queue_between), (1, 0));
    }
}

/// A second state replaces the first on every worker; jobs of the first scope have ended.
#[test]
fn state_is_replaced() {
    for seed in DRAWS {
        let plan = Pool::new_threads(3, 2);
        let thread = Thread::new();
        let seen = Rc::new(RefCell::new(Vec::new()));
        let mut pool = Sim::new(&plan, &thread, seed);
        for word in ["one", "two"] {
            let result = pool.scoped(|scoped| {
                scoped.with_state(move || word)?;
                for _ in 0..5 {
                    let seen = seen.clone();
                    scoped.execute_with(move |w: &mut &'static str| seen.borrow_mut().push(*w))?;
                }
                Ok(())
            });
            assert_eq!(result, Ok(()));
        }
        let expected = vec!["one", "one", "one", "one", "one", "two", "two", "two", "two", "two"];
        assert_eq!(*seen.borrow(), expected);
    }
}

/// Once a worker has died, every further call fails, and the message says so.
#[test]
fn dead_worker_fails_every_call() {
    for seed in DRAWS {
        let plan = Pool::new_threads_unbounded(2);
        let thread = Thread::new();
        let mut pool = Sim::new(&plan, &thread, seed);
        let t = thread.clone();
        let first = pool.scoped(|scoped| scoped.execute(move || t.die()));
        assert_eq!(first, Err("worker thread panicked"));
        assert_eq!(pool.scoped(|_| Ok(())), Err("worker thread panicked"));
        assert_eq!(pool.scoped(|s| s.with_state(|| 1u8)), Err("worker thread panicked"));
        assert_eq!(pool.scoped(|s| s.execute(|| {})), Err("worker thread panicked"));
    }
}

/// A submission that waits for the backlog fails as soon as a worker dies.
#[test]
fn waiting_submission_learns_of_a_panic() {
    for seed in DRAWS {
        let plan = Pool::new_threads(1, 0);
        let thread = Thread::new();
        let ran = Rc::new(Cell::new(0));
        let mut pool = Sim::new(&plan, &thread, seed);
        let result = pool.scoped(|s| {
            let t = thread.clone();
            s.execute(move || {
                let u = t.clone();
                t.sleep_ms(1000, move || u.die())
            })?;
            for _ in 0..2 {
                let ran = ran.clone();
                s.execute(move || ran.set(ran.get() + 1))?;
            }
            Ok(())
        });
        assert_eq!(result, Err("worker thread panicked"));
        assert_eq!((ran.get(), pool.now), (0, 1000));
        // the job that was queued is left
        assert_eq!(pool.drop_pool(), Err("pond::Pool: one or more worker thread panicked"));
    }
}

/// With the backlog used up, a submission blocks until a worker is done with a job.
#[test]
fn used_up_backlog_blocks() {
    for seed in DRAWS {
        let plan = Pool::new_threads(1, 1);
        let thread = Thread::new();
        let done = Rc::new(Cell::new(false));
        let mut pool = Sim::new(&plan, &thread, seed);
        let result = pool.scoped(|s| {
            s.with_state(|| 0)?;
            let (t, d) = (thread.clone(), done.clone());
            s.execute_with(move |_: &mut i32| t.sleep_ms(1000, move || d.set(true)))?;
            s.pause();
            s.execute_with(|_: &mut i32| {})?;
            assert!(!done.get());
            s.execute_with(|_: &mut i32| {})?;
            assert!(done.get());
            Ok(())
        });
        assert_eq!(result, Ok(()));
        assert_eq!(pool.queue_between, 1);
    }
}

/// The states of all workers together account for each job once.
#[test]
fn states_account_for_each_job() {
    struct Tally(u64, Rc<Cell<u64>>);
    impl Drop for Tally {
        fn drop(&mut self) {
            self.1.set(self.1.get() + self.0);
        }
    }
    for seed in DRAWS {
        for (threads, jobs) in [(1, 0), (1, 5), (4, 0), (4, 3), (4, 100)] {
            let total = Rc::new(Cell::new(0));
            {
                let plan = Pool::new_threads(threads, 2);
                let thread = Thread::new();
                let mut pool = Sim::new(&plan, &thread, seed);
                let result = pool.scoped(|s| {
                    let total = total.clone();
                    s.with_state(move || Tally(0, total.clone()))?;
                    for _ in 0..jobs {
                        s.execute_with(|t: &mut Tally| t.0 += 1)?;
                    }
                    Ok(())
                });
                assert_eq!(result, Ok(()));
                assert_eq!(total.get(), 0);
                assert_eq!(pool.drop_pool(), Ok(()));
            }
            assert_eq!(total.get(), jobs);
        }
    }
}

/// As many jobs run at once as there are workers.
#[test]
fn jobs_run_in_parallel() {
    for seed in DRAWS {
        let plan = Pool::new_threads_unbounded(5);
        let thread = Thread::new();
        let mut pool = Sim::new(&plan, &thread, seed);
        let result = pool.scoped(|s| {
            s.pause();
            for _ in 0..7 {
                let t = thread.clone();
                s.execute(move || t.sleep_ms(1000, || {}))?;
            }
            s.pause();
            assert_eq!(s.those(|d| matches!(d, Doing::Busy(..))).len(), 5);
            assert_eq!(s.messaging.job_queue.len(), 2);
            Ok(())
        });
        assert_eq!(result, Ok(()));
        assert_eq!(pool.now, 2000);
    }
}

/// A scope panics if a job has panicked since the pool was made, and only then.
#[test]
fn scope_panics_only_over_a_panic() {
    for seed in 0..40 {
        let plan = Pool::new_threads(3, 2);
        let thread = Thread::new();
        let mut pool = Sim::new(&plan, &thread, seed);
        let died = Rc::new(Cell::new(false));
        for _ in 0..4 {
            let result = pool.scoped(|s| {
                for _ in 0..6 {
                    let (t, d) = (thread.clone(), died.clone());
                    let dies = s.draw(30) == 0;
                    let ms = s.draw(3) as u64;
                    s.execute(move || {
                        let u = t.clone();
                        t.sleep_ms(ms, move || {
                            if dies {
                                d.set(true);
                                u.die();
                            }
                        })
                    })?;
                }
                Ok(())
            });
            assert_eq!(result.is_err(), died.get());
        }
    }
}

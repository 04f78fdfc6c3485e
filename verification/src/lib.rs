//! The decisions of a scoped thread pool.
//!
//! A pool's threads and the thread that uses them share one [`Messaging`] behind a
//! lock. A function of this crate that takes it is what one of them does while it holds
//! that lock: it changes the shared value and says what to do next (sleep, let go of the
//! lock, run a job, panic). The threads, the lock and the two condition variables, one
//! for the workers and one for the caller, belong to the program around this crate.
//!
//! [`system`] puts the pieces together: it says what a pool of any number of workers
//! can do under any schedule. [`consistency`] proves what holds at every moment,
//! [`laws`] what the pool promises, [`progress`] that what its caller waits for comes
//! closer with the moves of the workers, and [`liveness`] that every call comes to its end
//! where the threads are scheduled fairly and every job and state maker does.
pub mod consistency;
pub mod laws;
pub mod liveness;
pub mod messaging;
pub mod pool;
pub mod progress;
pub mod scope;
pub mod state;
pub mod system;
pub mod task;
pub mod worker;

pub use messaging::{Failure, Flag, Messaging, MessagingView};
pub use pool::{Closing, Outcome, Pool, Settlement, Stage, Step};
pub use scope::{Scope, ScopeWithState, Submission};
pub use state::{Call, Calls, Retired, StateMaker, Worker};
pub use task::Task;
pub use worker::{Action, Turn, Turned};

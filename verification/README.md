# pond

A scoped thread pool whose decisions are verified.

A scoped thread pool runs jobs in the scope of the function that submits them. This one
can also keep a state in each thread, made by a function that every thread runs once, and
can limit how many jobs are pending.

- `src/` is the library: what the pool's caller and its workers do with the value that
  they share, each function with its contract (`messaging`, `worker`, `pool`, `scope`,
  `task`); the whole pool under any schedule (`system`, `consistency`); and what it
  promises (`laws`, `progress`, `liveness`).
- `app/` has the threads, the lock and the condition variables.
- `tests/` runs the functions on given values (`decisions`) and whole pools on simulated
  threads (`pool`).

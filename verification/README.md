# mirokio

A small work-stealing async runtime. The scheduling and timer logic is a
Verus-verified library; the threads, the clock, futures and wakers live in
the program around it.

- `src/timer.rs`: the timer queue, a binary min-heap of deadlines and
  wakers, with the driver pass that takes out everything due, in deadline
  order, for the driver thread to wake.
- `src/sleep.rs`: the sleep future's state machine: ready once the clock
  reaches the deadline, registering with the timer on its first pending poll.
- `src/executor/`: where a worker looks for work (its own queue, the global
  queue, then its peers), where a woken task is queued again, and the
  declarations of the `crossbeam` deques the scheduler runs on.
- `src/spawn.rs`, `src/runtime.rs`: queueing a new task; the runtime's
  worker count and worker queues.
- `app/`: worker threads, the timer driver thread (which wakes the wakers), the monotonic clock, the
  `Future` and `Wake` impls, and tracing set-up.

Times are nanoseconds on the runtime's monotonic clock.

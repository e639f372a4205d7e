use vstd::prelude::*;
use crossbeam::deque::{Stealer, Worker};
use crate::executor::deque::{new_lifo_worker, stealer_of, CallRecord, QueueCall};

verus! {

/// A runtime: a fixed number of worker threads that run spawned tasks.
#[allow(non_camel_case_types)]
pub struct mirokio {
    workers: usize,
}

impl mirokio {
    /// The number of worker threads.
    pub closed spec fn workers_spec(&self) -> nat {
        self.workers as nat
    }

    /// A runtime of `cap` worker threads; a runtime needs at least one.
    pub fn new(cap: usize) -> (r: Self)
        requires
            cap >= 1,
        ensures
            r.workers_spec() == cap,
    {
        mirokio { workers: cap }
    }

    /// The number of worker threads the runtime runs.
    pub fn worker_count(&self) -> (n: usize)
        ensures
            n == self.workers_spec(),
    {
        self.workers
    }
}

/// The queues of `cap` workers: for each, a LIFO local queue, and the
/// stealer that its peers take tasks from it through, at the same index;
/// the record shows each stealer made from the worker queue at its index.
pub fn build_worker_queues<T>(cap: usize) -> (r: (Vec<Worker<T>>, Vec<Stealer<T>>, Ghost<Seq<CallRecord<T>>>))
    ensures
        r.0@.len() == cap,
        r.1@.len() == cap,
        r.2@.len() == cap,
        forall|i: int| 0 <= i < cap ==> #[trigger] r.2@[i].call() == QueueCall::StealerOf(r.0@[i], r.1@[i]),
{
    let mut workers: Vec<Worker<T>> = Vec::with_capacity(cap);
    let mut stealers: Vec<Stealer<T>> = Vec::new();
    let ghost mut made: Seq<CallRecord<T>> = Seq::empty();
    let mut i: usize = 0;
    while i < cap
        invariant
            i <= cap,
            workers@.len() == i,
            stealers@.len() == i,
            made.len() == i,
            forall|k: int| 0 <= k < i ==> #[trigger] made[k].call() == QueueCall::StealerOf(workers@[k], stealers@[k]),
        decreases cap - i,
    {
        let worker: Worker<T> = new_lifo_worker();
        let (stealer, rec) = stealer_of(&worker);
        proof { made = made.push(rec); }
        stealers.push(stealer);
        workers.push(worker);
        i = i + 1;
    }
    (workers, stealers, Ghost(made))
}

} // verus!

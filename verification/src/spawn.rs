use vstd::prelude::*;
use std::sync::Arc;
use crossbeam::deque::{Injector, Worker};
use crate::executor::deque::{push_global, push_local, CallRecord, QueueCall};
use crate::executor::task::TaskQueue;

verus! {

/// The queue a task spawned now belongs to: the local queue of the worker
/// thread that spawns it (`current`), if any, else the global queue.
pub fn spawn_queue<T>(current: Option<&Worker<T>>, global: &Arc<Injector<T>>) -> (q: TaskQueue<T>)
    ensures
        current is Some ==> q is Worker,
        current is None ==> q == TaskQueue::Global(*global),
{
    match current {
        Some(_) => TaskQueue::Worker,
        None => TaskQueue::Global(global.clone()),
    }
}

/// Queues a newly spawned task: onto `current`, the local queue of the
/// worker thread that spawns it, if any, else onto the global queue.
/// Returns the queue the task belongs to from now on, with the record of
/// the push made: `task` onto `current`, or onto `global`.
pub fn spawn<T>(task: T, current: Option<&Worker<T>>, global: &Arc<Injector<T>>) -> (r: (TaskQueue<T>, CallRecord<T>))
    ensures
        current is Some ==> r.0 is Worker && r.1.call() == QueueCall::PushLocal(*current->0, task),
        current is None ==> r.0 == TaskQueue::Global(*global) && r.1.call() == QueueCall::PushGlobal(**global, task),
{
    let queue = spawn_queue(current, global);
    let rec = match current {
        Some(worker) => push_local(worker, task),
        None => push_global(global, task),
    };
    (queue, rec)
}

} // verus!

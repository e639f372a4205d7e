use vstd::prelude::*;
use std::sync::Arc;
use crossbeam::deque::{Injector, Worker};
use crate::executor::deque::{push_global, push_local, CallRecord, QueueCall};

verus! {

/// The queue a task was spawned onto, and so the one it goes back to when
/// woken.
#[verifier::reject_recursive_types(T)]
pub enum TaskQueue<T> {
    /// The local queue of the worker thread that spawned it.
    Worker,
    /// The global queue.
    Global(Arc<Injector<T>>),
}

/// Where a woken task is put.
#[derive(PartialEq, Eq, Structural, Debug, Clone, Copy)]
pub enum Placement {
    /// The current worker's local queue.
    LocalQueue,
    /// The global queue.
    GlobalQueue,
    /// Nowhere: the task is not queued again.
    Dropped,
}

/// Where a task with queue `queue` is put when it is woken on a thread that
/// is a worker (`on_worker`) or not: a task of the global queue goes back to
/// it; a task of a worker's queue goes to the current worker's queue, and is
/// dropped when woken off the workers; a task with no queue yet is dropped.
pub open spec fn placement_spec<T>(queue: Option<TaskQueue<T>>, on_worker: bool) -> Placement {
    match queue {
        None => Placement::Dropped,
        Some(TaskQueue::Global(_)) => Placement::GlobalQueue,
        Some(TaskQueue::Worker) => if on_worker {
            Placement::LocalQueue
        } else {
            Placement::Dropped
        },
    }
}

/// Where a woken task goes; see [`placement_spec`].
pub fn placement<T>(queue: &Option<TaskQueue<T>>, on_worker: bool) -> (p: Placement)
    ensures
        p == placement_spec(*queue, on_worker),
{
    match queue {
        None => Placement::Dropped,
        Some(TaskQueue::Global(_)) => Placement::GlobalQueue,
        Some(TaskQueue::Worker) => if on_worker {
            Placement::LocalQueue
        } else {
            Placement::Dropped
        },
    }
}

/// The push that queueing `task` again makes, for a task with queue
/// `queue` woken on a thread whose worker queue is `current`: onto the
/// task's global queue, onto the current worker's queue, or none.
pub open spec fn schedule_push<T>(task: T, queue: Option<TaskQueue<T>>, current: Option<Worker<T>>) -> Option<QueueCall<T>> {
    match placement_spec(queue, current is Some) {
        Placement::GlobalQueue => match queue {
            Some(TaskQueue::Global(g)) => Some(QueueCall::PushGlobal(*g, task)),
            _ => None,
        },
        Placement::LocalQueue => Some(QueueCall::PushLocal(current->0, task)),
        Placement::Dropped => None,
    }
}

/// The worker queue behind an optional reference to one.
pub open spec fn current_queue<T>(current: Option<&Worker<T>>) -> Option<Worker<T>> {
    match current {
        Some(w) => Some(*w),
        None => None,
    }
}

/// Queues a woken task again: onto the queue that [`placement`] names, where
/// `current` is the local queue of the worker thread doing the waking, if
/// any. Returns where it went, with the record of the push made: `task`
/// onto the task's global queue, or onto `current`, or no push at all.
pub fn schedule<T>(task: T, queue: &Option<TaskQueue<T>>, current: Option<&Worker<T>>) -> (r: (Placement, Option<CallRecord<T>>))
    ensures
        r.0 == placement_spec(*queue, current is Some),
        match r.1 {
            Some(rec) => schedule_push(task, *queue, current_queue(current)) == Some(rec.call()),
            None => schedule_push(task, *queue, current_queue(current)) is None,
        },
{
    let p = placement(queue, current.is_some());
    let pushed = match (p, queue, current) {
        (Placement::GlobalQueue, Some(TaskQueue::Global(global)), _) => Some(push_global(global, task)),
        (Placement::LocalQueue, _, Some(worker)) => Some(push_local(worker, task)),
        _ => None,
    };
    (p, pushed)
}

/// A task spawned off the workers (on the global queue) goes back to the
/// global queue whenever it is woken, on any thread; a task spawned on a
/// worker goes back to the waking worker's queue, and is dropped when woken
/// off the workers; a task with no queue yet is dropped.
pub proof fn law_woken_task_returns_to_its_queue<T>(task: T, g: Arc<Injector<T>>, current: Option<Worker<T>>)
    ensures
        placement_spec(Some(TaskQueue::Global(g)), current is Some) == Placement::GlobalQueue,
        schedule_push(task, Some(TaskQueue::Global(g)), current) == Some(QueueCall::PushGlobal(*g, task)),
        placement_spec(Some(TaskQueue::<T>::Worker), current is Some) == if current is Some {
            Placement::LocalQueue
        } else {
            Placement::Dropped
        },
        schedule_push(task, Some(TaskQueue::Worker), current) == match current {
            Some(w) => Some(QueueCall::PushLocal(w, task)),
            None => None,
        },
        schedule_push(task, None, current) is None,
{
}

} // verus!

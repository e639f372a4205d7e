use std::sync::Arc;

use crossbeam::deque::{Injector, Worker};
use mirokio::executor::task::{placement, schedule, Placement, TaskQueue};

struct OurTask {
    _id: u32,
}

fn our_task() -> Arc<OurTask> {
    Arc::new(OurTask { _id: 0 })
}

#[test]
fn test_task_schedule_global_pushes_to_injector() {
    let global = Arc::new(Injector::<Arc<OurTask>>::new());

    let task = our_task();
    let queue = Some(TaskQueue::Global(global.clone()));

    schedule(task.clone(), &queue, None);

    let worker: Worker<Arc<OurTask>> = Worker::new_lifo();
    assert!(
        global.steal_batch_and_pop(&worker).success().is_some(),
        "schedule() did not push to global injector"
    );
}

#[test]
fn test_task_schedule_worker_pushes_to_local_queue() {
    let worker = Arc::new(Worker::new_lifo());
    let task = our_task();

    let queue = Some(TaskQueue::Worker);
    schedule(task.clone(), &queue, Some(&*worker));

    let popped = worker.clone().pop();

    assert!(
        Arc::ptr_eq(&popped.unwrap(), &task),
        "a task was pushed but it wasn't the task we scheduled"
    );
}

#[test]
fn test_task_schedule_worker_outside_worker_thread_is_noop() {
    let task = our_task();
    let queue: Option<TaskQueue<Arc<OurTask>>> = Some(TaskQueue::Worker);
    let placed = schedule(task.clone(), &queue, None).0;
    assert_eq!(placed, Placement::Dropped);
    assert_eq!(Arc::strong_count(&task), 1);
}

#[test]
fn schedule_without_queue_drops_the_task() {
    let worker = Worker::new_lifo();
    let task = our_task();
    let queue: Option<TaskQueue<Arc<OurTask>>> = None;
    assert_eq!(schedule(task.clone(), &queue, Some(&worker)).0, Placement::Dropped);
    assert!(worker.pop().is_none());
}

#[test]
fn global_task_woken_on_worker_goes_to_global_queue() {
    let global = Arc::new(Injector::<Arc<OurTask>>::new());
    let worker = Worker::new_lifo();
    let task = our_task();
    let queue = Some(TaskQueue::Global(global.clone()));
    assert_eq!(schedule(task.clone(), &queue, Some(&worker)).0, Placement::GlobalQueue);
    assert!(worker.pop().is_none());
    let dest = Worker::new_lifo();
    let got = global.steal_batch_and_pop(&dest).success().unwrap();
    assert!(Arc::ptr_eq(&got, &task));
}

#[test]
fn placement_table() {
    let global = Arc::new(Injector::<u8>::new());
    assert_eq!(placement(&Some(TaskQueue::Global(global.clone())), false), Placement::GlobalQueue);
    assert_eq!(placement(&Some(TaskQueue::Global(global)), true), Placement::GlobalQueue);
    assert_eq!(placement::<u8>(&Some(TaskQueue::Worker), true), Placement::LocalQueue);
    assert_eq!(placement::<u8>(&Some(TaskQueue::Worker), false), Placement::Dropped);
    assert_eq!(placement::<u8>(&None, true), Placement::Dropped);
}

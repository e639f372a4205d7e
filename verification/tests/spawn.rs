use std::sync::Arc;

use crossbeam::deque::{Injector, Worker};
use mirokio::executor::task::TaskQueue;
use mirokio::spawn::spawn;

struct OurTask {
    _id: u32,
}

fn our_task() -> Arc<OurTask> {
    Arc::new(OurTask { _id: 0 })
}

#[test]
fn test_spawn_on_main_thread_goes_to_global_queue() {
    let global = Arc::new(Injector::new());

    let (queue, _) = spawn(our_task(), None, &global);

    let worker = Worker::new_lifo();

    assert!(
        global.steal_batch_and_pop(&worker).success().is_some(),
        "spawning on a non-worker thread should enqueue onto the global injector"
    );
    assert!(matches!(queue, TaskQueue::Global(g) if Arc::ptr_eq(&g, &global)));
}

#[test]
fn test_spawn_on_worker_thread_goes_to_local_queue() {
    let worker = Arc::new(Worker::new_lifo());
    let global = Arc::new(Injector::new());

    let (queue, _) = spawn(our_task(), Some(&*worker), &global);

    let queued = worker.pop();

    assert!(
        queued.is_some(),
        "spawning from a worker thread should enqueue onto that worker's local queue"
    );
    assert!(matches!(queue, TaskQueue::Worker));
    let dest = Worker::new_lifo();
    assert!(global.steal_batch_and_pop(&dest).success().is_none());
}

#[test]
fn spawn_queue_is_chosen_before_any_push() {
    let worker = Worker::<Arc<OurTask>>::new_lifo();
    let global = Arc::new(Injector::new());
    assert!(matches!(mirokio::spawn::spawn_queue(Some(&worker), &global), TaskQueue::Worker));
    assert!(matches!(mirokio::spawn::spawn_queue(None, &global), TaskQueue::Global(g) if Arc::ptr_eq(&g, &global)));
    assert!(worker.pop().is_none());
    assert!(global.steal_batch_and_pop(&worker).success().is_none());
}

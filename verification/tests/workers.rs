use std::sync::Arc;

use crossbeam::deque::{Injector, Stealer, Worker};
use mirokio::executor::workers::{find_task, next_source, probe_step, ProbeStep, Source, WorkerHandle};

/// A stand-in for a spawned task: the scheduler only moves handles around.
struct OurTask {
    _id: u32,
}

fn our_task() -> Arc<OurTask> {
    Arc::new(OurTask { _id: 0 })
}

#[test]
fn test_find_task_returns_none_when_all_queues_empty() {
    let local: Worker<Arc<OurTask>> = Worker::new_lifo();
    let global = Injector::new();
    let stealers: Vec<Stealer<Arc<OurTask>>> = vec![];

    let result = find_task(&local, &global, &stealers).0;

    assert!(result.is_none())
}

#[test]
fn test_find_task_prefers_local_over_global() {
    let local: Worker<Arc<OurTask>> = Worker::new_lifo();
    let global = Injector::new();
    let stealers: Vec<Stealer<Arc<OurTask>>> = vec![];

    let local_task = our_task();
    let global_task = our_task();

    local.push(local_task.clone());
    global.push(global_task.clone());

    let result = find_task(&local, &global, &stealers).0.unwrap();

    assert!(
        Arc::ptr_eq(&local_task, &result),
        "should have picked the local task"
    )
}

#[test]
fn test_find_worker_steals_from_peer_when_local_empty() {
    let local: Worker<Arc<OurTask>> = Worker::new_lifo();
    let global = Injector::new();

    let peer: Worker<Arc<OurTask>> = Worker::new_lifo();
    let stealers: Vec<Stealer<Arc<OurTask>>> = vec![peer.stealer()];

    let task = our_task();

    peer.push(task.clone());

    let result = find_task(&local, &global, &stealers).0.unwrap();

    assert!(Arc::ptr_eq(&task, &result), "should have stolen from peer")
}

#[test]
fn test_find_task_falls_back_to_global_when_local_empty() {
    let local: Worker<Arc<OurTask>> = Worker::new_lifo();
    let global = Injector::new();
    let stealers: Vec<Stealer<Arc<OurTask>>> = vec![];

    let global_task = our_task();

    global.push(global_task.clone());

    let result = find_task(&local, &global, &stealers).0.unwrap();

    assert!(Arc::ptr_eq(&global_task, &result))
}

#[test]
fn test_worker_loop_processes_tasks_in_lifo_order() {
    let local: Worker<Arc<OurTask>> = Worker::new_lifo();
    let global = Injector::new();
    let stealers = vec![];

    let first = our_task();
    let second = our_task();

    local.push(first.clone());
    local.push(second.clone()); // pushed last, should come out first

    let result = find_task(&local, &global, &stealers).0.unwrap();
    assert!(
        Arc::ptr_eq(&result, &second),
        "LIFO: second pushed should be first out"
    );

    let result = find_task(&local, &global, &stealers).0.unwrap();
    assert!(Arc::ptr_eq(&result, &first));
}

#[test]
fn find_task_prefers_global_over_peers() {
    let local: Worker<Arc<OurTask>> = Worker::new_lifo();
    let global = Injector::new();
    let peer: Worker<Arc<OurTask>> = Worker::new_lifo();
    let stealers = vec![peer.stealer()];
    let global_task = our_task();
    let peer_task = our_task();
    global.push(global_task.clone());
    peer.push(peer_task.clone());
    let result = find_task(&local, &global, &stealers).0.unwrap();
    assert!(Arc::ptr_eq(&result, &global_task));
    let result = find_task(&local, &global, &stealers).0.unwrap();
    assert!(Arc::ptr_eq(&result, &peer_task));
    assert!(find_task(&local, &global, &stealers).0.is_none());
}

#[test]
fn find_task_tries_peers_in_order_past_empty_ones() {
    let local: Worker<Arc<OurTask>> = Worker::new_lifo();
    let global = Injector::new();
    let empty_peer: Worker<Arc<OurTask>> = Worker::new_lifo();
    let busy_peer: Worker<Arc<OurTask>> = Worker::new_lifo();
    let stealers = vec![empty_peer.stealer(), busy_peer.stealer()];
    let task = our_task();
    busy_peer.push(task.clone());
    let result = find_task(&local, &global, &stealers).0.unwrap();
    assert!(Arc::ptr_eq(&result, &task));
}

#[test]
fn find_task_sees_own_handle_queue() {
    let handle = WorkerHandle { queue: Arc::new(Worker::new_lifo()) };
    let other = handle.clone();
    let global = Injector::new();
    let stealers: Vec<Stealer<Arc<OurTask>>> = vec![];
    let task = our_task();
    other.queue.push(task.clone());
    let result = find_task(&handle.queue, &global, &stealers).0.unwrap();
    assert!(Arc::ptr_eq(&result, &task));
}

#[test]
fn probe_order_is_local_global_then_peers() {
    assert_eq!(next_source(Source::Local, 2), Some(Source::Global));
    assert_eq!(next_source(Source::Global, 2), Some(Source::Peer(0)));
    assert_eq!(next_source(Source::Peer(0), 2), Some(Source::Peer(1)));
    assert_eq!(next_source(Source::Peer(1), 2), None);
    assert_eq!(next_source(Source::Global, 0), None);
}

#[test]
fn probe_step_runs_a_found_task_and_moves_on_otherwise() {
    assert!(matches!(probe_step(Some(7u8), Source::Global, 1), ProbeStep::Found(7)));
    assert!(matches!(probe_step(None::<u8>, Source::Local, 0), ProbeStep::Next(Source::Global)));
    assert!(matches!(probe_step(None::<u8>, Source::Global, 1), ProbeStep::Next(Source::Peer(0))));
    assert!(matches!(probe_step(None::<u8>, Source::Global, 0), ProbeStep::Exhausted));
    assert!(matches!(probe_step(None::<u8>, Source::Peer(1), 2), ProbeStep::Exhausted));
}

use vstd::prelude::*;
use crossbeam::deque::{Injector, Steal, Stealer, Worker};

verus! {

#[verifier::external_type_specification]
#[verifier::external_body]
#[verifier::reject_recursive_types(T)]
pub struct ExWorker<T>(Worker<T>);

#[verifier::external_type_specification]
#[verifier::external_body]
#[verifier::reject_recursive_types(T)]
pub struct ExStealer<T>(Stealer<T>);

#[verifier::external_type_specification]
#[verifier::external_body]
#[verifier::reject_recursive_types(T)]
pub struct ExInjector<T>(Injector<T>);

/// The outcome of one steal attempt, as a value the library can read.
pub enum StealOutcome<T> {
    /// The queue was empty.
    Empty,
    /// A task was taken.
    Success(T),
    /// The attempt lost a race and may be repeated.
    Retry,
}

/// The task a steal attempt took, if it succeeded.
pub open spec fn stolen<T>(o: StealOutcome<T>) -> Option<T> {
    match o {
        StealOutcome::Success(t) => Some(t),
        _ => None,
    }
}

impl<T> StealOutcome<T> {
    /// The stolen task, if the attempt succeeded.
    pub fn success(self) -> (r: Option<T>)
        ensures
            r == stolen(self),
    {
        match self {
            StealOutcome::Success(t) => Some(t),
            _ => None,
        }
    }
}

/// A call made on a queue: which queue, what was handed to it, and what it
/// gave back.
#[verifier::reject_recursive_types(T)]
pub enum QueueCall<T> {
    /// `Worker::stealer` on this worker, which gave this stealer.
    StealerOf(Worker<T>, Stealer<T>),
    /// `Worker::push`: the worker queue, and the task pushed.
    PushLocal(Worker<T>, T),
    /// `Worker::pop`: the worker queue, and what the pop gave.
    PopLocal(Worker<T>, Option<T>),
    /// `Injector::push`: the global queue, and the task pushed.
    PushGlobal(Injector<T>, T),
    /// `Injector::steal_batch_and_pop`: the global queue, the worker queue
    /// the batch went to, and the outcome.
    StealBatchAndPop(Injector<T>, Worker<T>, StealOutcome<T>),
    /// `Stealer::steal`: the stealer, and the outcome.
    Steal(Stealer<T>, StealOutcome<T>),
}

/// The record of a queue call that was made. Only the queue wrappers of
/// this module make one, so holding a record shows that its call happened.
#[verifier::reject_recursive_types(T)]
pub struct CallRecord<T> {
    call: Ghost<QueueCall<T>>,
}

impl<T> CallRecord<T> {
    /// The call this records.
    pub closed spec fn call(self) -> QueueCall<T> {
        self.call@
    }
}

/// `Worker::new_lifo`: a new local queue whose owner pops the task pushed
/// last. Its contents are shared with stealers on other threads, so nothing
/// is stated of them.
#[verifier::external_body]
pub(crate) fn new_lifo_worker<T>() -> Worker<T> {
    Worker::new_lifo()
}

/// `Worker::stealer`: a handle through which other threads take tasks from
/// `w`'s queue. The record names `w` and the stealer; nothing more is
/// stated of the stealer.
#[verifier::external_body]
pub(crate) fn stealer_of<T>(w: &Worker<T>) -> (r: (Stealer<T>, CallRecord<T>))
    ensures
        r.1.call() == QueueCall::StealerOf(*w, r.0),
{
    let s = w.stealer();
    let rec = CallRecord { call: Ghost(QueueCall::StealerOf(*w, s)) };
    (s, rec)
}

/// `Worker::push`: puts `task` into `w`'s queue. The record names `w` and
/// `task`; the queue is shared with other threads, so its effect is not
/// stated.
#[verifier::external_body]
pub(crate) fn push_local<T>(w: &Worker<T>, task: T) -> (rec: CallRecord<T>)
    ensures
        rec.call() == QueueCall::PushLocal(*w, task),
{
    let rec = CallRecord { call: Ghost(QueueCall::PushLocal(*w, task)) };
    w.push(task);
    rec
}

/// `Worker::pop`: takes a task from the owner's end of `w`'s queue, or
/// `None` when it is empty. The record names `w` and what the pop gave;
/// what it finds depends on other threads' steals, so nothing more is
/// stated of it.
#[verifier::external_body]
pub(crate) fn pop_local<T>(w: &Worker<T>) -> (r: (Option<T>, CallRecord<T>))
    ensures
        r.1.call() == QueueCall::PopLocal(*w, r.0),
{
    let popped = w.pop();
    let rec = CallRecord { call: Ghost(QueueCall::PopLocal(*w, popped)) };
    (popped, rec)
}

/// `Injector::push`: puts `task` into the global queue `g`. The record
/// names `g` and `task`; the queue is shared with every thread, so its
/// effect is not stated.
#[verifier::external_body]
pub(crate) fn push_global<T>(g: &Injector<T>, task: T) -> (rec: CallRecord<T>)
    ensures
        rec.call() == QueueCall::PushGlobal(*g, task),
{
    let rec = CallRecord { call: Ghost(QueueCall::PushGlobal(*g, task)) };
    g.push(task);
    rec
}

/// `Injector::steal_batch_and_pop`: moves some tasks from `g` into `dest`
/// and takes one of them. The record names `g`, `dest` and the outcome;
/// what it finds depends on other threads, so nothing more is stated of it.
#[verifier::external_body]
pub(crate) fn steal_batch_and_pop<T>(g: &Injector<T>, dest: &Worker<T>) -> (r: (StealOutcome<T>, CallRecord<T>))
    ensures
        r.1.call() == QueueCall::StealBatchAndPop(*g, *dest, r.0),
{
    let outcome = match g.steal_batch_and_pop(dest) {
        Steal::Empty => StealOutcome::Empty,
        Steal::Success(t) => StealOutcome::Success(t),
        Steal::Retry => StealOutcome::Retry,
    };
    let rec = CallRecord { call: Ghost(QueueCall::StealBatchAndPop(*g, *dest, outcome)) };
    (outcome, rec)
}

/// `Stealer::steal`: takes a task from the other end of a peer's queue
/// through `s`. The record names `s` and the outcome; what it finds depends
/// on other threads, so nothing more is stated of it.
#[verifier::external_body]
pub(crate) fn steal_from<T>(s: &Stealer<T>) -> (r: (StealOutcome<T>, CallRecord<T>))
    ensures
        r.1.call() == QueueCall::Steal(*s, r.0),
{
    let outcome = match s.steal() {
        Steal::Empty => StealOutcome::Empty,
        Steal::Success(t) => StealOutcome::Success(t),
        Steal::Retry => StealOutcome::Retry,
    };
    let rec = CallRecord { call: Ghost(QueueCall::Steal(*s, outcome)) };
    (outcome, rec)
}

} // verus!

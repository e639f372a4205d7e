use vstd::prelude::*;
use std::sync::Arc;
use crossbeam::deque::{Injector, Stealer, Worker};
use crate::executor::deque::{pop_local, steal_batch_and_pop, steal_from, stolen, CallRecord, QueueCall};

verus! {

/// The queue a worker owns, as its thread knows it.
#[verifier::reject_recursive_types(T)]
#[derive(Clone)]
pub struct WorkerHandle<T> {
    pub queue: Arc<Worker<T>>,
}

/// A place a worker looks for its next task.
#[derive(PartialEq, Eq, Structural, Debug, Clone, Copy)]
pub enum Source {
    /// The worker's own queue.
    Local,
    /// The global queue that tasks spawned outside the workers go to.
    Global,
    /// The queue of the peer with this index.
    Peer(usize),
}

/// The order in which a worker looks for work when it has `peers` peers:
/// its own queue, then the global queue, then each peer in turn.
pub open spec fn probe_order(peers: nat) -> Seq<Source> {
    seq![Source::Local, Source::Global] + Seq::new(peers, |i: int| Source::Peer(i as usize))
}

/// The position of `s` in the probe order.
pub open spec fn probe_index(s: Source) -> int {
    match s {
        Source::Local => 0,
        Source::Global => 1,
        Source::Peer(i) => 2 + i,
    }
}

/// The place to look after `current` came up empty, or `None` when every
/// place has been tried.
pub fn next_source(current: Source, peers: usize) -> (next: Option<Source>)
    requires
        0 <= probe_index(current) < probe_order(peers as nat).len(),
    ensures
        probe_order(peers as nat)[probe_index(current)] == current,
        next is None <==> probe_index(current) + 1 == probe_order(peers as nat).len(),
        next matches Some(n) ==> n == probe_order(peers as nat)[probe_index(current) + 1]
            && probe_index(n) == probe_index(current) + 1,
{
    match current {
        Source::Local => Some(Source::Global),
        Source::Global => if peers > 0 {
            Some(Source::Peer(0))
        } else {
            None
        },
        Source::Peer(i) => if i + 1 < peers {
            Some(Source::Peer(i + 1))
        } else {
            None
        },
    }
}

/// What a worker does after looking in one place.
pub enum ProbeStep<T> {
    /// A task to run.
    Found(T),
    /// Nothing here; the place to look next.
    Next(Source),
    /// It came up empty in the last place: there is no task.
    Exhausted,
}

/// What follows a look at `current` that gave `found`: a task found is the
/// result; otherwise the worker moves on in the probe order, and gives up
/// after the last place.
pub fn probe_step<T>(found: Option<T>, current: Source, peers: usize) -> (step: ProbeStep<T>)
    requires
        0 <= probe_index(current) < probe_order(peers as nat).len(),
    ensures
        found matches Some(t) ==> step == ProbeStep::Found(t),
        found is None && probe_index(current) + 1 < probe_order(peers as nat).len() ==> step
            == ProbeStep::<T>::Next(probe_order(peers as nat)[probe_index(current) + 1]),
        found is None && probe_index(current) + 1 == probe_order(peers as nat).len() ==> step
            == ProbeStep::<T>::Exhausted,
        step matches ProbeStep::Next(n) ==> probe_index(n) == probe_index(current) + 1,
{
    match found {
        Some(t) => ProbeStep::Found(t),
        None => match next_source(current, peers) {
            Some(next) => ProbeStep::Next(next),
            None => ProbeStep::Exhausted,
        },
    }
}

/// Whether `c` is the call a worker makes at position `k` of the probe
/// order: a pop of its own queue, a batch steal from the global queue into
/// its own queue, then a steal through each peer's stealer in turn.
pub open spec fn is_probe_call<T>(k: int, c: QueueCall<T>, local: Worker<T>, global: Injector<T>, stealers: Seq<Stealer<T>>) -> bool {
    if k == 0 {
        c matches QueueCall::PopLocal(w, _) && w == local
    } else if k == 1 {
        c matches QueueCall::StealBatchAndPop(g, w, _) && g == global && w == local
    } else {
        c matches QueueCall::Steal(s, _) && s == stealers[k - 2]
    }
}

/// The task that a probe call gave, if any.
pub open spec fn found_by<T>(c: QueueCall<T>) -> Option<T> {
    match c {
        QueueCall::PopLocal(_, popped) => popped,
        QueueCall::StealBatchAndPop(_, _, outcome) => stolen(outcome),
        QueueCall::Steal(_, outcome) => stolen(outcome),
        _ => None,
    }
}

/// The records of a search: the calls made are the probe order's calls in
/// order; every call but the last gave nothing; and the search stopped at
/// the first task or after the last place.
pub open spec fn is_search<T>(
    trace: Seq<CallRecord<T>>,
    local: Worker<T>,
    global: Injector<T>,
    stealers: Seq<Stealer<T>>,
) -> bool {
    &&& 1 <= trace.len() <= stealers.len() + 2
    &&& forall|k: int| 0 <= k < trace.len() ==> is_probe_call(k, #[trigger] trace[k].call(), local, global, stealers)
    &&& forall|k: int| 0 <= k < trace.len() - 1 ==> found_by(#[trigger] trace[k].call()) is None
    &&& found_by(trace.last().call()) is None ==> trace.len() == stealers.len() + 2
}

/// Looks for a task to run: pops the worker's own queue; failing that,
/// takes a batch from the global queue and one task of it; failing that,
/// steals from each peer in turn. `None` when every place came up empty.
/// Returns the task with the records of the queue calls made: the result is
/// what the last call gave.
pub fn find_task<T>(local: &Worker<T>, global: &Injector<T>, stealers: &[Stealer<T>]) -> (r: (Option<T>, Ghost<Seq<CallRecord<T>>>))
    ensures
        is_search(r.1@, *local, *global, stealers@),
        r.0 == found_by(r.1@.last().call()),
{
    let peers = stealers.len();
    let mut source = Source::Local;
    let ghost mut trace: Seq<CallRecord<T>> = Seq::empty();
    loop
        invariant
            peers == stealers@.len(),
            0 <= probe_index(source) < probe_order(peers as nat).len(),
            source matches Source::Peer(i) ==> i < peers,
            trace.len() == probe_index(source),
            forall|k: int| 0 <= k < trace.len() ==> is_probe_call(k, #[trigger] trace[k].call(), *local, *global, stealers@),
            forall|k: int| 0 <= k < trace.len() ==> found_by(#[trigger] trace[k].call()) is None,
        decreases probe_order(peers as nat).len() - probe_index(source),
    {
        let (found, rec) = match source {
            Source::Local => pop_local(local),
            Source::Global => {
                let (outcome, rec) = steal_batch_and_pop(global, local);
                (outcome.success(), rec)
            },
            Source::Peer(i) => {
                let (outcome, rec) = steal_from(&stealers[i]);
                (outcome.success(), rec)
            },
        };
        proof {
            assert(is_probe_call(trace.len() as int, rec.call(), *local, *global, stealers@));
            assert(found == found_by(rec.call()));
            trace = trace.push(rec);
        }
        match probe_step(found, source, peers) {
            ProbeStep::Found(task) => return (Some(task), Ghost(trace)),
            ProbeStep::Next(next) => source = next,
            ProbeStep::Exhausted => return (None, Ghost(trace)),
        }
    }
}

/// A worker tries its own queue first, the global queue second, and then
/// every peer once, in index order: the probe order lists each place
/// exactly once.
pub proof fn law_probe_order_visits_each_place_once(peers: nat)
    requires
        peers <= usize::MAX,
    ensures
        probe_order(peers).len() == peers + 2,
        probe_order(peers)[0] == Source::Local,
        probe_order(peers)[1] == Source::Global,
        forall|i: int| 0 <= i < peers ==> #[trigger] probe_order(peers)[2 + i] == Source::Peer(i as usize),
        forall|k: int| 0 <= k < probe_order(peers).len() ==> probe_index(#[trigger] probe_order(peers)[k]) == k,
{
    assert forall|k: int| 0 <= k < probe_order(peers).len() implies probe_index(#[trigger] probe_order(peers)[k]) == k by {
        if k >= 2 {
            assert(probe_order(peers)[k] == Source::Peer((k - 2) as usize));
        }
    }
}

} // verus!

use vstd::prelude::*;
use std::task::Waker;
use vstd::multiset::Multiset;
use crate::timer::{not_due, Timer, TimerEntry};

verus! {

/// A future that completes once its deadline is reached. Times are
/// nanoseconds on the runtime's monotonic clock.
pub struct Sleep {
    pub when: u64,
    pub registered: bool,
}

/// What one poll of a [`Sleep`] gives: the outcome of `Future::poll`.
#[derive(PartialEq, Eq, Structural, Debug)]
pub enum SleepPoll {
    Ready,
    Pending,
}

/// Whether a sleep with deadline `when` is over at time `now`: once the
/// clock has reached the deadline, the same reading at which the timer
/// driver takes its entry out as due.
pub open spec fn is_over(when: u64, now: u64) -> bool {
    now >= when
}

/// What a poll at `now` returns.
pub open spec fn poll_result(s: Sleep, now: u64) -> SleepPoll {
    if is_over(s.when, now) {
        SleepPoll::Ready
    } else {
        SleepPoll::Pending
    }
}

/// Whether a poll at `now` registers the sleep with the timer: the first
/// poll that finds the deadline not yet passed, and no other.
pub open spec fn poll_registers(s: Sleep, now: u64) -> bool {
    !is_over(s.when, now) && !s.registered
}

/// The sleep after a poll at `now`.
pub open spec fn poll_next(s: Sleep, now: u64) -> Sleep {
    Sleep { when: s.when, registered: s.registered || !is_over(s.when, now) }
}

impl Sleep {
    /// A sleep that lasts `duration` nanoseconds from `now`.
    pub fn new(now: u64, duration: u64) -> (s: Self)
        requires
            now + duration <= u64::MAX,
        ensures
            s.when == now + duration,
            !s.registered,
    {
        Sleep { when: now + duration, registered: false }
    }

    /// Polls the sleep at time `now`. Once the deadline is reached it is
    /// ready; before that, the first poll registers `waker` with `timer`, if
    /// a timer runs, and every poll is pending.
    pub fn poll(&mut self, now: u64, timer: Option<&mut Timer>, waker: Waker) -> (r: SleepPoll)
        ensures
            r == poll_result(*old(self), now),
            *final(self) == poll_next(*old(self), now),
            final(self).when == old(self).when,
            now < old(self).when ==> r == SleepPoll::Pending && final(self).registered,
            now >= old(self).when ==> r == SleepPoll::Ready && final(self).registered == old(self).registered,
            timer is Some ==> final(timer->0).entries() == if poll_registers(*old(self), now) {
                old(timer->0).entries().insert(TimerEntry { when: old(self).when, waker })
            } else {
                old(timer->0).entries()
            },
    {
        if now >= self.when {
            return SleepPoll::Ready;
        }
        if !self.registered {
            match timer {
                Some(t) => t.register(self.when, waker),
                None => {},
            }
            self.registered = true;
        }
        SleepPoll::Pending
    }
}

/// A sleep of `duration` nanoseconds from `now`.
pub fn sleep(now: u64, duration: u64) -> (s: Sleep)
    requires
        now + duration <= u64::MAX,
    ensures
        s.when == now + duration,
        !s.registered,
{
    Sleep::new(now, duration)
}

/// A sleep registers with the timer at most once: after any poll, a poll
/// at a later time on the monotonic clock never registers again.
pub proof fn law_sleep_registers_once(s: Sleep, first: u64, later: u64)
    requires
        first <= later,
    ensures
        !poll_registers(poll_next(s, first), later),
        poll_registers(s, first) ==> poll_next(s, first).registered,
{
}

/// Once ready, always ready: a poll at a later time on a monotonic clock
/// also completes.
pub proof fn law_sleep_ready_stays_ready(s: Sleep, first: u64, later: u64)
    requires
        poll_result(s, first) == SleepPoll::Ready,
        first <= later,
    ensures
        poll_result(poll_next(s, first), later) == SleepPoll::Ready,
{
}

/// A sleep of `duration` from `now` is pending at every time before its
/// deadline, and ready from the deadline on.
pub proof fn law_sleep_ends_after_duration(now: u64, duration: u64, at: u64)
    requires
        now + duration <= u64::MAX,
    ensures
        poll_result(Sleep { when: (now + duration) as u64, registered: false }, at) == if at >= now + duration {
            SleepPoll::Ready
        } else {
            SleepPoll::Pending
        },
{
}

/// A sleep that registered with the timer is woken by the first driver pass
/// at or after its deadline, and a poll at or after that pass finds it
/// ready.
pub proof fn law_registered_sleep_is_woken_then_ready(
    s: Sleep,
    m: Multiset<TimerEntry>,
    waker: Waker,
    registered_at: u64,
    fired_at: u64,
    polled_at: u64,
)
    requires
        poll_registers(s, registered_at),
        s.when <= fired_at <= polled_at,
    ensures
        not_due(m.insert(TimerEntry { when: s.when, waker }), fired_at).count(
            TimerEntry { when: s.when, waker },
        ) == 0,
        poll_result(poll_next(s, registered_at), polled_at) == SleepPoll::Ready,
{
    broadcast use vstd::multiset::group_multiset_axioms;
}

/// A poll never moves the deadline: however many polls came before, a
/// poll before the deadline is pending and a poll from the deadline on is
/// ready, registered or not.
pub proof fn law_poll_keeps_deadline(s: Sleep, first: u64, later: u64)
    ensures
        poll_next(s, first).when == s.when,
        later < s.when ==> poll_result(poll_next(s, first), later) == SleepPoll::Pending,
        later >= s.when ==> poll_result(poll_next(s, first), later) == SleepPoll::Ready,
        later < s.when ==> poll_result(Sleep { when: s.when, registered: true }, later) == SleepPoll::Pending,
{
}

} // verus!

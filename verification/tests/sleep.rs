use std::sync::atomic::{AtomicUsize, Ordering};
use std::sync::Arc;
use std::task::{Wake, Waker};
use std::time::Duration;

use mirokio::sleep::{sleep, Sleep, SleepPoll};
use mirokio::timer::Timer;

#[derive(Default)]
struct CountingWake {
    wakes: AtomicUsize,
}

impl Wake for CountingWake {
    fn wake(self: Arc<Self>) {
        self.wakes.fetch_add(1, Ordering::SeqCst);
    }

    fn wake_by_ref(self: &Arc<Self>) {
        self.wakes.fetch_add(1, Ordering::SeqCst);
    }
}

fn counting_waker() -> (Waker, Arc<CountingWake>) {
    let counter = Arc::new(CountingWake::default());
    (Waker::from(counter.clone()), counter)
}

/// One pass of the timer driver: wakes what is due, earliest first.
fn fire_due(timer: &mut Timer, now: u64) -> usize {
    let due = timer.take_due(now);
    let n = due.len();
    for entry in due {
        entry.waker.wake();
    }
    n
}

fn nanos(d: Duration) -> u64 {
    d.as_nanos() as u64
}

/// A fixed reading of the monotonic clock, in nanoseconds.
const NOW: u64 = 1_000_000_000_000;

#[test]
fn test_sleep_returns_ready_if_deadline_already_passed() {
    let mut timer = Timer::new();
    let (waker, _) = counting_waker();
    let mut sleep = Sleep {
        when: NOW - nanos(Duration::from_millis(1)),
        registered: false,
    };

    assert!(matches!(sleep.poll(NOW, Some(&mut timer), waker), SleepPoll::Ready));
}

#[test]
fn test_sleep_returns_pending_on_first_poll() {
    let mut timer = Timer::new();

    let (waker, _) = counting_waker();
    let mut sleep = Sleep::new(NOW, nanos(Duration::from_secs(1)));

    assert!(matches!(
        sleep.poll(NOW, Some(&mut timer), waker),
        SleepPoll::Pending
    ));
}

#[test]
fn test_sleep_registers_waker_only_once() {
    let mut timer = Timer::new();

    let (waker, _) = counting_waker();
    let mut sleep = Sleep::new(NOW, nanos(Duration::from_secs(60)));

    assert!(matches!(
        sleep.poll(NOW, Some(&mut timer), waker.clone()),
        SleepPoll::Pending
    ));
    assert_eq!(timer.len(), 1);

    assert!(matches!(
        sleep.poll(NOW, Some(&mut timer), waker),
        SleepPoll::Pending
    ));
    assert_eq!(
        timer.len(),
        1,
        "sleep should only register its waker once"
    );
}

#[test]
fn test_sleep_resolves_after_duration() {
    let mut timer = Timer::new();

    let (waker, counter) = counting_waker();
    let mut sleep = Sleep::new(NOW, nanos(Duration::from_millis(10)));

    assert!(matches!(
        sleep.poll(NOW, Some(&mut timer), waker.clone()),
        SleepPoll::Pending
    ));

    let later = NOW + nanos(Duration::from_millis(11));
    fire_due(&mut timer, later);

    assert!(
        counter.wakes.load(Ordering::SeqCst) > 0,
        "sleep should arrange to wake its waker after the deadline"
    );
    assert!(matches!(sleep.poll(later, Some(&mut timer), waker), SleepPoll::Ready));
}

#[test]
fn test_sleep_zero_duration_resolves_immediately() {
    let now = NOW;
    let (waker, _) = counting_waker();
    let mut sleep = Sleep::new(now, nanos(Duration::ZERO));
    let now = now + nanos(Duration::from_nanos(1));

    assert!(matches!(sleep.poll(now, None, waker), SleepPoll::Ready));
}

#[test]
fn sleep_sets_deadline_from_duration() {
    let s = sleep(NOW, 250);
    assert_eq!(s.when, NOW + 250);
    assert!(!s.registered);
}

#[test]
fn sleep_is_pending_before_its_deadline_and_ready_from_it() {
    let (waker, _) = counting_waker();
    let mut s = Sleep::new(100, 50);
    assert_eq!(s.poll(149, None, waker.clone()), SleepPoll::Pending);
    assert!(s.registered);
    assert_eq!(s.poll(150, None, waker.clone()), SleepPoll::Ready);
    assert_eq!(s.poll(10_000, None, waker), SleepPoll::Ready);
}

#[test]
fn sleep_without_timer_still_marks_registered_once() {
    let mut timer = Timer::new();
    let (waker, _) = counting_waker();
    let mut s = Sleep::new(0, 1_000);
    assert_eq!(s.poll(1, None, waker.clone()), SleepPoll::Pending);
    assert!(s.registered);
    assert_eq!(s.poll(2, Some(&mut timer), waker), SleepPoll::Pending);
    assert_eq!(timer.len(), 0);
}

#[test]
fn ready_sleep_does_not_register() {
    let mut timer = Timer::new();
    let (waker, _) = counting_waker();
    let mut s = Sleep::new(0, 5);
    assert_eq!(s.poll(6, Some(&mut timer), waker), SleepPoll::Ready);
    assert!(!s.registered);
    assert_eq!(timer.len(), 0);
}

#[test]
fn sleep_woken_at_its_deadline_is_ready_at_that_reading() {
    let mut timer = Timer::new();
    let (waker, counter) = counting_waker();
    let mut s = Sleep::new(NOW, 10);
    assert_eq!(s.poll(NOW, Some(&mut timer), waker.clone()), SleepPoll::Pending);
    assert_eq!(fire_due(&mut timer, NOW + 10), 1);
    assert_eq!(counter.wakes.load(Ordering::SeqCst), 1);
    assert_eq!(timer.len(), 0);
    assert_eq!(s.poll(NOW + 10, Some(&mut timer), waker), SleepPoll::Ready);
}

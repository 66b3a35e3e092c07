use std::sync::atomic::{AtomicBool, Ordering};
use std::sync::{Arc, Mutex};
use std::task::{Wake, Waker};

use events::auto::{AutoResetEvent, EmbeddedAutoResetEvent, EventInner};
use events::waiters::{Poll, Waiter};

/// A waker that wakes no one.
fn noop() -> Waker {
    Waker::noop().clone()
}

/// Wakes whoever is to be woken.
fn wake(waker: Option<Waker>) {
    if let Some(waker) = waker {
        waker.wake();
    }
}

/// A waker that remembers that it was woken, and does something when it is.
struct Tracker {
    woken: AtomicBool,
    action: Box<dyn Fn() + Send + Sync>,
}

impl Tracker {
    fn new(action: impl Fn() + Send + Sync + 'static) -> Arc<Self> {
        Arc::new(Tracker { woken: AtomicBool::new(false), action: Box::new(action) })
    }

    fn was_woken(&self) -> bool {
        self.woken.load(Ordering::SeqCst)
    }
}

impl Wake for Tracker {
    fn wake(self: Arc<Self>) {
        self.woken.store(true, Ordering::SeqCst);
        (self.action)();
    }
}

#[test]
fn auto_starts_unset() {
    let mut event = AutoResetEvent::boxed();
    assert!(!event.try_wait());
}

#[test]
fn auto_set_then_try_wait() {
    let mut event = AutoResetEvent::boxed();
    wake(event.set());
    assert!(event.try_wait());
    // Signal consumed.
    assert!(!event.try_wait());
}

#[test]
fn auto_clone_shares_state() {
    let a = Arc::new(Mutex::new(AutoResetEvent::boxed()));
    let b = Arc::clone(&a);
    wake(a.lock().unwrap().set());
    assert!(b.lock().unwrap().try_wait());
}

#[test]
fn auto_double_set_without_waiter_only_stores_one_signal() {
    let mut event = AutoResetEvent::boxed();
    wake(event.set());
    wake(event.set());
    assert!(event.try_wait());
    // The second set changed nothing.
    assert!(!event.try_wait());
}

#[test]
fn auto_wait_completes_when_already_set() {
    let mut event = AutoResetEvent::boxed();
    wake(event.set());
    let mut future = event.wait();
    assert_eq!(future.poll(&mut event, noop()), Poll::Ready(()));
    wake(future.drop_wait(&mut event));
    assert!(!event.try_wait());
}

#[test]
fn auto_wait_completes_after_set() {
    let mut event = AutoResetEvent::boxed();
    let mut future = event.wait();
    assert_eq!(future.poll(&mut event, noop()), Poll::Pending);
    wake(event.set());
    assert_eq!(future.poll(&mut event, noop()), Poll::Ready(()));
}

#[test]
fn auto_only_one_waiter_released_per_set() {
    let mut event = AutoResetEvent::boxed();
    let mut futures = [event.wait(), event.wait(), event.wait()];
    for f in &mut futures {
        assert_eq!(f.poll(&mut event, noop()), Poll::Pending);
    }

    // Signal once: exactly one waiter completes.
    wake(event.set());
    let mut ready_count = 0_u32;
    for f in &mut futures {
        if f.poll(&mut event, noop()) == Poll::Ready(()) {
            ready_count += 1;
        }
    }
    assert_eq!(ready_count, 1);

    // Signal twice more to release the remaining two.
    wake(event.set());
    wake(event.set());
    for f in &mut futures {
        if f.poll(&mut event, noop()) == Poll::Ready(()) {
            ready_count += 1;
        }
    }
    assert_eq!(ready_count, 3);
}

#[test]
fn auto_cancelled_waiter_forwards_notification() {
    let mut event = AutoResetEvent::boxed();
    let mut future = event.wait();
    assert_eq!(future.poll(&mut event, noop()), Poll::Pending);

    // Dropped without completing: the waiter was never released.
    wake(future.drop_wait(&mut event));

    wake(event.set());
    let mut future2 = event.wait();
    assert_eq!(future2.poll(&mut event, noop()), Poll::Ready(()));
}

#[test]
fn auto_drop_unpolled_future_is_safe() {
    let mut event = AutoResetEvent::boxed();
    let future = event.wait();
    wake(future.drop_wait(&mut event));
    wake(event.set());
    let mut future = event.wait();
    assert_eq!(future.poll(&mut event, noop()), Poll::Ready(()));
}

#[test]
fn auto_poll_wait_post_mutex_take_notification_branch() {
    let mut event = EventInner::new();
    let mut waiter = Waiter::new();
    assert_eq!(event.poll_wait(&mut waiter, noop()), Poll::Pending);

    // The second poll finds no release.
    assert!(!event.take_notification(&mut waiter));
    // Before it has the lock, the event is set.
    wake(event.set());
    event.lock();
    assert!(event.take_notification(&mut waiter));
    event.unlock();
}

#[test]
fn poll_wait_post_mutex_try_wait_branch() {
    let mut event = EventInner::new();
    let mut waiter = Waiter::new();
    assert!(!event.take_notification(&mut waiter));
    assert!(!event.try_wait());
    event.lock();
    assert!(!event.take_notification(&mut waiter));
    // While the poll holds the lock, a set stores a signal without it.
    assert!(event.set_if_idle());
    assert!(event.try_wait());
    event.unlock();
    // The signal was consumed.
    assert!(!event.try_wait());
}

#[test]
fn poll_wait_post_fetch_or_try_wait_branch() {
    let mut event = EventInner::new();
    let mut waiter = Waiter::new();
    event.lock();
    assert!(!event.take_notification(&mut waiter));
    assert!(!event.try_wait());
    // A set stores a signal just before the waiter is announced.
    assert!(event.set_if_idle());
    event.announce();
    // A set after it would have to take the lock.
    assert!(!event.set_if_idle());
    assert!(event.recheck());
    event.withdraw();
    event.unlock();
    assert!(!event.try_wait());
    // The flag of waiters was taken back.
    assert!(event.set_if_idle());
}

#[test]
fn auto_embedded_set_and_wait() {
    let mut container = EmbeddedAutoResetEvent::new();
    let mut event = AutoResetEvent::embedded(&mut container);
    wake(event.set());
    let mut future = event.wait();
    assert_eq!(future.poll(&mut event, noop()), Poll::Ready(()));
}

#[test]
fn auto_embedded_clone_shares_state() {
    let mut container = EmbeddedAutoResetEvent::new();
    let mut a = AutoResetEvent::embedded(&mut container);
    wake(a.set());
    let mut b = AutoResetEvent::embedded(&mut container);
    assert!(b.try_wait());
}

#[test]
fn auto_embedded_signal_consumed() {
    let mut container = EmbeddedAutoResetEvent::new();
    let mut event = AutoResetEvent::embedded(&mut container);
    wake(event.set());
    assert!(event.try_wait());
    // Signal consumed.
    assert!(!event.try_wait());
}

#[test]
fn auto_embedded_drop_future_while_waiting() {
    let mut container = EmbeddedAutoResetEvent::new();
    let mut event = AutoResetEvent::embedded(&mut container);
    let future = event.wait();
    wake(future.drop_wait(&mut event));
    wake(event.set());
    let mut future = event.wait();
    assert_eq!(future.poll(&mut event, noop()), Poll::Ready(()));
}

#[test]
fn auto_notified_then_dropped_re_sets_event() {
    let mut event = AutoResetEvent::boxed();
    let mut future = event.wait();
    assert_eq!(future.poll(&mut event, noop()), Poll::Pending);
    wake(event.set());

    // No other waiters exist, so the signal goes back to the event.
    wake(future.drop_wait(&mut event));
    assert!(event.try_wait());
}

#[test]
fn notified_then_dropped_while_set_preserves_signal() {
    let mut event = AutoResetEvent::boxed();
    let mut future = event.wait();
    assert_eq!(future.poll(&mut event, noop()), Poll::Pending);
    wake(event.set());
    // No waiters remain: the second signal is stored.
    wake(event.set());
    wake(future.drop_wait(&mut event));
    assert!(event.try_wait());
}

#[test]
fn auto_notified_then_dropped_forwards_to_next() {
    let mut event = AutoResetEvent::boxed();
    let mut future1 = event.wait();
    let mut future2 = event.wait();
    assert_eq!(future1.poll(&mut event, noop()), Poll::Pending);
    assert_eq!(future2.poll(&mut event, noop()), Poll::Pending);

    // The first future is released, and dropped before it is polled again.
    wake(event.set());
    wake(future1.drop_wait(&mut event));
    assert_eq!(future2.poll(&mut event, noop()), Poll::Ready(()));
}

#[test]
fn auto_set_wakes_registered_waiter() {
    let mut event = AutoResetEvent::boxed();
    let tracker = Tracker::new(|| {});
    let mut future = event.wait();
    assert_eq!(future.poll(&mut event, Waker::from(Arc::clone(&tracker))), Poll::Pending);
    wake(event.set());
    assert!(tracker.was_woken());
}

#[test]
fn auto_embedded_wait_registers_then_completes() {
    let mut container = EmbeddedAutoResetEvent::new();
    let mut event = AutoResetEvent::embedded(&mut container);
    let mut future = event.wait();
    assert_eq!(future.poll(&mut event, noop()), Poll::Pending);
    wake(event.set());
    assert_eq!(future.poll(&mut event, noop()), Poll::Ready(()));
}

#[test]
fn auto_embedded_drop_registered_future() {
    let mut container = EmbeddedAutoResetEvent::new();
    let mut event = AutoResetEvent::embedded(&mut container);
    let mut future = event.wait();
    assert_eq!(future.poll(&mut event, noop()), Poll::Pending);
    wake(future.drop_wait(&mut event));
    wake(event.set());
    assert!(event.try_wait());
}

#[test]
fn auto_embedded_notified_then_dropped_re_sets_event() {
    let mut container = EmbeddedAutoResetEvent::new();
    let mut event = AutoResetEvent::embedded(&mut container);
    let mut future = event.wait();
    assert_eq!(future.poll(&mut event, noop()), Poll::Pending);
    wake(event.set());

    // No other waiters exist, so the signal goes back to the event.
    wake(future.drop_wait(&mut event));
    assert!(event.try_wait());
}

#[test]
fn auto_embedded_notified_then_dropped_forwards_to_next() {
    let mut container = EmbeddedAutoResetEvent::new();
    let mut event = AutoResetEvent::embedded(&mut container);
    let mut future1 = event.wait();
    let mut future2 = event.wait();
    assert_eq!(future1.poll(&mut event, noop()), Poll::Pending);
    assert_eq!(future2.poll(&mut event, noop()), Poll::Pending);

    // The first future is released, and dropped before it is polled again.
    wake(event.set());
    wake(future1.drop_wait(&mut event));
    assert_eq!(future2.poll(&mut event, noop()), Poll::Ready(()));
}

#[test]
fn auto_embedded_set_wakes_registered_waiter() {
    let mut container = EmbeddedAutoResetEvent::new();
    let mut event = AutoResetEvent::embedded(&mut container);
    let tracker = Tracker::new(|| {});
    let mut future = event.wait();
    assert_eq!(future.poll(&mut event, Waker::from(Arc::clone(&tracker))), Poll::Pending);
    wake(event.set());
    assert!(tracker.was_woken());
}

#[test]
fn auto_many_sets_release_all_waiters() {
    let mut event = AutoResetEvent::boxed();
    let mut futures = Vec::new();
    for _ in 0..100 {
        futures.push(event.wait());
    }
    for f in &mut futures {
        assert_eq!(f.poll(&mut event, noop()), Poll::Pending);
    }
    for _ in 0..100 {
        wake(event.set());
    }
    for f in &mut futures {
        assert_eq!(f.poll(&mut event, noop()), Poll::Ready(()));
    }
    // No leftover signal.
    assert!(!event.try_wait());
}

#[test]
fn auto_embedded_many_sets_release_all_waiters() {
    let mut container = EmbeddedAutoResetEvent::new();
    let mut event = AutoResetEvent::embedded(&mut container);
    let mut futures = Vec::new();
    for _ in 0..100 {
        futures.push(event.wait());
    }
    for f in &mut futures {
        assert_eq!(f.poll(&mut event, noop()), Poll::Pending);
    }
    for _ in 0..100 {
        wake(event.set());
    }
    for f in &mut futures {
        assert_eq!(f.poll(&mut event, noop()), Poll::Ready(()));
    }
    // No leftover signal.
    assert!(!event.try_wait());
}

#[test]
fn auto_many_sets_without_waiters_coalesce() {
    let mut event = AutoResetEvent::boxed();
    for _ in 0..100 {
        wake(event.set());
    }
    // Only one signal is latched.
    assert!(event.try_wait());
    assert!(!event.try_wait());
}

#[test]
fn set_with_reentrant_waker_does_not_deadlock() {
    let event = Arc::new(Mutex::new(AutoResetEvent::boxed()));
    let event_for_waker = Arc::clone(&event);
    let tracker = Tracker::new(move || {
        let waker = event_for_waker.lock().unwrap().set();
        wake(waker);
    });
    let mut future = event.lock().unwrap().wait();
    let polled = future.poll(&mut event.lock().unwrap(), Waker::from(Arc::clone(&tracker)));
    assert_eq!(polled, Poll::Pending);

    // The event is no longer borrowed when the waker sets it again.
    let waker = event.lock().unwrap().set();
    wake(waker);
    assert!(tracker.was_woken());
    // The re-entrant set stored a signal.
    assert!(event.lock().unwrap().try_wait());
}

#[test]
fn auto_embedded_default_creates_unset_event() {
    let mut container = EmbeddedAutoResetEvent::default();
    let mut event = AutoResetEvent::embedded(&mut container);
    assert!(!event.try_wait());
}

use std::sync::atomic::{AtomicBool, Ordering};
use std::sync::{Arc, Mutex};
use std::task::{Wake, Waker};

use events::manual::{EmbeddedManualResetEvent, EventInner, ManualResetEvent, ManualResetWaitFuture};
use events::waiters::{Poll, Waiter};

/// A waker that wakes no one.
fn noop() -> Waker {
    Waker::noop().clone()
}

/// Wakes everyone who is to be woken.
fn wake_all(wakers: Vec<Waker>) {
    for waker in wakers {
        waker.wake();
    }
}

/// Sets a shared event, which is free for the wakers to use while they run.
fn set(event: &Mutex<ManualResetEvent>) {
    if event.lock().unwrap().open() {
        loop {
            let next = event.lock().unwrap().release_next();
            match next {
                Some(waker) => waker.wake(),
                None => break,
            }
        }
    }
}

/// A waker that remembers that it was woken, and does something when it is.
struct Tracker {
    woken: AtomicBool,
    action: Box<dyn Fn() + Send + Sync>,
}

impl Tracker {
    fn new(action: impl Fn() + Send + Sync + 'static) -> Arc<Self> {
        Arc::new(Tracker { woken: AtomicBool::new(false), action: Box::new(action) })
    }

    fn was_woken(&self) -> bool {
        self.woken.load(Ordering::SeqCst)
    }
}

impl Wake for Tracker {
    fn wake(self: Arc<Self>) {
        self.woken.store(true, Ordering::SeqCst);
        (self.action)();
    }
}

#[test]
fn manual_starts_unset() {
    let event = ManualResetEvent::boxed();
    assert!(!event.try_wait());
    assert!(!event.try_wait());
}

#[test]
fn manual_set_makes_is_set_true() {
    let mut event = ManualResetEvent::boxed();
    wake_all(event.set());
    assert!(event.try_wait());
}

#[test]
fn manual_reset_after_set() {
    let mut event = ManualResetEvent::boxed();
    wake_all(event.set());
    event.reset();
    assert!(!event.try_wait());
}

#[test]
fn manual_clone_shares_state() {
    let a = Arc::new(Mutex::new(ManualResetEvent::boxed()));
    let b = Arc::clone(&a);
    wake_all(a.lock().unwrap().set());
    assert!(b.lock().unwrap().try_wait());
}

#[test]
fn manual_wait_completes_when_already_set() {
    let mut event = ManualResetEvent::boxed();
    wake_all(event.set());
    let mut future = event.wait();
    assert_eq!(future.poll(&mut event, noop()), Poll::Ready(()));
}

#[test]
fn manual_wait_completes_after_set() {
    let mut event = ManualResetEvent::boxed();
    let mut future = event.wait();
    assert_eq!(future.poll(&mut event, noop()), Poll::Pending);
    wake_all(event.set());
    assert_eq!(future.poll(&mut event, noop()), Poll::Ready(()));
}

#[test]
fn manual_multiple_waiters_all_released() {
    let mut event = ManualResetEvent::boxed();
    let mut f1 = event.wait();
    let mut f2 = event.wait();
    let mut f3 = event.wait();
    assert_eq!(f1.poll(&mut event, noop()), Poll::Pending);
    assert_eq!(f2.poll(&mut event, noop()), Poll::Pending);
    assert_eq!(f3.poll(&mut event, noop()), Poll::Pending);
    wake_all(event.set());
    assert_eq!(f1.poll(&mut event, noop()), Poll::Ready(()));
    assert_eq!(f2.poll(&mut event, noop()), Poll::Ready(()));
    assert_eq!(f3.poll(&mut event, noop()), Poll::Ready(()));
}

#[test]
fn manual_drop_future_while_waiting() {
    let mut event = ManualResetEvent::boxed();
    let future = event.wait();
    future.drop_wait(&mut event);
    wake_all(event.set());
    let mut future = event.wait();
    assert_eq!(future.poll(&mut event, noop()), Poll::Ready(()));
}

#[test]
fn manual_drop_polled_future_while_waiting() {
    let mut event = ManualResetEvent::boxed();
    let mut future = event.wait();
    assert_eq!(future.poll(&mut event, noop()), Poll::Pending);
    future.drop_wait(&mut event);
    wake_all(event.set());
    let mut future2 = event.wait();
    assert_eq!(future2.poll(&mut event, noop()), Poll::Ready(()));
}

#[test]
fn manual_set_wakes_registered_waiter() {
    let mut event = ManualResetEvent::boxed();
    let tracker = Tracker::new(|| {});
    let mut future = event.wait();
    assert_eq!(future.poll(&mut event, Waker::from(Arc::clone(&tracker))), Poll::Pending);
    wake_all(event.set());
    assert!(tracker.was_woken());
}

#[test]
fn manual_poll_wait_post_mutex_take_notification_branch() {
    let mut event = EventInner::new();
    let mut waiter = Waiter::new();
    assert_eq!(event.poll_wait(&mut waiter, noop()), Poll::Pending);

    // The second poll finds neither an open door nor a release.
    assert!(!event.try_wait());
    assert!(!event.take_notification(&mut waiter));
    // Before it has the lock, the event is set.
    wake_all(event.set());
    event.lock();
    assert!(event.take_notification(&mut waiter));
    event.unlock();
}

#[test]
fn poll_wait_post_mutex_load_branch() {
    let mut event = EventInner::new();
    let mut waiter = Waiter::new();
    assert!(!event.try_wait());
    assert!(!event.take_notification(&mut waiter));
    event.lock();
    assert!(!event.take_notification(&mut waiter));
    // While the poll holds the lock, the door is opened without it.
    assert!(!event.raise());
    assert!(event.try_wait());
    event.unlock();
    assert!(event.try_wait());
}

#[test]
fn poll_wait_post_fetch_or_load_branch() {
    let mut event = EventInner::new();
    let mut waiter = Waiter::new();
    event.lock();
    assert!(!event.take_notification(&mut waiter));
    assert!(!event.try_wait());
    // The door is opened just before the waiter is announced.
    assert!(!event.raise());
    event.announce();
    assert!(event.recheck());
    event.clear_if_last();
    event.unlock();
    assert!(event.try_wait());
}

#[test]
fn manual_embedded_set_and_wait() {
    let mut container = EmbeddedManualResetEvent::new();
    let mut event = ManualResetEvent::embedded(&mut container);
    wake_all(event.set());
    let mut future = event.wait();
    assert_eq!(future.poll(&mut event, noop()), Poll::Ready(()));
}

#[test]
fn manual_embedded_clone_shares_state() {
    let mut container = EmbeddedManualResetEvent::new();
    let mut a = ManualResetEvent::embedded(&mut container);
    wake_all(a.set());
    let mut b = ManualResetEvent::embedded(&mut container);
    assert!(b.try_wait());
    let mut future = b.wait();
    assert_eq!(future.poll(&mut b, noop()), Poll::Ready(()));
}

#[test]
fn manual_embedded_reset_after_set() {
    let mut container = EmbeddedManualResetEvent::new();
    let mut event = ManualResetEvent::embedded(&mut container);
    wake_all(event.set());
    event.reset();
    assert!(!event.try_wait());
}

#[test]
fn manual_embedded_drop_future_while_waiting() {
    let mut container = EmbeddedManualResetEvent::new();
    let mut event = ManualResetEvent::embedded(&mut container);
    let future = event.wait();
    future.drop_wait(&mut event);
    wake_all(event.set());
    let mut future = event.wait();
    assert_eq!(future.poll(&mut event, noop()), Poll::Ready(()));
}

#[test]
fn manual_embedded_wait_registers_then_completes() {
    let mut container = EmbeddedManualResetEvent::new();
    let mut event = ManualResetEvent::embedded(&mut container);
    let mut future = event.wait();
    assert_eq!(future.poll(&mut event, noop()), Poll::Pending);
    wake_all(event.set());
    assert_eq!(future.poll(&mut event, noop()), Poll::Ready(()));
}

#[test]
fn manual_embedded_drop_registered_future() {
    let mut container = EmbeddedManualResetEvent::new();
    let mut event = ManualResetEvent::embedded(&mut container);
    let mut future = event.wait();
    assert_eq!(future.poll(&mut event, noop()), Poll::Pending);
    future.drop_wait(&mut event);
    wake_all(event.set());
    let mut future2 = event.wait();
    assert_eq!(future2.poll(&mut event, noop()), Poll::Ready(()));
}

#[test]
fn manual_embedded_multiple_waiters_released() {
    let mut container = EmbeddedManualResetEvent::new();
    let mut event = ManualResetEvent::embedded(&mut container);
    let mut f1 = event.wait();
    let mut f2 = event.wait();
    let mut f3 = event.wait();
    assert_eq!(f1.poll(&mut event, noop()), Poll::Pending);
    assert_eq!(f2.poll(&mut event, noop()), Poll::Pending);
    assert_eq!(f3.poll(&mut event, noop()), Poll::Pending);
    wake_all(event.set());
    assert_eq!(f1.poll(&mut event, noop()), Poll::Ready(()));
    assert_eq!(f2.poll(&mut event, noop()), Poll::Ready(()));
    assert_eq!(f3.poll(&mut event, noop()), Poll::Ready(()));
}

#[test]
fn manual_try_wait_returns_true_when_set() {
    let mut event = ManualResetEvent::boxed();
    wake_all(event.set());
    assert!(event.try_wait());
}

#[test]
fn manual_embedded_try_wait_returns_false_when_unset() {
    let mut container = EmbeddedManualResetEvent::new();
    let event = ManualResetEvent::embedded(&mut container);
    assert!(!event.try_wait());
}

#[test]
fn manual_embedded_try_wait_returns_true_when_set() {
    let mut container = EmbeddedManualResetEvent::new();
    let mut event = ManualResetEvent::embedded(&mut container);
    wake_all(event.set());
    assert!(event.try_wait());
}

#[test]
fn manual_embedded_set_wakes_registered_waiter() {
    let mut container = EmbeddedManualResetEvent::new();
    let mut event = ManualResetEvent::embedded(&mut container);
    let tracker = Tracker::new(|| {});
    let mut future = event.wait();
    assert_eq!(future.poll(&mut event, Waker::from(Arc::clone(&tracker))), Poll::Pending);
    wake_all(event.set());
    assert!(tracker.was_woken());
}

#[test]
fn manual_drop_unlinks_registered_waiter_from_list() {
    let mut event = ManualResetEvent::boxed();
    let tracker1 = Tracker::new(|| {});
    let tracker2 = Tracker::new(|| {});
    let mut future1 = event.wait();
    assert_eq!(future1.poll(&mut event, Waker::from(Arc::clone(&tracker1))), Poll::Pending);
    let mut future2 = event.wait();
    assert_eq!(future2.poll(&mut event, Waker::from(Arc::clone(&tracker2))), Poll::Pending);
    future1.drop_wait(&mut event);
    wake_all(event.set());
    // Only the second future is woken.
    assert!(!tracker1.was_woken());
    assert!(tracker2.was_woken());
}

#[test]
fn manual_embedded_drop_unlinks_registered_waiter_from_list() {
    let mut container = EmbeddedManualResetEvent::new();
    let mut event = ManualResetEvent::embedded(&mut container);
    let tracker1 = Tracker::new(|| {});
    let tracker2 = Tracker::new(|| {});
    let mut future1 = event.wait();
    assert_eq!(future1.poll(&mut event, Waker::from(Arc::clone(&tracker1))), Poll::Pending);
    let mut future2 = event.wait();
    assert_eq!(future2.poll(&mut event, Waker::from(Arc::clone(&tracker2))), Poll::Pending);
    future1.drop_wait(&mut event);
    wake_all(event.set());
    // Only the second future is woken.
    assert!(!tracker1.was_woken());
    assert!(tracker2.was_woken());
}

#[test]
fn manual_set_when_already_set_is_noop() {
    let mut event = ManualResetEvent::boxed();
    wake_all(event.set());
    assert!(event.try_wait());
    assert_eq!(event.set().len(), 0);
    assert!(event.try_wait());
}

#[test]
fn manual_embedded_set_when_already_set_is_noop() {
    let mut container = EmbeddedManualResetEvent::new();
    let mut event = ManualResetEvent::embedded(&mut container);
    wake_all(event.set());
    assert!(event.try_wait());
    assert_eq!(event.set().len(), 0);
    assert!(event.try_wait());
}

#[test]
fn manual_reset_while_waiters_registered() {
    let mut event = ManualResetEvent::boxed();
    let mut future = event.wait();
    assert_eq!(future.poll(&mut event, noop()), Poll::Pending);
    event.reset();
    // The waiter is still pending.
    assert_eq!(future.poll(&mut event, noop()), Poll::Pending);
    wake_all(event.set());
    assert_eq!(future.poll(&mut event, noop()), Poll::Ready(()));
}

#[test]
fn manual_embedded_default_creates_unset_event() {
    let mut container = EmbeddedManualResetEvent::default();
    let event = ManualResetEvent::embedded(&mut container);
    assert!(!event.try_wait());
}

#[test]
fn manual_set_with_reentrant_waker_does_not_alias() {
    let event = Arc::new(Mutex::new(ManualResetEvent::boxed()));
    let event_for_waker = Arc::clone(&event);
    let tracker = Tracker::new(move || {
        // Reset the event and register a new waiter.
        event_for_waker.lock().unwrap().reset();
        let mut new_future = event_for_waker.lock().unwrap().wait();
        let polled = new_future.poll(&mut event_for_waker.lock().unwrap(), noop());
        assert_eq!(polled, Poll::Pending);
        new_future.drop_wait(&mut event_for_waker.lock().unwrap());
    });
    let mut future = event.lock().unwrap().wait();
    let polled = future.poll(&mut event.lock().unwrap(), Waker::from(Arc::clone(&tracker)));
    assert_eq!(polled, Poll::Pending);
    set(&event);
    assert!(tracker.was_woken());
}

#[test]
fn manual_reentrant_reset_does_not_skip_awaiters() {
    let event = Arc::new(Mutex::new(ManualResetEvent::boxed()));
    let event_for_waker = Arc::clone(&event);
    let tracker_a = Tracker::new(move || event_for_waker.lock().unwrap().reset());
    let mut future_a = event.lock().unwrap().wait();
    let polled = future_a.poll(&mut event.lock().unwrap(), Waker::from(Arc::clone(&tracker_a)));
    assert_eq!(polled, Poll::Pending);
    let mut future_b = event.lock().unwrap().wait();
    assert_eq!(future_b.poll(&mut event.lock().unwrap(), noop()), Poll::Pending);

    // Both are released, although the first waker resets the event.
    set(&event);
    assert!(tracker_a.was_woken());
    assert!(!event.lock().unwrap().try_wait());
    assert_eq!(future_b.poll(&mut event.lock().unwrap(), noop()), Poll::Ready(()));
}

#[test]
fn reentrant_drop_of_middle_sibling_does_not_skip_others() {
    let event = Arc::new(Mutex::new(ManualResetEvent::boxed()));
    let holder: Arc<Mutex<Option<ManualResetWaitFuture>>> = Arc::new(Mutex::new(None));
    let event_for_waker = Arc::clone(&event);
    let holder_for_waker = Arc::clone(&holder);
    let tracker_a = Tracker::new(move || {
        // Drop a sibling that is still waiting, and reset the event.
        let sibling = holder_for_waker.lock().unwrap().take();
        if let Some(sibling) = sibling {
            sibling.drop_wait(&mut event_for_waker.lock().unwrap());
        }
        event_for_waker.lock().unwrap().reset();
    });
    let mut future_a = event.lock().unwrap().wait();
    let polled = future_a.poll(&mut event.lock().unwrap(), Waker::from(Arc::clone(&tracker_a)));
    assert_eq!(polled, Poll::Pending);
    let mut future_b = event.lock().unwrap().wait();
    assert_eq!(future_b.poll(&mut event.lock().unwrap(), noop()), Poll::Pending);
    let mut future_c = event.lock().unwrap().wait();
    assert_eq!(future_c.poll(&mut event.lock().unwrap(), noop()), Poll::Pending);
    *holder.lock().unwrap() = Some(future_b);
    set(&event);
    assert!(tracker_a.was_woken());
    assert!(holder.lock().unwrap().is_none());
    // The other sibling was released, although the event was reset.
    assert_eq!(future_c.poll(&mut event.lock().unwrap(), noop()), Poll::Ready(()));
}

#[test]
fn manual_reentrant_drop_of_tail_sibling_does_not_skip_others() {
    let event = Arc::new(Mutex::new(ManualResetEvent::boxed()));
    let holder: Arc<Mutex<Option<ManualResetWaitFuture>>> = Arc::new(Mutex::new(None));
    let event_for_waker = Arc::clone(&event);
    let holder_for_waker = Arc::clone(&holder);
    let tracker_a = Tracker::new(move || {
        // Drop a sibling that is still waiting, and reset the event.
        let sibling = holder_for_waker.lock().unwrap().take();
        if let Some(sibling) = sibling {
            sibling.drop_wait(&mut event_for_waker.lock().unwrap());
        }
        event_for_waker.lock().unwrap().reset();
    });
    let mut future_a = event.lock().unwrap().wait();
    let polled = future_a.poll(&mut event.lock().unwrap(), Waker::from(Arc::clone(&tracker_a)));
    assert_eq!(polled, Poll::Pending);
    let mut future_b = event.lock().unwrap().wait();
    assert_eq!(future_b.poll(&mut event.lock().unwrap(), noop()), Poll::Pending);
    let mut future_c = event.lock().unwrap().wait();
    assert_eq!(future_c.poll(&mut event.lock().unwrap(), noop()), Poll::Pending);
    *holder.lock().unwrap() = Some(future_c);
    set(&event);
    assert!(tracker_a.was_woken());
    assert!(holder.lock().unwrap().is_none());
    // The other sibling was released, although the event was reset.
    assert_eq!(future_b.poll(&mut event.lock().unwrap(), noop()), Poll::Ready(()));
}

#[test]
fn manual_set_between_last_look_and_joining_releases_the_waiter() {
    let mut event = EventInner::new();
    let mut waiter = Waiter::new();
    event.lock();
    event.announce();
    assert!(!event.recheck());
    // The door is opened while the waiter is about to join: a release must be claimed for it.
    assert!(event.raise());
    event.join(&mut waiter, noop());
    event.unlock();
    event.lock();
    event.claim();
    assert!(event.notify_one().is_some());
    event.clear_if_last();
    event.unlock();
    event.reset();
    assert_eq!(event.poll_wait(&mut waiter, noop()), Poll::Ready(()));
}

#[test]
fn manual_released_waiter_stays_ready_after_reset() {
    let mut event = ManualResetEvent::boxed();
    let mut future = event.wait();
    assert_eq!(future.poll(&mut event, noop()), Poll::Pending);
    wake_all(event.set());
    event.reset();
    assert!(!event.try_wait());
    assert_eq!(future.poll(&mut event, noop()), Poll::Ready(()));
}

#[test]
fn manual_waiter_that_comes_after_a_reset_is_not_released() {
    let mut event = ManualResetEvent::boxed();
    let mut first = event.wait();
    assert_eq!(first.poll(&mut event, noop()), Poll::Pending);
    assert!(event.open());
    event.reset();
    let mut second = event.wait();
    assert_eq!(second.poll(&mut event, noop()), Poll::Pending);
    assert!(event.release_next().is_some());
    assert!(event.release_next().is_none());
    assert_eq!(first.poll(&mut event, noop()), Poll::Ready(()));
    assert_eq!(second.poll(&mut event, noop()), Poll::Pending);
}

use std::sync::atomic::{AtomicBool, Ordering};
use std::sync::{Arc, Mutex};
use std::task::{Wake, Waker};

use events::local_manual::{EmbeddedLocalManualResetEvent, LocalManualResetEvent, LocalManualResetWaitFuture};
use events::waiters::Poll;

/// A waker that wakes no one.
fn noop() -> Waker {
    Waker::noop().clone()
}

/// Wakes everyone who is to be woken.
fn wake_all(wakers: Vec<Waker>) {
    for waker in wakers {
        waker.wake();
    }
}

/// Sets a shared event, which is free for the wakers to use while they run.
fn set(event: &Mutex<LocalManualResetEvent>) {
    if event.lock().unwrap().open() {
        loop {
            let next = event.lock().unwrap().release_next();
            match next {
                Some(waker) => waker.wake(),
                None => break,
            }
        }
    }
}

/// Sets the event in a shared container, which is free for the wakers to use while they run.
fn embedded_set(container: &Mutex<EmbeddedLocalManualResetEvent>) {
    if LocalManualResetEvent::embedded(&mut container.lock().unwrap()).open() {
        loop {
            let next = LocalManualResetEvent::embedded(&mut container.lock().unwrap()).release_next();
            match next {
                Some(waker) => waker.wake(),
                None => break,
            }
        }
    }
}

/// A waker that remembers that it was woken, and does something when it is.
struct Tracker {
    woken: AtomicBool,
    action: Box<dyn Fn() + Send + Sync>,
}

impl Tracker {
    fn new(action: impl Fn() + Send + Sync + 'static) -> Arc<Self> {
        Arc::new(Tracker { woken: AtomicBool::new(false), action: Box::new(action) })
    }

    fn was_woken(&self) -> bool {
        self.woken.load(Ordering::SeqCst)
    }
}

impl Wake for Tracker {
    fn wake(self: Arc<Self>) {
        self.woken.store(true, Ordering::SeqCst);
        (self.action)();
    }
}

#[test]
fn local_manual_starts_unset() {
    let event = LocalManualResetEvent::boxed();
    assert!(!event.try_wait());
    assert!(!event.try_wait());
}

#[test]
fn local_manual_set_and_reset() {
    let mut event = LocalManualResetEvent::boxed();
    wake_all(event.set());
    assert!(event.try_wait());
    event.reset();
    assert!(!event.try_wait());
}

#[test]
fn local_manual_clone_shares_state() {
    let a = Arc::new(Mutex::new(LocalManualResetEvent::boxed()));
    let b = Arc::clone(&a);
    wake_all(a.lock().unwrap().set());
    assert!(b.lock().unwrap().try_wait());
}

#[test]
fn local_manual_wait_completes_when_already_set() {
    let mut event = LocalManualResetEvent::boxed();
    wake_all(event.set());
    let mut future = event.wait();
    assert_eq!(future.poll(&mut event, noop()), Poll::Ready(()));
}

#[test]
fn local_manual_wait_completes_after_set() {
    let mut event = LocalManualResetEvent::boxed();
    // Set before the future is polled.
    let mut future = event.wait();
    wake_all(event.set());
    assert_eq!(future.poll(&mut event, noop()), Poll::Ready(()));
}

#[test]
fn local_manual_drop_future_while_waiting() {
    let mut event = LocalManualResetEvent::boxed();
    let future = event.wait();
    future.drop_wait(&mut event);
    wake_all(event.set());
    let mut future = event.wait();
    assert_eq!(future.poll(&mut event, noop()), Poll::Ready(()));
}

#[test]
fn local_manual_embedded_set_and_wait() {
    let mut container = EmbeddedLocalManualResetEvent::new();
    let mut event = LocalManualResetEvent::embedded(&mut container);
    wake_all(event.set());
    let mut future = event.wait();
    assert_eq!(future.poll(&mut event, noop()), Poll::Ready(()));
}

#[test]
fn local_manual_embedded_clone_shares_state() {
    let mut container = EmbeddedLocalManualResetEvent::new();
    let mut a = LocalManualResetEvent::embedded(&mut container);
    wake_all(a.set());
    let mut b = LocalManualResetEvent::embedded(&mut container);
    assert!(b.try_wait());
    let mut future = b.wait();
    assert_eq!(future.poll(&mut b, noop()), Poll::Ready(()));
}

#[test]
fn local_manual_embedded_reset_after_set() {
    let mut container = EmbeddedLocalManualResetEvent::new();
    let mut event = LocalManualResetEvent::embedded(&mut container);
    wake_all(event.set());
    event.reset();
    assert!(!event.try_wait());
}

#[test]
fn local_manual_embedded_drop_future_while_waiting() {
    let mut container = EmbeddedLocalManualResetEvent::new();
    let mut event = LocalManualResetEvent::embedded(&mut container);
    let future = event.wait();
    future.drop_wait(&mut event);
    wake_all(event.set());
    let mut future = event.wait();
    assert_eq!(future.poll(&mut event, noop()), Poll::Ready(()));
}

#[test]
fn local_manual_wait_registers_then_completes() {
    let mut event = LocalManualResetEvent::boxed();
    let mut future = event.wait();
    assert_eq!(future.poll(&mut event, noop()), Poll::Pending);
    wake_all(event.set());
    assert_eq!(future.poll(&mut event, noop()), Poll::Ready(()));
}

#[test]
fn local_manual_drop_registered_future() {
    let mut event = LocalManualResetEvent::boxed();
    let mut future = event.wait();
    assert_eq!(future.poll(&mut event, noop()), Poll::Pending);
    future.drop_wait(&mut event);
    wake_all(event.set());
    let mut future2 = event.wait();
    assert_eq!(future2.poll(&mut event, noop()), Poll::Ready(()));
}

#[test]
fn local_manual_embedded_wait_registers_then_completes() {
    let mut container = EmbeddedLocalManualResetEvent::new();
    let mut event = LocalManualResetEvent::embedded(&mut container);
    let mut future = event.wait();
    assert_eq!(future.poll(&mut event, noop()), Poll::Pending);
    wake_all(event.set());
    assert_eq!(future.poll(&mut event, noop()), Poll::Ready(()));
}

#[test]
fn local_manual_embedded_drop_registered_future() {
    let mut container = EmbeddedLocalManualResetEvent::new();
    let mut event = LocalManualResetEvent::embedded(&mut container);
    let mut future = event.wait();
    assert_eq!(future.poll(&mut event, noop()), Poll::Pending);
    future.drop_wait(&mut event);
    wake_all(event.set());
    let mut future2 = event.wait();
    assert_eq!(future2.poll(&mut event, noop()), Poll::Ready(()));
}

#[test]
fn local_manual_embedded_multiple_waiters_released() {
    let mut container = EmbeddedLocalManualResetEvent::new();
    let mut event = LocalManualResetEvent::embedded(&mut container);
    let mut f1 = event.wait();
    let mut f2 = event.wait();
    let mut f3 = event.wait();
    assert_eq!(f1.poll(&mut event, noop()), Poll::Pending);
    assert_eq!(f2.poll(&mut event, noop()), Poll::Pending);
    assert_eq!(f3.poll(&mut event, noop()), Poll::Pending);
    wake_all(event.set());
    assert_eq!(f1.poll(&mut event, noop()), Poll::Ready(()));
    assert_eq!(f2.poll(&mut event, noop()), Poll::Ready(()));
    assert_eq!(f3.poll(&mut event, noop()), Poll::Ready(()));
}

#[test]
fn local_manual_set_with_reentrant_waker_does_not_alias() {
    let event = Arc::new(Mutex::new(LocalManualResetEvent::boxed()));
    let event_for_waker = Arc::clone(&event);
    let tracker = Tracker::new(move || {
        // Reset the event and register a new waiter.
        event_for_waker.lock().unwrap().reset();
        let mut new_future = event_for_waker.lock().unwrap().wait();
        let polled = new_future.poll(&mut event_for_waker.lock().unwrap(), noop());
        assert_eq!(polled, Poll::Pending);
        new_future.drop_wait(&mut event_for_waker.lock().unwrap());
    });
    let mut future = event.lock().unwrap().wait();
    let polled = future.poll(&mut event.lock().unwrap(), Waker::from(Arc::clone(&tracker)));
    assert_eq!(polled, Poll::Pending);
    set(&event);
    assert!(tracker.was_woken());
}

#[test]
fn local_manual_embedded_set_with_reentrant_waker_does_not_alias() {
    let container = Arc::new(Mutex::new(EmbeddedLocalManualResetEvent::new()));
    let container_for_waker = Arc::clone(&container);
    let tracker = Tracker::new(move || {
        let mut guard = container_for_waker.lock().unwrap();
        let mut event = LocalManualResetEvent::embedded(&mut guard);
        event.reset();
        let mut new_future = event.wait();
        assert_eq!(new_future.poll(&mut event, noop()), Poll::Pending);
        new_future.drop_wait(&mut event);
    });
    let mut future = LocalManualResetEvent::embedded(&mut container.lock().unwrap()).wait();
    let polled = future.poll(
        &mut LocalManualResetEvent::embedded(&mut container.lock().unwrap()),
        Waker::from(Arc::clone(&tracker)),
    );
    assert_eq!(polled, Poll::Pending);
    embedded_set(&container);
    assert!(tracker.was_woken());
}

#[test]
fn local_manual_try_wait_returns_false_when_unset() {
    let event = LocalManualResetEvent::boxed();
    assert!(!event.try_wait());
}

#[test]
fn local_manual_try_wait_returns_true_when_set() {
    let mut event = LocalManualResetEvent::boxed();
    wake_all(event.set());
    assert!(event.try_wait());
}

#[test]
fn local_manual_embedded_try_wait_returns_false_when_unset() {
    let mut container = EmbeddedLocalManualResetEvent::new();
    let event = LocalManualResetEvent::embedded(&mut container);
    assert!(!event.try_wait());
}

#[test]
fn local_manual_embedded_try_wait_returns_true_when_set() {
    let mut container = EmbeddedLocalManualResetEvent::new();
    let mut event = LocalManualResetEvent::embedded(&mut container);
    wake_all(event.set());
    assert!(event.try_wait());
}

#[test]
fn local_manual_embedded_set_wakes_registered_waiter() {
    let mut container = EmbeddedLocalManualResetEvent::new();
    let mut event = LocalManualResetEvent::embedded(&mut container);
    let tracker = Tracker::new(|| {});
    let mut future = event.wait();
    assert_eq!(future.poll(&mut event, Waker::from(Arc::clone(&tracker))), Poll::Pending);
    wake_all(event.set());
    assert!(tracker.was_woken());
}

#[test]
fn local_manual_drop_unlinks_registered_waiter_from_list() {
    let mut event = LocalManualResetEvent::boxed();
    let tracker1 = Tracker::new(|| {});
    let tracker2 = Tracker::new(|| {});
    let mut future1 = event.wait();
    assert_eq!(future1.poll(&mut event, Waker::from(Arc::clone(&tracker1))), Poll::Pending);
    let mut future2 = event.wait();
    assert_eq!(future2.poll(&mut event, Waker::from(Arc::clone(&tracker2))), Poll::Pending);
    future1.drop_wait(&mut event);
    wake_all(event.set());
    // Only the second future is woken.
    assert!(!tracker1.was_woken());
    assert!(tracker2.was_woken());
}

#[test]
fn local_manual_embedded_drop_unlinks_registered_waiter_from_list() {
    let mut container = EmbeddedLocalManualResetEvent::new();
    let mut event = LocalManualResetEvent::embedded(&mut container);
    let tracker1 = Tracker::new(|| {});
    let tracker2 = Tracker::new(|| {});
    let mut future1 = event.wait();
    assert_eq!(future1.poll(&mut event, Waker::from(Arc::clone(&tracker1))), Poll::Pending);
    let mut future2 = event.wait();
    assert_eq!(future2.poll(&mut event, Waker::from(Arc::clone(&tracker2))), Poll::Pending);
    future1.drop_wait(&mut event);
    wake_all(event.set());
    // Only the second future is woken.
    assert!(!tracker1.was_woken());
    assert!(tracker2.was_woken());
}

#[test]
fn local_manual_set_when_already_set_is_noop() {
    let mut event = LocalManualResetEvent::boxed();
    wake_all(event.set());
    assert!(event.try_wait());
    assert_eq!(event.set().len(), 0);
    assert!(event.try_wait());
}

#[test]
fn local_manual_embedded_set_when_already_set_is_noop() {
    let mut container = EmbeddedLocalManualResetEvent::new();
    let mut event = LocalManualResetEvent::embedded(&mut container);
    wake_all(event.set());
    assert!(event.try_wait());
    assert_eq!(event.set().len(), 0);
    assert!(event.try_wait());
}

#[test]
fn local_manual_drop_forwarding_with_reentrant_waker_does_not_alias() {
    let event = Arc::new(Mutex::new(LocalManualResetEvent::boxed()));
    let event_for_waker = Arc::clone(&event);
    let mut future1 = event.lock().unwrap().wait();
    assert_eq!(future1.poll(&mut event.lock().unwrap(), noop()), Poll::Pending);
    let tracker = Tracker::new(move || set(&event_for_waker));
    let mut future2 = event.lock().unwrap().wait();
    let polled = future2.poll(&mut event.lock().unwrap(), Waker::from(Arc::clone(&tracker)));
    assert_eq!(polled, Poll::Pending);
    set(&event);
    future1.drop_wait(&mut event.lock().unwrap());
    assert!(tracker.was_woken());
}

#[test]
fn local_manual_reentrant_reset_does_not_skip_awaiters() {
    let event = Arc::new(Mutex::new(LocalManualResetEvent::boxed()));
    let event_for_waker = Arc::clone(&event);
    let tracker_a = Tracker::new(move || event_for_waker.lock().unwrap().reset());
    let mut future_a = event.lock().unwrap().wait();
    let polled = future_a.poll(&mut event.lock().unwrap(), Waker::from(Arc::clone(&tracker_a)));
    assert_eq!(polled, Poll::Pending);
    let mut future_b = event.lock().unwrap().wait();
    assert_eq!(future_b.poll(&mut event.lock().unwrap(), noop()), Poll::Pending);

    // Both are released, although the first waker resets the event.
    set(&event);
    assert!(tracker_a.was_woken());
    assert!(!event.lock().unwrap().try_wait());
    assert_eq!(future_b.poll(&mut event.lock().unwrap(), noop()), Poll::Ready(()));
}

#[test]
fn reentrant_drop_of_sibling_waiter_does_not_skip_others() {
    let event = Arc::new(Mutex::new(LocalManualResetEvent::boxed()));
    let holder: Arc<Mutex<Option<LocalManualResetWaitFuture>>> = Arc::new(Mutex::new(None));
    let event_for_waker = Arc::clone(&event);
    let holder_for_waker = Arc::clone(&holder);
    let tracker_a = Tracker::new(move || {
        // Drop a sibling that is still waiting, and reset the event.
        let sibling = holder_for_waker.lock().unwrap().take();
        if let Some(sibling) = sibling {
            sibling.drop_wait(&mut event_for_waker.lock().unwrap());
        }
        event_for_waker.lock().unwrap().reset();
    });
    let mut future_a = event.lock().unwrap().wait();
    let polled = future_a.poll(&mut event.lock().unwrap(), Waker::from(Arc::clone(&tracker_a)));
    assert_eq!(polled, Poll::Pending);
    let mut future_b = event.lock().unwrap().wait();
    assert_eq!(future_b.poll(&mut event.lock().unwrap(), noop()), Poll::Pending);
    let mut future_c = event.lock().unwrap().wait();
    assert_eq!(future_c.poll(&mut event.lock().unwrap(), noop()), Poll::Pending);
    *holder.lock().unwrap() = Some(future_b);
    set(&event);
    assert!(tracker_a.was_woken());
    assert!(holder.lock().unwrap().is_none());
    // The other sibling was released, although the event was reset.
    assert_eq!(future_c.poll(&mut event.lock().unwrap(), noop()), Poll::Ready(()));
}

#[test]
fn local_manual_reentrant_drop_of_tail_sibling_does_not_skip_others() {
    let event = Arc::new(Mutex::new(LocalManualResetEvent::boxed()));
    let holder: Arc<Mutex<Option<LocalManualResetWaitFuture>>> = Arc::new(Mutex::new(None));
    let event_for_waker = Arc::clone(&event);
    let holder_for_waker = Arc::clone(&holder);
    let tracker_a = Tracker::new(move || {
        // Drop a sibling that is still waiting, and reset the event.
        let sibling = holder_for_waker.lock().unwrap().take();
        if let Some(sibling) = sibling {
            sibling.drop_wait(&mut event_for_waker.lock().unwrap());
        }
        event_for_waker.lock().unwrap().reset();
    });
    let mut future_a = event.lock().unwrap().wait();
    let polled = future_a.poll(&mut event.lock().unwrap(), Waker::from(Arc::clone(&tracker_a)));
    assert_eq!(polled, Poll::Pending);
    let mut future_b = event.lock().unwrap().wait();
    assert_eq!(future_b.poll(&mut event.lock().unwrap(), noop()), Poll::Pending);
    let mut future_c = event.lock().unwrap().wait();
    assert_eq!(future_c.poll(&mut event.lock().unwrap(), noop()), Poll::Pending);
    *holder.lock().unwrap() = Some(future_c);
    set(&event);
    assert!(tracker_a.was_woken());
    assert!(holder.lock().unwrap().is_none());
    // The other sibling was released, although the event was reset.
    assert_eq!(future_b.poll(&mut event.lock().unwrap(), noop()), Poll::Ready(()));
}

#[test]
fn local_manual_reset_while_waiters_registered() {
    let mut event = LocalManualResetEvent::boxed();
    let mut future = event.wait();
    assert_eq!(future.poll(&mut event, noop()), Poll::Pending);
    event.reset();
    // The waiter is still pending.
    assert_eq!(future.poll(&mut event, noop()), Poll::Pending);
    wake_all(event.set());
    assert_eq!(future.poll(&mut event, noop()), Poll::Ready(()));
}

#[test]
fn local_manual_embedded_default_creates_unset_event() {
    let mut container = EmbeddedLocalManualResetEvent::default();
    let event = LocalManualResetEvent::embedded(&mut container);
    assert!(!event.try_wait());
}

#[test]
fn empty_sequence_is_valid() {
    let event = LocalManualResetEvent::boxed();
    assert!(!event.try_wait());
}

#[test]
fn set_then_register_returns_ready() {
    let mut event = LocalManualResetEvent::boxed();
    wake_all(event.set());
    let mut future = event.wait();
    assert_eq!(future.poll(&mut event, noop()), Poll::Ready(()));
}

#[test]
fn register_then_set_then_poll() {
    let mut event = LocalManualResetEvent::boxed();
    let mut future = event.wait();
    assert_eq!(future.poll(&mut event, noop()), Poll::Pending);
    assert_eq!(event.set().len(), 1);
    assert_eq!(future.poll(&mut event, noop()), Poll::Ready(()));
}

#[test]
fn local_manual_proptest_reentrant_reset_does_not_skip_awaiters() {
    let mut event = LocalManualResetEvent::boxed();
    let mut a = event.wait();
    let mut b = event.wait();
    assert_eq!(a.poll(&mut event, noop()), Poll::Pending);
    assert_eq!(b.poll(&mut event, noop()), Poll::Pending);
    assert!(event.open());
    assert!(event.release_next().is_some());
    event.reset();
    assert!(event.release_next().is_some());
    assert!(event.release_next().is_none());
    assert_eq!(a.poll(&mut event, noop()), Poll::Ready(()));
    assert_eq!(b.poll(&mut event, noop()), Poll::Ready(()));
}

#[test]
fn reentrant_drop_first_other_does_not_skip_others() {
    let mut event = LocalManualResetEvent::boxed();
    let mut a = event.wait();
    let mut b = event.wait();
    let mut c = event.wait();
    assert_eq!(a.poll(&mut event, noop()), Poll::Pending);
    assert_eq!(b.poll(&mut event, noop()), Poll::Pending);
    assert_eq!(c.poll(&mut event, noop()), Poll::Pending);
    assert!(event.open());
    assert!(event.release_next().is_some());
    b.drop_wait(&mut event);
    assert!(event.release_next().is_some());
    assert!(event.release_next().is_none());
    assert_eq!(a.poll(&mut event, noop()), Poll::Ready(()));
    assert_eq!(c.poll(&mut event, noop()), Poll::Ready(()));
}

#[test]
fn reentrant_reset_then_register_remains_pending() {
    let event = Arc::new(Mutex::new(LocalManualResetEvent::boxed()));
    let fresh: Arc<Mutex<Option<LocalManualResetWaitFuture>>> = Arc::new(Mutex::new(None));
    let event_for_waker = Arc::clone(&event);
    let fresh_for_waker = Arc::clone(&fresh);
    let tracker = Tracker::new(move || {
        event_for_waker.lock().unwrap().reset();
        let mut future = event_for_waker.lock().unwrap().wait();
        let polled = future.poll(&mut event_for_waker.lock().unwrap(), noop());
        assert_eq!(polled, Poll::Pending);
        *fresh_for_waker.lock().unwrap() = Some(future);
    });
    let mut future = event.lock().unwrap().wait();
    let polled = future.poll(&mut event.lock().unwrap(), Waker::from(Arc::clone(&tracker)));
    assert_eq!(polled, Poll::Pending);
    set(&event);
    assert!(tracker.was_woken());
    // The waiter that came after the reset waits for the next set.
    let mut fresh = fresh.lock().unwrap().take().unwrap();
    assert_eq!(fresh.poll(&mut event.lock().unwrap(), noop()), Poll::Pending);
    assert_eq!(future.poll(&mut event.lock().unwrap(), noop()), Poll::Ready(()));
    assert_eq!(event.lock().unwrap().set().len(), 1);
    assert_eq!(fresh.poll(&mut event.lock().unwrap(), noop()), Poll::Ready(()));
}

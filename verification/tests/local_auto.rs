use std::sync::atomic::{AtomicBool, Ordering};
use std::sync::{Arc, Mutex};
use std::task::{Wake, Waker};

use events::local_auto::{EmbeddedLocalAutoResetEvent, LocalAutoResetEvent};
use events::waiters::Poll;

/// A waker that wakes no one.
fn noop() -> Waker {
    Waker::noop().clone()
}

/// Wakes whoever is to be woken.
fn wake(waker: Option<Waker>) {
    if let Some(waker) = waker {
        waker.wake();
    }
}

/// A waker that remembers that it was woken, and does something when it is.
struct Tracker {
    woken: AtomicBool,
    action: Box<dyn Fn() + Send + Sync>,
}

impl Tracker {
    fn new(action: impl Fn() + Send + Sync + 'static) -> Arc<Self> {
        Arc::new(Tracker { woken: AtomicBool::new(false), action: Box::new(action) })
    }

    fn was_woken(&self) -> bool {
        self.woken.load(Ordering::SeqCst)
    }
}

impl Wake for Tracker {
    fn wake(self: Arc<Self>) {
        self.woken.store(true, Ordering::SeqCst);
        (self.action)();
    }
}

#[test]
fn local_auto_starts_unset() {
    let mut event = LocalAutoResetEvent::boxed();
    assert!(!event.try_wait());
}

#[test]
fn local_auto_set_then_try_wait() {
    let mut event = LocalAutoResetEvent::boxed();
    wake(event.set());
    assert!(event.try_wait());
    // Signal consumed.
    assert!(!event.try_wait());
}

#[test]
fn local_auto_clone_shares_state() {
    let a = Arc::new(Mutex::new(LocalAutoResetEvent::boxed()));
    let b = Arc::clone(&a);
    wake(a.lock().unwrap().set());
    assert!(b.lock().unwrap().try_wait());
}

#[test]
fn local_auto_wait_completes_when_already_set() {
    let mut event = LocalAutoResetEvent::boxed();
    wake(event.set());
    let mut future = event.wait();
    assert_eq!(future.poll(&mut event, noop()), Poll::Ready(()));
    wake(future.drop_wait(&mut event));
    assert!(!event.try_wait());
}

#[test]
fn local_auto_wait_completes_after_set() {
    let mut event = LocalAutoResetEvent::boxed();
    // Set before the future is polled.
    let mut future = event.wait();
    wake(event.set());
    assert_eq!(future.poll(&mut event, noop()), Poll::Ready(()));
}

#[test]
fn local_auto_drop_future_while_waiting() {
    let mut event = LocalAutoResetEvent::boxed();
    let future = event.wait();
    wake(future.drop_wait(&mut event));
    wake(event.set());
    let mut future = event.wait();
    assert_eq!(future.poll(&mut event, noop()), Poll::Ready(()));
}

#[test]
fn local_auto_embedded_set_and_wait() {
    let mut container = EmbeddedLocalAutoResetEvent::new();
    let mut event = LocalAutoResetEvent::embedded(&mut container);
    wake(event.set());
    let mut future = event.wait();
    assert_eq!(future.poll(&mut event, noop()), Poll::Ready(()));
}

#[test]
fn local_auto_embedded_clone_shares_state() {
    let mut container = EmbeddedLocalAutoResetEvent::new();
    let mut a = LocalAutoResetEvent::embedded(&mut container);
    wake(a.set());
    let mut b = LocalAutoResetEvent::embedded(&mut container);
    assert!(b.try_wait());
}

#[test]
fn local_auto_embedded_signal_consumed() {
    let mut container = EmbeddedLocalAutoResetEvent::new();
    let mut event = LocalAutoResetEvent::embedded(&mut container);
    wake(event.set());
    assert!(event.try_wait());
    // Signal consumed.
    assert!(!event.try_wait());
}

#[test]
fn local_auto_embedded_drop_future_while_waiting() {
    let mut container = EmbeddedLocalAutoResetEvent::new();
    let mut event = LocalAutoResetEvent::embedded(&mut container);
    let future = event.wait();
    wake(future.drop_wait(&mut event));
    wake(event.set());
    let mut future = event.wait();
    assert_eq!(future.poll(&mut event, noop()), Poll::Ready(()));
}

#[test]
fn local_auto_wait_registers_then_completes() {
    let mut event = LocalAutoResetEvent::boxed();
    let mut future = event.wait();
    assert_eq!(future.poll(&mut event, noop()), Poll::Pending);
    wake(event.set());
    assert_eq!(future.poll(&mut event, noop()), Poll::Ready(()));
}

#[test]
fn local_auto_drop_registered_future() {
    let mut event = LocalAutoResetEvent::boxed();
    let mut future = event.wait();
    assert_eq!(future.poll(&mut event, noop()), Poll::Pending);
    wake(future.drop_wait(&mut event));
    wake(event.set());
    assert!(event.try_wait());
}

#[test]
fn local_auto_notified_then_dropped_re_sets_event() {
    let mut event = LocalAutoResetEvent::boxed();
    let mut future = event.wait();
    assert_eq!(future.poll(&mut event, noop()), Poll::Pending);
    wake(event.set());

    // No other waiters exist, so the signal goes back to the event.
    wake(future.drop_wait(&mut event));
    assert!(event.try_wait());
}

#[test]
fn local_auto_notified_then_dropped_forwards_to_next() {
    let mut event = LocalAutoResetEvent::boxed();
    let mut future1 = event.wait();
    let mut future2 = event.wait();
    assert_eq!(future1.poll(&mut event, noop()), Poll::Pending);
    assert_eq!(future2.poll(&mut event, noop()), Poll::Pending);

    // The first future is released, and dropped before it is polled again.
    wake(event.set());
    wake(future1.drop_wait(&mut event));
    assert_eq!(future2.poll(&mut event, noop()), Poll::Ready(()));
}

#[test]
fn local_auto_embedded_wait_registers_then_completes() {
    let mut container = EmbeddedLocalAutoResetEvent::new();
    let mut event = LocalAutoResetEvent::embedded(&mut container);
    let mut future = event.wait();
    assert_eq!(future.poll(&mut event, noop()), Poll::Pending);
    wake(event.set());
    assert_eq!(future.poll(&mut event, noop()), Poll::Ready(()));
}

#[test]
fn local_auto_embedded_drop_registered_future() {
    let mut container = EmbeddedLocalAutoResetEvent::new();
    let mut event = LocalAutoResetEvent::embedded(&mut container);
    let mut future = event.wait();
    assert_eq!(future.poll(&mut event, noop()), Poll::Pending);
    wake(future.drop_wait(&mut event));
    wake(event.set());
    assert!(event.try_wait());
}

#[test]
fn local_auto_embedded_notified_then_dropped_re_sets_event() {
    let mut container = EmbeddedLocalAutoResetEvent::new();
    let mut event = LocalAutoResetEvent::embedded(&mut container);
    let mut future = event.wait();
    assert_eq!(future.poll(&mut event, noop()), Poll::Pending);
    wake(event.set());

    // No other waiters exist, so the signal goes back to the event.
    wake(future.drop_wait(&mut event));
    assert!(event.try_wait());
}

#[test]
fn local_auto_embedded_notified_then_dropped_forwards_to_next() {
    let mut container = EmbeddedLocalAutoResetEvent::new();
    let mut event = LocalAutoResetEvent::embedded(&mut container);
    let mut future1 = event.wait();
    let mut future2 = event.wait();
    assert_eq!(future1.poll(&mut event, noop()), Poll::Pending);
    assert_eq!(future2.poll(&mut event, noop()), Poll::Pending);

    // The first future is released, and dropped before it is polled again.
    wake(event.set());
    wake(future1.drop_wait(&mut event));
    assert_eq!(future2.poll(&mut event, noop()), Poll::Ready(()));
}

#[test]
fn local_auto_set_with_reentrant_waker_does_not_alias() {
    let event = Arc::new(Mutex::new(LocalAutoResetEvent::boxed()));
    let event_for_waker = Arc::clone(&event);
    let tracker = Tracker::new(move || {
        let waker = event_for_waker.lock().unwrap().set();
        wake(waker);
    });
    let mut future = event.lock().unwrap().wait();
    let polled = future.poll(&mut event.lock().unwrap(), Waker::from(Arc::clone(&tracker)));
    assert_eq!(polled, Poll::Pending);

    // The event is no longer borrowed when the waker sets it again.
    let waker = event.lock().unwrap().set();
    wake(waker);
    assert!(tracker.was_woken());
    // The re-entrant set stored a signal.
    assert!(event.lock().unwrap().try_wait());
}

#[test]
fn local_auto_drop_forwarding_with_reentrant_waker_does_not_alias() {
    let event = Arc::new(Mutex::new(LocalAutoResetEvent::boxed()));
    let event_for_waker = Arc::clone(&event);
    let mut future1 = event.lock().unwrap().wait();
    assert_eq!(future1.poll(&mut event.lock().unwrap(), noop()), Poll::Pending);
    let tracker = Tracker::new(move || {
        let waker = event_for_waker.lock().unwrap().set();
        wake(waker);
    });
    let mut future2 = event.lock().unwrap().wait();
    let polled = future2.poll(&mut event.lock().unwrap(), Waker::from(Arc::clone(&tracker)));
    assert_eq!(polled, Poll::Pending);
    let waker = event.lock().unwrap().set();
    wake(waker);

    // The first future was released, so it forwards to the second.
    let waker = future1.drop_wait(&mut event.lock().unwrap());
    wake(waker);
    assert!(tracker.was_woken());
}

#[test]
fn local_auto_embedded_set_with_reentrant_waker_does_not_alias() {
    let container = Arc::new(Mutex::new(EmbeddedLocalAutoResetEvent::new()));
    let container_for_waker = Arc::clone(&container);
    let tracker = Tracker::new(move || {
        let waker = LocalAutoResetEvent::embedded(&mut container_for_waker.lock().unwrap()).set();
        wake(waker);
    });
    let mut future = LocalAutoResetEvent::embedded(&mut container.lock().unwrap()).wait();
    let polled = future.poll(
        &mut LocalAutoResetEvent::embedded(&mut container.lock().unwrap()),
        Waker::from(Arc::clone(&tracker)),
    );
    assert_eq!(polled, Poll::Pending);
    let waker = LocalAutoResetEvent::embedded(&mut container.lock().unwrap()).set();
    wake(waker);
    assert!(tracker.was_woken());
}

#[test]
fn embedded_drop_forwarding_with_reentrant_waker_does_not_alias() {
    let container = Arc::new(Mutex::new(EmbeddedLocalAutoResetEvent::new()));
    let container_for_waker = Arc::clone(&container);
    let mut future1 = LocalAutoResetEvent::embedded(&mut container.lock().unwrap()).wait();
    let polled = future1.poll(&mut LocalAutoResetEvent::embedded(&mut container.lock().unwrap()), noop());
    assert_eq!(polled, Poll::Pending);
    let tracker = Tracker::new(move || {
        let waker = LocalAutoResetEvent::embedded(&mut container_for_waker.lock().unwrap()).set();
        wake(waker);
    });
    let mut future2 = LocalAutoResetEvent::embedded(&mut container.lock().unwrap()).wait();
    let polled = future2.poll(
        &mut LocalAutoResetEvent::embedded(&mut container.lock().unwrap()),
        Waker::from(Arc::clone(&tracker)),
    );
    assert_eq!(polled, Poll::Pending);
    let waker = LocalAutoResetEvent::embedded(&mut container.lock().unwrap()).set();
    wake(waker);
    let waker = future1.drop_wait(&mut LocalAutoResetEvent::embedded(&mut container.lock().unwrap()));
    wake(waker);
    assert!(tracker.was_woken());
}

#[test]
fn local_auto_embedded_set_wakes_registered_waiter() {
    let mut container = EmbeddedLocalAutoResetEvent::new();
    let mut event = LocalAutoResetEvent::embedded(&mut container);
    let tracker = Tracker::new(|| {});
    let mut future = event.wait();
    assert_eq!(future.poll(&mut event, Waker::from(Arc::clone(&tracker))), Poll::Pending);
    wake(event.set());
    assert!(tracker.was_woken());
}

#[test]
fn local_auto_many_sets_release_all_waiters() {
    let mut event = LocalAutoResetEvent::boxed();
    let mut futures = Vec::new();
    for _ in 0..100 {
        futures.push(event.wait());
    }
    for f in &mut futures {
        assert_eq!(f.poll(&mut event, noop()), Poll::Pending);
    }
    // Each set releases exactly one waiter.
    for f in &mut futures {
        wake(event.set());
        assert_eq!(f.poll(&mut event, noop()), Poll::Ready(()));
    }
    // No leftover signal.
    assert!(!event.try_wait());
}

#[test]
fn local_auto_embedded_many_sets_release_all_waiters() {
    let mut container = EmbeddedLocalAutoResetEvent::new();
    let mut event = LocalAutoResetEvent::embedded(&mut container);
    let mut futures = Vec::new();
    for _ in 0..100 {
        futures.push(event.wait());
    }
    for f in &mut futures {
        assert_eq!(f.poll(&mut event, noop()), Poll::Pending);
    }
    // Each set releases exactly one waiter.
    for f in &mut futures {
        wake(event.set());
        assert_eq!(f.poll(&mut event, noop()), Poll::Ready(()));
    }
    // No leftover signal.
    assert!(!event.try_wait());
}

#[test]
fn local_auto_many_sets_without_waiters_coalesce() {
    let mut event = LocalAutoResetEvent::boxed();
    for _ in 0..100 {
        wake(event.set());
    }
    // Only one signal is latched.
    assert!(event.try_wait());
    assert!(!event.try_wait());
}

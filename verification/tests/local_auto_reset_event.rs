use std::sync::atomic::{AtomicBool, Ordering};
use std::sync::{Arc, Mutex};
use std::task::{Wake, Waker};

use events::local_auto_reset_event::{EmbeddedLocalAutoResetEvent, LocalAutoResetEvent};
use events::waiters::Poll;

/// A waker that wakes no one.
fn noop() -> Waker {
    Waker::noop().clone()
}

/// Wakes whoever is to be woken.
fn wake(waker: Option<Waker>) {
    if let Some(waker) = waker {
        waker.wake();
    }
}

/// A waker that remembers that it was woken, and does something when it is.
struct Tracker {
    woken: AtomicBool,
    action: Box<dyn Fn() + Send + Sync>,
}

impl Tracker {
    fn new(action: impl Fn() + Send + Sync + 'static) -> Arc<Self> {
        Arc::new(Tracker { woken: AtomicBool::new(false), action: Box::new(action) })
    }

    fn was_woken(&self) -> bool {
        self.woken.load(Ordering::SeqCst)
    }
}

impl Wake for Tracker {
    fn wake(self: Arc<Self>) {
        self.woken.store(true, Ordering::SeqCst);
        (self.action)();
    }
}

#[test]
fn local_auto_reset_event_starts_unset() {
    let mut event = LocalAutoResetEvent::boxed();
    assert!(!event.try_acquire());
}

#[test]
fn local_auto_reset_event_set_then_try_acquire() {
    let mut event = LocalAutoResetEvent::boxed();
    wake(event.set());
    assert!(event.try_acquire());
    // Signal consumed.
    assert!(!event.try_acquire());
}

#[test]
fn local_auto_reset_event_clone_shares_state() {
    let a = Arc::new(Mutex::new(LocalAutoResetEvent::boxed()));
    let b = Arc::clone(&a);
    wake(a.lock().unwrap().set());
    assert!(b.lock().unwrap().try_acquire());
}

#[test]
fn local_auto_reset_event_wait_completes_when_already_set() {
    let mut event = LocalAutoResetEvent::boxed();
    wake(event.set());
    let mut future = event.wait();
    assert_eq!(future.poll(&mut event, noop()), Poll::Ready(()));
    wake(future.drop_wait(&mut event));
    assert!(!event.try_acquire());
}

#[test]
fn local_auto_reset_event_wait_completes_after_set() {
    let mut event = LocalAutoResetEvent::boxed();
    // Set before the future is polled.
    let mut future = event.wait();
    wake(event.set());
    assert_eq!(future.poll(&mut event, noop()), Poll::Ready(()));
}

#[test]
fn local_auto_reset_event_drop_future_while_waiting() {
    let mut event = LocalAutoResetEvent::boxed();
    let future = event.wait();
    wake(future.drop_wait(&mut event));
    wake(event.set());
    let mut future = event.wait();
    assert_eq!(future.poll(&mut event, noop()), Poll::Ready(()));
}

#[test]
fn local_auto_reset_event_embedded_set_and_wait() {
    let mut container = EmbeddedLocalAutoResetEvent::new();
    let mut event = LocalAutoResetEvent::embedded(&mut container);
    wake(event.set());
    let mut future = event.wait();
    assert_eq!(future.poll(&mut event, noop()), Poll::Ready(()));
}

#[test]
fn local_auto_reset_event_embedded_clone_shares_state() {
    let mut container = EmbeddedLocalAutoResetEvent::new();
    let mut a = LocalAutoResetEvent::embedded(&mut container);
    wake(a.set());
    let mut b = LocalAutoResetEvent::embedded(&mut container);
    assert!(b.try_acquire());
}

#[test]
fn local_auto_reset_event_embedded_signal_consumed() {
    let mut container = EmbeddedLocalAutoResetEvent::new();
    let mut event = LocalAutoResetEvent::embedded(&mut container);
    wake(event.set());
    assert!(event.try_acquire());
    // Signal consumed.
    assert!(!event.try_acquire());
}

#[test]
fn local_auto_reset_event_embedded_drop_future_while_waiting() {
    let mut container = EmbeddedLocalAutoResetEvent::new();
    let mut event = LocalAutoResetEvent::embedded(&mut container);
    let future = event.wait();
    wake(future.drop_wait(&mut event));
    wake(event.set());
    let mut future = event.wait();
    assert_eq!(future.poll(&mut event, noop()), Poll::Ready(()));
}

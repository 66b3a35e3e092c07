use std::sync::atomic::{AtomicBool, Ordering};
use std::sync::{Arc, Mutex};
use std::task::{Wake, Waker};

use events::manual_reset_event::{EmbeddedManualResetEvent, ManualResetEvent};
use events::waiters::Poll;

/// A waker that wakes no one.
fn noop() -> Waker {
    Waker::noop().clone()
}

/// Wakes everyone who is to be woken.
fn wake_all(wakers: Vec<&Waker>) {
    for waker in wakers {
        waker.wake_by_ref();
    }
}

/// A waker that remembers that it was woken, and does something when it is.
struct Tracker {
    woken: AtomicBool,
    action: Box<dyn Fn() + Send + Sync>,
}

impl Tracker {
    fn new(action: impl Fn() + Send + Sync + 'static) -> Arc<Self> {
        Arc::new(Tracker { woken: AtomicBool::new(false), action: Box::new(action) })
    }

    fn was_woken(&self) -> bool {
        self.woken.load(Ordering::SeqCst)
    }
}

impl Wake for Tracker {
    fn wake(self: Arc<Self>) {
        self.woken.store(true, Ordering::SeqCst);
        (self.action)();
    }
}

#[test]
fn manual_reset_event_starts_unset() {
    let event = ManualResetEvent::boxed();
    assert!(!event.is_set());
    assert!(!event.try_acquire());
}

#[test]
fn manual_reset_event_set_makes_is_set_true() {
    let mut event = ManualResetEvent::boxed();
    wake_all(event.set());
    assert!(event.is_set());
}

#[test]
fn manual_reset_event_reset_after_set() {
    let mut event = ManualResetEvent::boxed();
    wake_all(event.set());
    event.reset();
    assert!(!event.is_set());
}

#[test]
fn manual_reset_event_clone_shares_state() {
    let a = Arc::new(Mutex::new(ManualResetEvent::boxed()));
    let b = Arc::clone(&a);
    wake_all(a.lock().unwrap().set());
    assert!(b.lock().unwrap().is_set());
}

#[test]
fn manual_reset_event_wait_completes_when_already_set() {
    let mut event = ManualResetEvent::boxed();
    wake_all(event.set());
    let mut future = event.wait();
    assert_eq!(future.poll(&mut event, noop()), Poll::Ready(()));
}

#[test]
fn manual_reset_event_wait_completes_after_set() {
    let mut event = ManualResetEvent::boxed();
    let mut future = event.wait();
    assert_eq!(future.poll(&mut event, noop()), Poll::Pending);
    wake_all(event.set());
    assert_eq!(future.poll(&mut event, noop()), Poll::Ready(()));
}

#[test]
fn manual_reset_event_multiple_waiters_all_released() {
    let mut event = ManualResetEvent::boxed();
    let mut f1 = event.wait();
    let mut f2 = event.wait();
    let mut f3 = event.wait();
    assert_eq!(f1.poll(&mut event, noop()), Poll::Pending);
    assert_eq!(f2.poll(&mut event, noop()), Poll::Pending);
    assert_eq!(f3.poll(&mut event, noop()), Poll::Pending);
    wake_all(event.set());
    assert_eq!(f1.poll(&mut event, noop()), Poll::Ready(()));
    assert_eq!(f2.poll(&mut event, noop()), Poll::Ready(()));
    assert_eq!(f3.poll(&mut event, noop()), Poll::Ready(()));
}

#[test]
fn manual_reset_event_drop_future_while_waiting() {
    let mut event = ManualResetEvent::boxed();
    let future = event.wait();
    future.drop_wait(&mut event);
    wake_all(event.set());
    let mut future = event.wait();
    assert_eq!(future.poll(&mut event, noop()), Poll::Ready(()));
}

#[test]
fn manual_reset_event_drop_polled_future_while_waiting() {
    let mut event = ManualResetEvent::boxed();
    let mut future = event.wait();
    assert_eq!(future.poll(&mut event, noop()), Poll::Pending);
    future.drop_wait(&mut event);
    wake_all(event.set());
    let mut future2 = event.wait();
    assert_eq!(future2.poll(&mut event, noop()), Poll::Ready(()));
}

#[test]
fn manual_reset_event_embedded_set_and_wait() {
    let mut container = EmbeddedManualResetEvent::new();
    let mut event = ManualResetEvent::embedded(&mut container);
    wake_all(event.set());
    let mut future = event.wait();
    assert_eq!(future.poll(&mut event, noop()), Poll::Ready(()));
}

#[test]
fn manual_reset_event_embedded_clone_shares_state() {
    let mut container = EmbeddedManualResetEvent::new();
    let mut a = ManualResetEvent::embedded(&mut container);
    wake_all(a.set());
    let mut b = ManualResetEvent::embedded(&mut container);
    assert!(b.is_set());
    let mut future = b.wait();
    assert_eq!(future.poll(&mut b, noop()), Poll::Ready(()));
}

#[test]
fn manual_reset_event_embedded_reset_after_set() {
    let mut container = EmbeddedManualResetEvent::new();
    let mut event = ManualResetEvent::embedded(&mut container);
    wake_all(event.set());
    event.reset();
    assert!(!event.is_set());
}

#[test]
fn manual_reset_event_embedded_drop_future_while_waiting() {
    let mut container = EmbeddedManualResetEvent::new();
    let mut event = ManualResetEvent::embedded(&mut container);
    let future = event.wait();
    future.drop_wait(&mut event);
    wake_all(event.set());
    let mut future = event.wait();
    assert_eq!(future.poll(&mut event, noop()), Poll::Ready(()));
}

#[test]
fn manual_reset_event_embedded_wait_registers_then_completes() {
    let mut container = EmbeddedManualResetEvent::new();
    let mut event = ManualResetEvent::embedded(&mut container);
    let mut future = event.wait();
    assert_eq!(future.poll(&mut event, noop()), Poll::Pending);
    wake_all(event.set());
    assert_eq!(future.poll(&mut event, noop()), Poll::Ready(()));
}

#[test]
fn manual_reset_event_embedded_drop_registered_future() {
    let mut container = EmbeddedManualResetEvent::new();
    let mut event = ManualResetEvent::embedded(&mut container);
    let mut future = event.wait();
    assert_eq!(future.poll(&mut event, noop()), Poll::Pending);
    future.drop_wait(&mut event);
    wake_all(event.set());
    let mut future2 = event.wait();
    assert_eq!(future2.poll(&mut event, noop()), Poll::Ready(()));
}

#[test]
fn manual_reset_event_embedded_multiple_waiters_released() {
    let mut container = EmbeddedManualResetEvent::new();
    let mut event = ManualResetEvent::embedded(&mut container);
    let mut f1 = event.wait();
    let mut f2 = event.wait();
    let mut f3 = event.wait();
    assert_eq!(f1.poll(&mut event, noop()), Poll::Pending);
    assert_eq!(f2.poll(&mut event, noop()), Poll::Pending);
    assert_eq!(f3.poll(&mut event, noop()), Poll::Pending);
    wake_all(event.set());
    assert_eq!(f1.poll(&mut event, noop()), Poll::Ready(()));
    assert_eq!(f2.poll(&mut event, noop()), Poll::Ready(()));
    assert_eq!(f3.poll(&mut event, noop()), Poll::Ready(()));
}

#[test]
fn manual_reset_event_woken_waiter_waits_again_after_reset() {
    let tracker = Tracker::new(|| {});
    let mut event = ManualResetEvent::boxed();
    let mut future = event.wait();
    assert_eq!(future.poll(&mut event, Waker::from(Arc::clone(&tracker))), Poll::Pending);
    wake_all(event.set());
    assert!(tracker.was_woken());
    event.reset();
    assert_eq!(future.poll(&mut event, noop()), Poll::Pending);
    // The waker of the latest poll is handed out, once per set.
    assert_eq!(event.set().len(), 1);
    assert_eq!(event.set().len(), 0);
    assert_eq!(future.poll(&mut event, noop()), Poll::Ready(()));
}

#[test]
fn manual_reset_event_shared_event_is_free_while_wakers_run() {
    let event = Arc::new(Mutex::new(ManualResetEvent::boxed()));
    let event_for_waker = Arc::clone(&event);
    let tracker = Tracker::new(move || event_for_waker.lock().unwrap().reset());
    let mut future = event.lock().unwrap().wait();
    let polled = future.poll(&mut event.lock().unwrap(), Waker::from(Arc::clone(&tracker)));
    assert_eq!(polled, Poll::Pending);
    let wakers: Vec<Waker> = event.lock().unwrap().set().into_iter().cloned().collect();
    for waker in wakers {
        waker.wake();
    }
    assert!(tracker.was_woken());
    assert!(!event.lock().unwrap().is_set());
}

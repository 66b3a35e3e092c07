use std::sync::atomic::{AtomicBool, Ordering};
use std::sync::{Arc, Mutex as StdMutex};
use std::task::{Wake, Waker};

use events::mutex::{EmbeddedMutex, Mutex, MutexGuard};
use events::waiters::Poll;

/// A waker that wakes no one.
fn noop() -> Waker {
    Waker::noop().clone()
}

/// Wakes whoever is to be woken.
fn wake(waker: Option<Waker>) {
    if let Some(waker) = waker {
        waker.wake();
    }
}

/// A waker that remembers that it was woken.
struct Tracker(AtomicBool);

impl Wake for Tracker {
    fn wake(self: Arc<Self>) {
        self.0.store(true, Ordering::SeqCst);
    }
}

#[test]
fn starts_unlocked() {
    let mut mutex = Mutex::boxed(42_u32);
    let guard = mutex.try_lock();
    assert!(guard.is_some());
    assert_eq!(*guard.unwrap(), 42);
}

#[test]
fn try_lock_when_locked_returns_none() {
    let mut mutex = Mutex::boxed(42_u32);
    let _guard = mutex.try_lock().unwrap();
    assert!(mutex.try_lock().is_none());
}

#[test]
fn unlock_allows_try_lock() {
    let mut mutex = Mutex::boxed(42_u32);
    let guard = mutex.try_lock().unwrap();
    wake(guard.unlock(&mut mutex));
    assert!(mutex.try_lock().is_some());
}

#[test]
fn mutex_clone_shares_state() {
    let a = Arc::new(StdMutex::new(Mutex::boxed(42_u32)));
    let b = Arc::clone(&a);
    let guard = a.lock().unwrap().try_lock().unwrap();
    assert!(b.lock().unwrap().try_lock().is_none());
    wake(guard.unlock(&mut a.lock().unwrap()));
    assert_eq!(*b.lock().unwrap().try_lock().unwrap(), 42);
}

#[test]
fn guard_deref_mut() {
    let mut mutex = Mutex::boxed(0_u32);
    let mut guard = mutex.try_lock().unwrap();
    *guard = 99;
    wake(guard.unlock(&mut mutex));
    assert_eq!(*mutex.try_lock().unwrap(), 99);
}

#[test]
fn lock_completes_when_unlocked() {
    let mut mutex = Mutex::boxed(42_u32);
    let mut future = mutex.lock();
    match future.poll(&mut mutex, noop()) {
        Poll::Ready(guard) => assert_eq!(*guard, 42),
        Poll::Pending => panic!("expected Ready"),
    }
}

#[test]
fn lock_completes_after_unlock() {
    let mut mutex = Mutex::boxed(42_u32);
    let guard = mutex.try_lock().unwrap();
    let mut future = mutex.lock();
    assert!(matches!(future.poll(&mut mutex, noop()), Poll::Pending));
    wake(guard.unlock(&mut mutex));
    assert!(matches!(future.poll(&mut mutex, noop()), Poll::Ready(_)));
}

#[test]
fn fifo_ordering() {
    let mut mutex = Mutex::boxed(0_u32);
    let guard = mutex.try_lock().unwrap();
    let mut f1 = mutex.lock();
    let mut f2 = mutex.lock();
    let mut f3 = mutex.lock();
    assert!(matches!(f1.poll(&mut mutex, noop()), Poll::Pending));
    assert!(matches!(f2.poll(&mut mutex, noop()), Poll::Pending));
    assert!(matches!(f3.poll(&mut mutex, noop()), Poll::Pending));

    wake(guard.unlock(&mut mutex));
    let Poll::Ready(g1) = f1.poll(&mut mutex, noop()) else {
        panic!("expected Ready for f1")
    };
    assert!(matches!(f2.poll(&mut mutex, noop()), Poll::Pending));
    assert!(matches!(f3.poll(&mut mutex, noop()), Poll::Pending));

    wake(g1.unlock(&mut mutex));
    let Poll::Ready(g2) = f2.poll(&mut mutex, noop()) else {
        panic!("expected Ready for f2")
    };
    assert!(matches!(f3.poll(&mut mutex, noop()), Poll::Pending));

    wake(g2.unlock(&mut mutex));
    assert!(matches!(f3.poll(&mut mutex, noop()), Poll::Ready(_)));
}

#[test]
fn cancelled_waiter_releases_lock() {
    let mut mutex = Mutex::boxed(0_u32);
    let guard = mutex.try_lock().unwrap();
    let mut f1 = mutex.lock();
    assert!(matches!(f1.poll(&mut mutex, noop()), Poll::Pending));
    wake(guard.unlock(&mut mutex));
    // Granted, but not taken up: no one else can have the lock yet.
    assert!(mutex.try_lock().is_none());
    wake(f1.drop_lock_wait(&mut mutex));
    assert!(mutex.try_lock().is_some());
}

#[test]
fn mutex_notified_then_dropped_forwards_to_next() {
    let mut mutex = Mutex::boxed(0_u32);
    let guard = mutex.try_lock().unwrap();
    let mut f1 = mutex.lock();
    let mut f2 = mutex.lock();
    let tracker = Arc::new(Tracker(AtomicBool::new(false)));
    assert!(matches!(f1.poll(&mut mutex, noop()), Poll::Pending));
    assert!(matches!(f2.poll(&mut mutex, Waker::from(Arc::clone(&tracker))), Poll::Pending));
    wake(guard.unlock(&mut mutex));
    wake(f1.drop_lock_wait(&mut mutex));
    assert!(tracker.0.load(Ordering::SeqCst));
    assert!(matches!(f2.poll(&mut mutex, noop()), Poll::Ready(_)));
}

#[test]
fn mutex_drop_unpolled_future_is_safe() {
    let mut mutex = Mutex::boxed(42_u32);
    let future = mutex.lock();
    wake(future.drop_lock_wait(&mut mutex));
    assert!(mutex.try_lock().is_some());
}

#[test]
fn embedded_lock_and_unlock() {
    let mut container = EmbeddedMutex::new(42_u32);
    let mut mutex = Mutex::embedded(&mut container);
    let mut future = mutex.lock();
    let Poll::Ready(guard) = future.poll(&mut mutex, noop()) else {
        panic!("expected Ready")
    };
    assert_eq!(*guard, 42);
    wake(guard.unlock(&mut mutex));
    assert!(mutex.try_lock().is_some());
}

#[test]
fn mutex_embedded_clone_shares_state() {
    let mut container = EmbeddedMutex::new(42_u32);
    let guard = Mutex::embedded(&mut container).try_lock().unwrap();
    assert!(Mutex::embedded(&mut container).try_lock().is_none());
    wake(guard.unlock(&mut Mutex::embedded(&mut container)));
    assert_eq!(*Mutex::embedded(&mut container).try_lock().unwrap(), 42);
}

#[test]
fn embedded_guard_deref_mut() {
    let mut container = EmbeddedMutex::new(0_u32);
    let mut mutex = Mutex::embedded(&mut container);
    let mut future = mutex.lock();
    let Poll::Ready(mut guard) = future.poll(&mut mutex, noop()) else {
        panic!("expected Ready")
    };
    *guard = 99;
    wake(guard.unlock(&mut mutex));
    assert_eq!(*mutex.try_lock().unwrap(), 99);
}

#[test]
fn mutex_embedded_drop_future_while_waiting() {
    let mut container = EmbeddedMutex::new(42_u32);
    let mut mutex = Mutex::embedded(&mut container);
    let future = mutex.lock();
    wake(future.drop_lock_wait(&mut mutex));
    let mut future = mutex.lock();
    let Poll::Ready(guard) = future.poll(&mut mutex, noop()) else {
        panic!("expected Ready")
    };
    assert_eq!(*guard, 42);
}

#[test]
fn mutex_default_container_holds_the_default_value() {
    let mut container: EmbeddedMutex<u32> = EmbeddedMutex::default();
    assert_eq!(*Mutex::embedded(&mut container).try_lock().unwrap(), 0);
}

#[test]
fn mutex_value_is_handed_on_to_the_next_holder() {
    let mut mutex = Mutex::boxed(String::from("a"));
    let mut guard: MutexGuard<String> = mutex.try_lock().unwrap();
    let mut future = mutex.lock();
    assert!(matches!(future.poll(&mut mutex, noop()), Poll::Pending));
    guard.push('b');
    let tracker = Arc::new(Tracker(AtomicBool::new(false)));
    assert!(matches!(future.poll(&mut mutex, Waker::from(Arc::clone(&tracker))), Poll::Pending));
    wake(guard.unlock(&mut mutex));
    // The waker of the latest poll is the one that is woken.
    assert!(tracker.0.load(Ordering::SeqCst));
    let Poll::Ready(guard) = future.poll(&mut mutex, noop()) else {
        panic!("expected Ready")
    };
    assert_eq!(*guard, "ab");
}

#[test]
fn mutex_cancelled_waiting_future_leaves_the_queue() {
    let mut mutex = Mutex::boxed(1_u8);
    let guard = mutex.try_lock().unwrap();
    let mut f1 = mutex.lock();
    let mut f2 = mutex.lock();
    assert!(matches!(f1.poll(&mut mutex, noop()), Poll::Pending));
    assert!(matches!(f2.poll(&mut mutex, noop()), Poll::Pending));
    assert!(f1.drop_lock_wait(&mut mutex).is_none());
    wake(guard.unlock(&mut mutex));
    assert!(matches!(f2.poll(&mut mutex, noop()), Poll::Ready(_)));
}

use std::sync::atomic::{AtomicUsize, Ordering};
use std::sync::Arc;
use std::task::{Wake, Waker};

use events::auto::{AutoResetEvent, EmbeddedAutoResetEvent};
use events::local_manual::{EmbeddedLocalManualResetEvent, LocalManualResetEvent};
use events::manual_reset_event::{EmbeddedManualResetEvent, ManualResetEvent};
use events::mutex::{EmbeddedMutex, Mutex, MutexGuard, MutexLockFuture};
use events::once::local::LocalOnceEvent;
use events::once::pooled_sync::OnceEventPool;
use events::waiters::{Poll, Waiter, WaiterList};

/// A waker that wakes no one.
fn noop() -> Waker {
    Waker::noop().clone()
}

/// A waker that counts how often it was woken.
struct Counter(AtomicUsize);

impl Wake for Counter {
    fn wake(self: Arc<Self>) {
        self.0.fetch_add(1, Ordering::SeqCst);
    }
}

#[test]
fn signals_are_conserved() {
    let mut event = AutoResetEvent::boxed();
    let mut waits = [event.wait(), event.wait(), event.wait()];
    for wait in &mut waits {
        assert!(wait.poll(&mut event, noop()).is_pending());
    }
    // Five signals: three release a waiter, one is stored, one is coalesced with it.
    for _ in 0..5 {
        event.set();
    }
    let mut completions = 0;
    for wait in &mut waits {
        while wait.poll(&mut event, noop()).is_ready() {
            completions += 1;
        }
    }
    assert_eq!(completions, 4);
    assert!(!event.try_wait());
}

#[test]
fn cancelling_every_released_waiter_leaves_one_signal() {
    let mut event = AutoResetEvent::boxed();
    let mut first = event.wait();
    let mut second = event.wait();
    assert!(first.poll(&mut event, noop()).is_pending());
    assert!(second.poll(&mut event, noop()).is_pending());
    assert!(event.set().is_some());
    assert!(first.drop_wait(&mut event).is_some());
    assert!(second.drop_wait(&mut event).is_none());
    assert!(event.try_wait());
    assert!(!event.try_wait());
}

#[test]
fn released_waiter_leaves_the_stored_signal_to_others() {
    let mut event = AutoResetEvent::boxed();
    let mut wait = event.wait();
    assert!(wait.poll(&mut event, noop()).is_pending());
    // The first signal releases the waiter, the second is stored.
    event.set();
    event.set();
    assert!(wait.poll(&mut event, noop()).is_ready());
    assert!(event.try_wait());
    assert!(!event.try_wait());
    wait.drop_wait(&mut event);
    assert!(!event.try_wait());
}

#[test]
fn set_reaches_everyone_whatever_happens_between_releases() {
    let mut event = LocalManualResetEvent::boxed();
    let mut waits: Vec<_> = (0..4).map(|_| event.wait()).collect();
    for wait in &mut waits {
        assert!(wait.poll(&mut event, noop()).is_pending());
    }
    assert!(event.open());
    let mut released = 0;
    while event.release_next().is_some() {
        released += 1;
        event.reset();
        // The last waiter is dropped, and a new one comes.
        if released == 1 {
            waits.pop().unwrap().drop_wait(&mut event);
            let mut late = event.wait();
            assert!(late.poll(&mut event, noop()).is_pending());
            waits.push(late);
        }
    }
    assert_eq!(released, 3);
    let late = waits.pop();
    for wait in &mut waits {
        assert!(wait.poll(&mut event, noop()).is_ready());
    }
    assert!(late.unwrap().poll(&mut event, noop()).is_pending());
}

#[test]
fn lock_has_one_holder_at_a_time() {
    let mut mutex = Mutex::boxed(0_u32);
    let mut waiting: Vec<MutexLockFuture> = Vec::new();
    let mut holder: Option<MutexGuard<u32>> = mutex.try_lock();
    for _ in 0..5 {
        let mut future = mutex.lock();
        assert!(future.poll(&mut mutex, noop()).is_pending());
        waiting.push(future);
    }
    let mut served = Vec::new();
    while let Some(mut guard) = holder.take() {
        *guard += 1;
        served.push(*guard);
        guard.unlock(&mut mutex);
        for future in &mut waiting {
            if let Poll::Ready(guard) = future.poll(&mut mutex, noop()) {
                assert!(holder.is_none());
                holder = Some(guard);
                break;
            }
        }
        if !waiting.is_empty() {
            waiting.remove(0);
        }
    }
    assert_eq!(served, vec![1, 2, 3, 4, 5, 6]);
}

#[test]
fn event_is_cleaned_up_once_in_whatever_order_its_endpoints_leave() {
    let mut releases = Vec::new();

    let (mut event, sender, mut receiver) = LocalOnceEvent::<u8>::new_managed();
    releases.push(sender.send(&mut event, 1).release);
    releases.push(receiver.poll(&mut event, noop()).release);

    let (mut event, sender, receiver) = LocalOnceEvent::<u8>::new_managed();
    releases.push(sender.drop_sender(&mut event).release);
    releases.push(receiver.drop_receiver(&mut event));

    let (mut event, sender, receiver) = LocalOnceEvent::<u8>::new_managed();
    releases.push(receiver.into_value(&mut event).release);
    releases.push(sender.send(&mut event, 1).release);

    let (mut event, sender, receiver) = LocalOnceEvent::<u8>::new_managed();
    releases.push(receiver.drop_receiver(&mut event));
    releases.push(sender.drop_sender(&mut event).release);

    assert_eq!(releases, vec![false, true, false, true, false, true, false, true]);
}

#[test]
fn pool_counts_the_events_that_have_an_endpoint() {
    let mut pool = OnceEventPool::<usize>::new();
    let mut senders = Vec::new();
    let mut receivers = Vec::new();
    for _ in 0..200 {
        let (sender, receiver) = pool.bind_by_ref();
        senders.push(sender);
        receivers.push(receiver);
    }
    assert_eq!(pool.len(), 200);
    for (i, sender) in senders.into_iter().enumerate() {
        sender.send(&mut pool, i);
    }
    assert_eq!(pool.len(), 200);
    for (i, receiver) in receivers.into_iter().enumerate() {
        assert_eq!(receiver.into_value(&mut pool), Some(i));
        assert_eq!(pool.len(), 199 - i);
    }
    assert!(pool.is_empty());
}

#[test]
fn waiters_are_kept_in_order_and_keys_are_used_again() {
    let counter = Arc::new(Counter(AtomicUsize::new(0)));
    let mut list: WaiterList<Waker> = WaiterList::new();
    let mut a = Waiter::new();
    let mut b = Waiter::new();
    let mut c = Waiter::new();
    assert!(list.is_empty());
    list.register(&mut a, noop());
    list.register(&mut b, noop());
    list.register(&mut c, noop());
    list.register(&mut b, Waker::from(Arc::clone(&counter)));
    assert_eq!(list.len(), 3);
    assert_eq!(list.place(&b), Some(1));
    list.unregister(&mut a);
    assert!(!a.is_registered());
    assert_eq!(list.place(&b), Some(0));
    list.notify_one().unwrap().wake();
    assert_eq!(counter.0.load(Ordering::SeqCst), 1);
    assert!(list.is_notified(&b));
    list.register(&mut a, noop());
    assert_eq!(list.place(&a), Some(1));
    assert!(list.take_notification(&mut b));
    assert!(!list.take_notification(&mut b));
    assert!(!b.is_registered());
    assert!(list.notify_one().is_some());
    assert!(list.take_notification(&mut c));
}

#[test]
fn mutex_in_a_container_answers_as_one_of_its_own() {
    let mut boxed = Mutex::boxed(1_u32);
    let mut container = EmbeddedMutex::new(1_u32);
    let mut raw = Mutex::embedded(&mut container);

    let mut guard = boxed.try_lock().unwrap();
    let mut raw_guard = raw.try_lock().unwrap();
    assert_eq!(*guard, *raw_guard);
    assert!(boxed.try_lock().is_none() && raw.try_lock().is_none());

    let (mut first, mut second) = (boxed.lock(), boxed.lock());
    let (mut raw_first, mut raw_second) = (raw.lock(), raw.lock());
    assert!(first.poll(&mut boxed, noop()).is_pending());
    assert!(raw_first.poll(&mut raw, noop()).is_pending());
    assert!(second.poll(&mut boxed, noop()).is_pending());
    assert!(raw_second.poll(&mut raw, noop()).is_pending());

    *guard = 2;
    *raw_guard = 2;
    assert!(guard.unlock(&mut boxed).is_some());
    assert!(raw_guard.unlock(&mut raw).is_some());
    // The first future is dropped with its grant, which goes to the second.
    assert!(boxed.try_lock().is_none() && raw.try_lock().is_none());
    assert!(first.drop_lock_wait(&mut boxed).is_some());
    assert!(raw_first.drop_lock_wait(&mut raw).is_some());

    let Poll::Ready(guard) = second.poll(&mut boxed, noop()) else {
        panic!("expected Ready")
    };
    let Poll::Ready(raw_guard) = raw_second.poll(&mut raw, noop()) else {
        panic!("expected Ready")
    };
    assert_eq!((*guard, *raw_guard), (2, 2));
    assert!(guard.unlock(&mut boxed).is_none());
    assert!(raw_guard.unlock(&mut raw).is_none());
    assert_eq!(*boxed.try_lock().unwrap(), *raw.try_lock().unwrap());
}

#[test]
fn auto_reset_event_in_a_container_answers_as_one_of_its_own() {
    let mut boxed = AutoResetEvent::boxed();
    let mut container = EmbeddedAutoResetEvent::new();
    let mut raw = AutoResetEvent::embedded(&mut container);

    let (mut first, mut second) = (boxed.wait(), boxed.wait());
    let (mut raw_first, mut raw_second) = (raw.wait(), raw.wait());
    assert!(first.poll(&mut boxed, noop()).is_pending());
    assert!(raw_first.poll(&mut raw, noop()).is_pending());
    assert!(second.poll(&mut boxed, noop()).is_pending());
    assert!(raw_second.poll(&mut raw, noop()).is_pending());
    // The first is released and dropped: its signal goes to the second.
    assert!(boxed.set().is_some() && raw.set().is_some());
    assert!(first.drop_wait(&mut boxed).is_some());
    assert!(raw_first.drop_wait(&mut raw).is_some());
    assert!(boxed.set().is_none() && raw.set().is_none());
    assert!(second.poll(&mut boxed, noop()).is_ready());
    assert!(raw_second.poll(&mut raw, noop()).is_ready());
    assert!(boxed.try_wait() && raw.try_wait());
    assert!(!boxed.try_wait() && !raw.try_wait());
}

#[test]
fn manual_reset_event_in_a_container_answers_as_one_of_its_own() {
    let mut boxed = LocalManualResetEvent::boxed();
    let mut container = EmbeddedLocalManualResetEvent::new();
    let mut raw = LocalManualResetEvent::embedded(&mut container);

    let (mut first, mut second) = (boxed.wait(), boxed.wait());
    let (mut raw_first, mut raw_second) = (raw.wait(), raw.wait());
    assert!(first.poll(&mut boxed, noop()).is_pending());
    assert!(raw_first.poll(&mut raw, noop()).is_pending());
    assert!(second.poll(&mut boxed, noop()).is_pending());
    assert!(raw_second.poll(&mut raw, noop()).is_pending());
    first.drop_wait(&mut boxed);
    raw_first.drop_wait(&mut raw);
    assert_eq!((boxed.set().len(), raw.set().len()), (1, 1));
    assert_eq!((boxed.set().len(), raw.set().len()), (0, 0));
    boxed.reset();
    raw.reset();
    assert!(!boxed.try_wait() && !raw.try_wait());
    assert!(second.poll(&mut boxed, noop()).is_ready());
    assert!(raw_second.poll(&mut raw, noop()).is_ready());
}

#[test]
fn door_in_a_container_answers_as_one_of_its_own() {
    let mut boxed = ManualResetEvent::boxed();
    let mut container = EmbeddedManualResetEvent::new();
    let mut raw = ManualResetEvent::embedded(&mut container);

    let (mut wait, mut raw_wait) = (boxed.wait(), raw.wait());
    assert!(wait.poll(&mut boxed, noop()).is_pending());
    assert!(raw_wait.poll(&mut raw, noop()).is_pending());
    assert_eq!((boxed.set().len(), raw.set().len()), (1, 1));
    // The waiter was woken but did not look while the door was open.
    boxed.reset();
    raw.reset();
    assert!(wait.poll(&mut boxed, noop()).is_pending());
    assert!(raw_wait.poll(&mut raw, noop()).is_pending());
    assert_eq!((boxed.set().len(), raw.set().len()), (1, 1));
    assert!(wait.poll(&mut boxed, noop()).is_ready());
    assert!(raw_wait.poll(&mut raw, noop()).is_ready());
}

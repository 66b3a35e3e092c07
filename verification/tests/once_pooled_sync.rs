use std::sync::atomic::{AtomicBool, Ordering};
use std::sync::Arc;
use std::task::{Wake, Waker};

use events::disconnected::Disconnected;
use events::once::pooled_sync::OnceEventPool;
use events::waiters::Poll;

/// A waker that wakes no one.
fn noop() -> Waker {
    Waker::noop().clone()
}

/// A waker that remembers that it was woken.
struct Tracker(AtomicBool);

impl Tracker {
    fn new() -> Arc<Self> {
        Arc::new(Tracker(AtomicBool::new(false)))
    }

    fn was_woken(&self) -> bool {
        self.0.load(Ordering::SeqCst)
    }
}

impl Wake for Tracker {
    fn wake(self: Arc<Self>) {
        self.0.store(true, Ordering::SeqCst);
    }
}

#[test]
fn pooled_sync_event_pool_by_ref() {
    let mut pool = OnceEventPool::<i32>::new();
    assert_eq!(pool.len(), 0);
    assert!(pool.is_empty());
    let (sender, mut receiver) = pool.bind_by_ref();
    // The event is there while its endpoints are.
    assert_eq!(pool.len(), 1);
    assert!(!pool.is_empty());
    sender.send(&mut pool, 42);
    assert_eq!(receiver.poll(&mut pool, noop()), Poll::Ready(Ok(42)));
    receiver.drop_receiver(&mut pool);
    assert_eq!(pool.len(), 0);
    assert!(pool.is_empty());
}

#[test]
fn pooled_sync_pool_drop_cleanup() {
    let mut pool = OnceEventPool::<i32>::new();
    let (sender, receiver) = pool.bind_by_ref();
    sender.drop_sender(&mut pool);
    receiver.drop_receiver(&mut pool);
    assert!(pool.is_empty());
}

#[test]
fn pooled_sync_pool_multiple_events() {
    let mut pool = OnceEventPool::<i32>::new();
    let (sender1, mut receiver1) = pool.bind_by_ref();
    sender1.send(&mut pool, 1);
    assert_eq!(receiver1.poll(&mut pool, noop()), Poll::Ready(Ok(1)));
    let (sender2, mut receiver2) = pool.bind_by_ref();
    sender2.send(&mut pool, 2);
    assert_eq!(receiver2.poll(&mut pool, noop()), Poll::Ready(Ok(2)));
}

#[test]
fn event_pool_by_arc() {
    let mut pool = OnceEventPool::<i32>::new();
    assert_eq!(pool.len(), 0);
    assert!(pool.is_empty());
    let (sender, mut receiver) = pool.bind_by_arc();
    // The event is there while its endpoints are.
    assert_eq!(pool.len(), 1);
    assert!(!pool.is_empty());
    sender.send(&mut pool, 42);
    assert_eq!(receiver.poll(&mut pool, noop()), Poll::Ready(Ok(42)));
    receiver.drop_receiver(&mut pool);
    assert_eq!(pool.len(), 0);
    assert!(pool.is_empty());
}

#[test]
fn event_pool_by_ptr() {
    let mut pool = OnceEventPool::<i32>::new();
    assert_eq!(pool.len(), 0);
    assert!(pool.is_empty());
    let (sender, mut receiver) = pool.bind_by_ptr();
    // The event is there while its endpoints are.
    assert_eq!(pool.len(), 1);
    assert!(!pool.is_empty());
    sender.send(&mut pool, 42);
    assert_eq!(receiver.poll(&mut pool, noop()), Poll::Ready(Ok(42)));
    receiver.drop_receiver(&mut pool);
    assert_eq!(pool.len(), 0);
    assert!(pool.is_empty());
}

#[test]
fn by_ref_sender_drop_cleanup() {
    let mut pool = OnceEventPool::<i32>::new();
    let (sender, receiver) = pool.bind_by_ref();
    sender.drop_sender(&mut pool);
    receiver.drop_receiver(&mut pool);
    assert_eq!(pool.len(), 0);
    let (sender2, mut receiver2) = pool.bind_by_ref();
    sender2.send(&mut pool, 123);
    assert_eq!(receiver2.poll(&mut pool, noop()), Poll::Ready(Ok(123)));
}

#[test]
fn by_ref_receiver_drop_cleanup() {
    let mut pool = OnceEventPool::<i32>::new();
    let (sender, receiver) = pool.bind_by_ref();
    receiver.drop_receiver(&mut pool);
    sender.drop_sender(&mut pool);
    assert_eq!(pool.len(), 0);
    let (sender2, mut receiver2) = pool.bind_by_ref();
    sender2.send(&mut pool, 456);
    assert_eq!(receiver2.poll(&mut pool, noop()), Poll::Ready(Ok(456)));
}

#[test]
fn by_arc_sender_drop_cleanup() {
    let mut pool = OnceEventPool::<i32>::new();
    let (sender, receiver) = pool.bind_by_arc();
    sender.drop_sender(&mut pool);
    receiver.drop_receiver(&mut pool);
    assert_eq!(pool.len(), 0);
    let (sender2, mut receiver2) = pool.bind_by_arc();
    sender2.send(&mut pool, 654);
    assert_eq!(receiver2.poll(&mut pool, noop()), Poll::Ready(Ok(654)));
}

#[test]
fn by_arc_receiver_drop_cleanup() {
    let mut pool = OnceEventPool::<i32>::new();
    let (sender, receiver) = pool.bind_by_arc();
    receiver.drop_receiver(&mut pool);
    sender.drop_sender(&mut pool);
    assert_eq!(pool.len(), 0);
    let (sender2, mut receiver2) = pool.bind_by_arc();
    sender2.send(&mut pool, 987);
    assert_eq!(receiver2.poll(&mut pool, noop()), Poll::Ready(Ok(987)));
}

#[test]
fn by_ptr_sender_drop_cleanup() {
    let mut pool = OnceEventPool::<i32>::new();
    let (sender, receiver) = pool.bind_by_ptr();
    sender.drop_sender(&mut pool);
    receiver.drop_receiver(&mut pool);
    assert_eq!(pool.len(), 0);
    let (sender2, mut receiver2) = pool.bind_by_ptr();
    sender2.send(&mut pool, 147);
    assert_eq!(receiver2.poll(&mut pool, noop()), Poll::Ready(Ok(147)));
}

#[test]
fn by_ptr_receiver_drop_cleanup() {
    let mut pool = OnceEventPool::<i32>::new();
    let (sender, receiver) = pool.bind_by_ptr();
    receiver.drop_receiver(&mut pool);
    sender.drop_sender(&mut pool);
    assert_eq!(pool.len(), 0);
    let (sender2, mut receiver2) = pool.bind_by_ptr();
    sender2.send(&mut pool, 258);
    assert_eq!(receiver2.poll(&mut pool, noop()), Poll::Ready(Ok(258)));
}

#[test]
fn dec_ref_and_cleanup_is_called() {
    let mut pool = OnceEventPool::<i32>::new();
    for _ in 0..5 {
        let (sender, receiver) = pool.bind_by_ref();
        sender.drop_sender(&mut pool);
        receiver.drop_receiver(&mut pool);
    }
    let (sender, mut receiver) = pool.bind_by_ref();
    sender.send(&mut pool, 999);
    assert_eq!(receiver.poll(&mut pool, noop()), Poll::Ready(Ok(999)));
}

#[test]
fn pool_cleanup_verified_by_capacity() {
    let mut pool = OnceEventPool::<i32>::new();
    for i in 0..10 {
        let (sender, mut receiver) = pool.bind_by_ref();
        if i % 2 == 0 {
            sender.drop_sender(&mut pool);
            receiver.drop_receiver(&mut pool);
        } else {
            sender.send(&mut pool, i);
            assert_eq!(receiver.poll(&mut pool, noop()), Poll::Ready(Ok(i)));
        }
    }
    let (sender, mut receiver) = pool.bind_by_ref();
    sender.send(&mut pool, 42);
    assert_eq!(receiver.poll(&mut pool, noop()), Poll::Ready(Ok(42)));
}

#[test]
fn pool_stress_test_no_leak() {
    let mut pool = OnceEventPool::<u64>::new();
    for _ in 0..100 {
        let (sender, receiver) = pool.bind_by_ref();
        sender.drop_sender(&mut pool);
        receiver.drop_receiver(&mut pool);
    }
    let (sender, mut receiver) = pool.bind_by_ref();
    sender.send(&mut pool, 999);
    assert_eq!(receiver.poll(&mut pool, noop()), Poll::Ready(Ok(999)));
}

#[test]
fn by_ref_drop_actually_cleans_up_pool() {
    let mut pool = OnceEventPool::<u32>::new();
    for _ in 0..100 {
        let (sender, receiver) = pool.bind_by_ref();
        sender.drop_sender(&mut pool);
        receiver.drop_receiver(&mut pool);
    }
    assert_eq!(pool.len(), 0, "Pool still contains unused events");
    pool.shrink_to_fit();
    assert_eq!(pool.capacity(), 0, "Empty pool should shrink to capacity 0");
}

#[test]
fn by_arc_drop_actually_cleans_up_pool() {
    let mut pool = OnceEventPool::<u32>::new();
    for _ in 0..100 {
        let (sender, receiver) = pool.bind_by_arc();
        sender.drop_sender(&mut pool);
        receiver.drop_receiver(&mut pool);
    }
    assert_eq!(pool.len(), 0, "Pool still contains unused events");
    pool.shrink_to_fit();
    assert_eq!(pool.capacity(), 0, "Empty pool should shrink to capacity 0");
}

#[test]
fn by_ptr_drop_actually_cleans_up_pool() {
    for _ in 0..10 {
        let mut pool = OnceEventPool::<u32>::new();
        let (sender, receiver) = pool.bind_by_ptr();
        sender.drop_sender(&mut pool);
        receiver.drop_receiver(&mut pool);
        assert_eq!(pool.len(), 0);
    }
}

#[test]
fn dec_ref_and_cleanup_actually_removes_events() {
    let mut pool = OnceEventPool::<u32>::new();
    let pool_len_before = pool.len();
    let (sender, receiver) = pool.bind_by_ref();
    sender.drop_sender(&mut pool);
    receiver.drop_receiver(&mut pool);
    let pool_len_after = pool.len();
    assert_eq!(pool_len_after, pool_len_before, "Pool not cleaned up after dropping events");
}

#[test]
fn pooled_sync_shrink_to_fit_with_empty_pool_shrinks_to_zero() {
    let mut pool = OnceEventPool::<u32>::new();
    for _ in 0..10 {
        let (sender, receiver) = pool.bind_by_ref();
        sender.drop_sender(&mut pool);
        receiver.drop_receiver(&mut pool);
    }
    assert_eq!(pool.len(), 0);
    assert!(pool.is_empty());
    pool.shrink_to_fit();
    assert_eq!(pool.capacity(), 0, "Empty pool should shrink to capacity 0");
}

#[test]
fn pooled_sync_event_removed_from_pool_after_endpoints_immediate_drop() {
    let mut pool = OnceEventPool::<u32>::new();
    let (sender, receiver) = pool.bind_by_ref();
    sender.drop_sender(&mut pool);
    receiver.drop_receiver(&mut pool);
    assert_eq!(pool.len(), 0);
    assert!(pool.is_empty());
}

#[test]
fn pooled_sync_pool_len_and_is_empty_methods() {
    let mut pool = OnceEventPool::<u32>::new();
    assert_eq!(pool.len(), 0);
    assert!(pool.is_empty());
    let (sender1, receiver1) = pool.bind_by_ref();
    assert_eq!(pool.len(), 1);
    assert!(!pool.is_empty());
    let (sender2, receiver2) = pool.bind_by_ref();
    assert_eq!(pool.len(), 2);
    assert!(!pool.is_empty());
    sender1.drop_sender(&mut pool);
    receiver1.drop_receiver(&mut pool);
    assert_eq!(pool.len(), 1);
    assert!(!pool.is_empty());
    sender2.drop_sender(&mut pool);
    receiver2.drop_receiver(&mut pool);
    assert_eq!(pool.len(), 0);
    assert!(pool.is_empty());
}

#[test]
fn pooled_event_receiver_gets_disconnected_when_sender_dropped() {
    let mut pool = OnceEventPool::<i32>::new();
    let (sender, mut receiver) = pool.bind_by_ref();
    assert!(sender.drop_sender(&mut pool).is_none());
    assert_eq!(receiver.poll(&mut pool, noop()), Poll::Ready(Err(Disconnected)));
    assert!(pool.is_empty());
}

#[test]
fn pooled_event_by_arc_receiver_gets_disconnected_when_sender_dropped() {
    let mut pool = OnceEventPool::<i32>::new();
    let (sender, mut receiver) = pool.bind_by_arc();
    assert!(sender.drop_sender(&mut pool).is_none());
    assert_eq!(receiver.poll(&mut pool, noop()), Poll::Ready(Err(Disconnected)));
    assert!(pool.is_empty());
}

#[test]
fn pooled_event_by_ptr_receiver_gets_disconnected_when_sender_dropped() {
    let mut pool = OnceEventPool::<i32>::new();
    let (sender, mut receiver) = pool.bind_by_ptr();
    assert!(sender.drop_sender(&mut pool).is_none());
    assert_eq!(receiver.poll(&mut pool, noop()), Poll::Ready(Err(Disconnected)));
    assert!(pool.is_empty());
}

#[test]
fn pooled_sender_dropped_when_awaiting_signals_disconnected() {
    let mut pool = OnceEventPool::<i32>::new();
    let (sender, mut receiver) = pool.bind_by_ref();
    let tracker = Tracker::new();
    assert_eq!(receiver.poll(&mut pool, Waker::from(Arc::clone(&tracker))), Poll::Pending);
    sender.drop_sender(&mut pool).unwrap().wake();
    assert!(tracker.was_woken());
    assert_eq!(receiver.poll(&mut pool, noop()), Poll::Ready(Err(Disconnected)));
}

#[test]
fn pooled_sync_inspect_awaiters_empty_pool() {
    let pool = OnceEventPool::<i32>::new();
    let mut count = 0;
    pool.inspect_awaiters(|_| {
        count += 1;
    });
    assert_eq!(count, 0);
}

#[test]
fn pooled_sync_inspect_awaiters_no_awaiters() {
    let mut pool = OnceEventPool::<String>::new();
    let (_sender1, _receiver1) = pool.bind_by_ref();
    let (_sender2, _receiver2) = pool.bind_by_ref();
    let mut count = 0;
    pool.inspect_awaiters(|_| {
        count += 1;
    });
    assert_eq!(count, 2);
}

#[test]
fn pooled_sync_inspect_awaiters_with_awaiters() {
    let mut pool = OnceEventPool::<i32>::new();
    let (_sender1, mut receiver1) = pool.bind_by_ref();
    let (_sender2, mut receiver2) = pool.bind_by_ref();
    let _ = receiver1.poll(&mut pool, noop());
    let _ = receiver2.poll(&mut pool, noop());
    let mut count = 0;
    pool.inspect_awaiters(|_| {
        count += 1;
    });
    assert_eq!(count, 2);
}

#[test]
fn pooled_receiver_into_value_with_sent_value() {
    let mut pool = OnceEventPool::<String>::new();
    let (sender, receiver) = pool.bind_by_arc();
    sender.send(&mut pool, "test value".to_string());
    assert_eq!(receiver.into_value(&mut pool), Some("test value".to_string()));
    assert!(pool.is_empty());
}

#[test]
fn pooled_receiver_into_value_no_value_sent() {
    let mut pool = OnceEventPool::<i32>::new();
    let (_sender, receiver) = pool.bind_by_arc();
    assert_eq!(receiver.into_value(&mut pool), None);
    // The event stays for the sender.
    assert_eq!(pool.len(), 1);
}

#[test]
fn pooled_receiver_into_value_sender_disconnected() {
    let mut pool = OnceEventPool::<String>::new();
    let (sender, receiver) = pool.bind_by_arc();
    sender.drop_sender(&mut pool);
    assert_eq!(receiver.into_value(&mut pool), None);
    assert!(pool.is_empty());
}

#[test]
fn pooled_receiver_into_value_with_ref_pool() {
    let mut pool = OnceEventPool::<i32>::new();
    let (sender, receiver) = pool.bind_by_ref();
    sender.send(&mut pool, 42);
    assert_eq!(receiver.into_value(&mut pool), Some(42));
    assert!(pool.is_empty());
}

#[test]
fn pooled_receiver_into_value_with_arc_pool() {
    let mut pool = OnceEventPool::<String>::new();
    let (sender, receiver) = pool.bind_by_arc();
    sender.send(&mut pool, "arc test".to_string());
    assert_eq!(receiver.into_value(&mut pool), Some("arc test".to_string()));
    assert!(pool.is_empty());
}

#[test]
fn pooled_receiver_into_value_with_ptr_pool() {
    let mut pool = OnceEventPool::<i32>::new();
    let (sender, receiver) = pool.bind_by_ptr();
    sender.send(&mut pool, 999);
    assert_eq!(receiver.into_value(&mut pool), Some(999));
    assert!(pool.is_empty());
}

#[test]
fn pooled_receiver_into_value_returns_none_after_poll() {
    let mut pool = OnceEventPool::<i32>::new();
    let (sender, mut receiver) = pool.bind_by_arc();
    sender.send(&mut pool, 42);
    assert_eq!(receiver.poll(&mut pool, noop()), Poll::Ready(Ok(42)));
    assert_eq!(receiver.into_value(&mut pool), None);
}

#[test]
fn pooled_receiver_into_value_pool_reuse() {
    let mut pool = OnceEventPool::<i32>::new();
    let (sender1, receiver1) = pool.bind_by_arc();
    sender1.send(&mut pool, 123);
    assert_eq!(receiver1.into_value(&mut pool), Some(123));
    let (sender2, receiver2) = pool.bind_by_arc();
    sender2.send(&mut pool, 456);
    assert_eq!(receiver2.into_value(&mut pool), Some(456));
}

#[test]
fn pooled_receiver_into_value_multiple_event_types() {
    let mut pool1 = OnceEventPool::<()>::new();
    let (sender1, receiver1) = pool1.bind_by_arc();
    sender1.send(&mut pool1, ());
    assert_eq!(receiver1.into_value(&mut pool1), Some(()));
    let mut pool2 = OnceEventPool::<Vec<i32>>::new();
    let (sender2, receiver2) = pool2.bind_by_arc();
    sender2.send(&mut pool2, vec![1, 2, 3]);
    assert_eq!(receiver2.into_value(&mut pool2), Some(vec![1, 2, 3]));
    let mut pool3 = OnceEventPool::<Option<String>>::new();
    let (sender3, receiver3) = pool3.bind_by_arc();
    sender3.send(&mut pool3, Some("nested option".to_string()));
    assert_eq!(receiver3.into_value(&mut pool3), Some(Some("nested option".to_string())));
}

#[test]
fn pooled_late_value_is_dropped_with_the_event() {
    let value = Arc::new(1);
    let mut pool = OnceEventPool::<Arc<i32>>::default();
    let (sender, receiver) = pool.bind_by_ref();
    receiver.drop_receiver(&mut pool);
    assert_eq!(pool.len(), 1);
    assert!(sender.send(&mut pool, Arc::clone(&value)).is_none());
    assert_eq!(pool.len(), 0);
    assert_eq!(Arc::strong_count(&value), 1);
}

#[test]
fn pooled_inspect_tells_who_has_looked() {
    let mut pool = OnceEventPool::<i32>::new();
    let (_sender1, mut receiver1) = pool.bind_by_ref();
    let (_sender2, _receiver2) = pool.bind_by_ref();
    let (_sender3, _receiver3) = pool.bind_by_ref();
    assert_eq!(receiver1.poll(&mut pool, noop()), Poll::Pending);
    let mut looked = 0;
    let mut not_looked = 0;
    pool.inspect_awaiters(|backtrace| {
        if backtrace.is_some() {
            looked += 1;
        } else {
            not_looked += 1;
        }
    });
    assert_eq!(looked, 1);
    assert_eq!(not_looked, 2);
}

#[test]
fn pooled_backtraces_are_those_of_the_most_recent_awaiters() {
    let mut pool = OnceEventPool::<i32>::new();
    let (_sender1, mut receiver1) = pool.bind_by_ref();
    let (_sender2, _receiver2) = pool.bind_by_ref();
    assert_eq!(receiver1.poll(&mut pool, noop()), Poll::Pending);
    receiver1.drop_receiver(&mut pool);
    let backtraces = pool.awaiter_backtraces();
    assert_eq!(backtraces.len(), 2);
    assert_eq!(backtraces.iter().filter(|backtrace| backtrace.is_some()).count(), 1);
}

#[test]
fn pooled_vacated_events_are_reused() {
    let mut pool = OnceEventPool::<i32>::new();
    let (sender, receiver) = pool.bind_by_ref();
    sender.drop_sender(&mut pool);
    receiver.drop_receiver(&mut pool);
    let capacity = pool.capacity();
    for _ in 0..1000 {
        let (sender, receiver) = pool.bind_by_ref();
        receiver.drop_receiver(&mut pool);
        sender.drop_sender(&mut pool);
    }
    assert_eq!(pool.capacity(), capacity);
}

#[test]
fn pooled_inspect_hands_out_none_for_each_event_that_was_never_awaited() {
    let mut pool = OnceEventPool::<String>::new();
    let (_s1, _r1) = pool.bind_by_ref();
    let (_s2, _r2) = pool.bind_by_ref();
    let mut seen = Vec::new();
    pool.inspect_awaiters(|backtrace| seen.push(backtrace.is_none()));
    assert_eq!(seen, vec![true, true]);
}

#[test]
fn pooled_shrink_keeps_events_behind_places_that_are_free() {
    let mut pool = OnceEventPool::<u32>::new();
    let (sender1, receiver1) = pool.bind_by_ref();
    let (sender2, mut receiver2) = pool.bind_by_ref();
    let (sender3, receiver3) = pool.bind_by_ref();
    sender1.drop_sender(&mut pool);
    receiver1.drop_receiver(&mut pool);
    sender3.drop_sender(&mut pool);
    receiver3.drop_receiver(&mut pool);
    pool.shrink_to_fit();
    assert_eq!(pool.len(), 1);
    sender2.send(&mut pool, 2);
    assert_eq!(receiver2.poll(&mut pool, noop()), Poll::Ready(Ok(2)));
    assert_eq!(pool.len(), 0);
    let (sender4, mut receiver4) = pool.bind_by_ref();
    sender4.send(&mut pool, 4);
    assert_eq!(receiver4.poll(&mut pool, noop()), Poll::Ready(Ok(4)));
}

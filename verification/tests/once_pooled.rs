use std::task::Waker;

use events::once::pooled::EventPool;
use events::once::ref_count::{WithRefCount, WithTwoOwners};
use events::waiters::Poll;

/// A waker that wakes no one.
fn noop() -> Waker {
    Waker::noop().clone()
}

#[test]
fn pooled_with_ref_count_basic() {
    let mut wrapper = WithRefCount::new(42);
    assert_eq!(*wrapper.get(), 42);
    assert_eq!(wrapper.ref_count(), 0);
    assert!(!wrapper.is_referenced());
    wrapper.inc_ref();
    assert_eq!(wrapper.ref_count(), 1);
    assert!(wrapper.is_referenced());
    wrapper.dec_ref();
    assert_eq!(wrapper.ref_count(), 0);
    assert!(!wrapper.is_referenced());
}

#[test]
fn pooled_event_pool_by_ref() {
    let mut pool = EventPool::<i32>::new();
    let (sender, mut receiver) = pool.by_ref();
    sender.send(&mut pool, 42);
    assert_eq!(receiver.poll(&mut pool, noop()), Poll::Ready(42));
}

#[test]
fn event_pool_async() {
    let mut pool = EventPool::<i32>::new();
    let (sender, mut receiver) = pool.by_ref();
    // The receiver waits first and is woken.
    assert_eq!(receiver.poll(&mut pool, noop()), Poll::Pending);
    assert!(sender.send(&mut pool, 42).is_some());
    assert_eq!(receiver.poll(&mut pool, noop()), Poll::Ready(42));
}

#[test]
fn pooled_pool_drop_cleanup() {
    let mut pool = EventPool::<i32>::new();
    let (sender, receiver) = pool.by_ref();
    sender.drop_sender(&mut pool);
    receiver.drop_receiver(&mut pool);
}

#[test]
fn pooled_pool_multiple_events() {
    let mut pool = EventPool::<i32>::new();
    let (sender1, mut receiver1) = pool.by_ref();
    sender1.send(&mut pool, 1);
    assert_eq!(receiver1.poll(&mut pool, noop()), Poll::Ready(1));
    let (sender2, mut receiver2) = pool.by_ref();
    sender2.send(&mut pool, 2);
    assert_eq!(receiver2.poll(&mut pool, noop()), Poll::Ready(2));
}

#[test]
fn event_pool_endpoints_of_every_kind_pass_the_value() {
    let mut pool = EventPool::<i32>::default();
    let (sender, mut receiver) = pool.by_rc();
    sender.send(&mut pool, 1);
    assert_eq!(receiver.poll(&mut pool, noop()), Poll::Ready(1));
    let (sender, mut receiver) = pool.by_arc();
    sender.send(&mut pool, 2);
    assert_eq!(receiver.poll(&mut pool, noop()), Poll::Ready(2));
    let (sender, mut receiver) = pool.by_ptr();
    sender.send(&mut pool, 3);
    assert_eq!(receiver.poll(&mut pool, noop()), Poll::Ready(3));
    let (sender, mut receiver) = pool.bind_by_ref();
    sender.send(&mut pool, 4);
    assert_eq!(receiver.poll(&mut pool, noop()), Poll::Ready(Ok(4)));
    let (sender, mut receiver) = pool.bind_by_rc();
    sender.send(&mut pool, 5);
    assert_eq!(receiver.poll(&mut pool, noop()), Poll::Ready(Ok(5)));
}

#[test]
fn event_pool_keys_tell_events_apart() {
    let mut pool = EventPool::<i32>::new();
    let (sender1, receiver1) = pool.bind_by_ref();
    let (sender2, mut receiver2) = pool.bind_by_ref();
    assert_ne!(sender1.key(), sender2.key());
    sender1.drop_sender(&mut pool);
    receiver1.drop_receiver(&mut pool);
    sender2.send(&mut pool, 9);
    assert_eq!(receiver2.poll(&mut pool, noop()), Poll::Ready(Ok(9)));
}

#[test]
fn with_ref_count_does_not_fall_below_zero() {
    let mut wrapper = WithRefCount::<u8>::default();
    wrapper.dec_ref();
    assert_eq!(wrapper.ref_count(), 0);
    *wrapper.get_mut() = 3;
    assert_eq!(*wrapper.get(), 3);
}

#[test]
fn with_two_owners_is_released_by_the_second() {
    let mut shared = WithTwoOwners::new(1);
    *shared.get_mut() = 2;
    assert_eq!(*shared.get(), 2);
    assert!(!shared.release_one());
    assert!(shared.release_one());
}

use std::cell::RefCell;
use std::rc::Rc;
use std::sync::atomic::{AtomicBool, Ordering};
use std::sync::Arc;
use std::task::{Wake, Waker};

use events::disconnected::Disconnected;
use events::once::local::LocalOnceEvent;
use events::waiters::Poll;

/// A waker that wakes no one.
fn noop() -> Waker {
    Waker::noop().clone()
}

/// A waker that remembers that it was woken.
struct Tracker(AtomicBool);

impl Tracker {
    fn new() -> Arc<Self> {
        Arc::new(Tracker(AtomicBool::new(false)))
    }

    fn was_woken(&self) -> bool {
        self.0.load(Ordering::SeqCst)
    }
}

impl Wake for Tracker {
    fn wake(self: Arc<Self>) {
        self.0.store(true, Ordering::SeqCst);
    }
}

#[test]
fn local_event_default_creates_valid_event() {
    let mut event = LocalOnceEvent::<String>::default();
    let (sender, mut receiver) = event.bind_by_ref();
    let sent = sender.send(&mut event, "test".to_string());
    assert!(!sent.release);
    let got = receiver.poll(&mut event, noop());
    assert_eq!(got.outcome, Poll::Ready(Ok("test".to_string())));
    assert!(!got.release);
}

#[test]
fn local_event_by_ref_works() {
    let mut event = LocalOnceEvent::<u64>::new();
    let (sender, mut receiver) = event.bind_by_ref();
    assert!(!receiver.is_ready(&event));
    sender.send(&mut event, 123);
    assert!(receiver.is_ready(&event));
    assert_eq!(receiver.poll(&mut event, noop()).outcome, Poll::Ready(Ok(123)));
}

#[test]
fn local_event_by_ref_checked_returns_none_after_use() {
    let mut event = LocalOnceEvent::<i32>::new();
    let endpoints1 = event.bind_by_ref_checked();
    assert!(endpoints1.is_some());
    let endpoints2 = event.bind_by_ref_checked();
    assert!(endpoints2.is_none());
}

#[test]
fn local_event_by_ref_unchecked_works() {
    let mut event = LocalOnceEvent::<i32>::new();
    let (sender, mut receiver) = event.bind_by_ref_unchecked();
    let sent = sender.send(&mut event, 42);
    assert!(!sent.release);
    let got = receiver.poll(&mut event, noop());
    assert_eq!(got.outcome, Poll::Ready(Ok(42)));
    assert!(!got.release);
}

#[test]
fn local_event_send_succeeds_without_receiver() {
    let mut event = LocalOnceEvent::<i32>::new();
    let (sender, _receiver) = event.bind_by_ref();
    let sent = sender.send(&mut event, 42);
    assert!(sent.waker.is_none());
}

#[test]
fn local_event_works_in_rc() {
    let event = Rc::new(RefCell::new(LocalOnceEvent::<String>::new()));
    let (sender, mut receiver) = event.borrow_mut().bind_by_ref();
    sender.send(&mut event.borrow_mut(), "Hello from Rc".to_string());
    let got = receiver.poll(&mut event.borrow_mut(), noop());
    assert_eq!(got.outcome, Poll::Ready(Ok("Hello from Rc".to_string())));
}

#[test]
fn local_event_by_rc_basic() {
    let mut event = LocalOnceEvent::<i32>::new();
    let (sender, mut receiver) = event.bind_by_rc();
    let sent = sender.send(&mut event, 42);
    assert!(!sent.release);
    let got = receiver.poll(&mut event, noop());
    assert_eq!(got.outcome, Poll::Ready(Ok(42)));
    assert!(!got.release);
}

#[test]
fn local_event_by_rc_checked_returns_none_after_use() {
    let mut event = LocalOnceEvent::<i32>::new();
    let endpoints1 = event.bind_by_rc_checked();
    assert!(endpoints1.is_some());
    let endpoints2 = event.bind_by_rc_checked();
    assert!(endpoints2.is_none());
}

#[test]
fn local_event_by_rc_unchecked_works() {
    let mut event = LocalOnceEvent::<String>::new();
    let (sender, mut receiver) = event.bind_by_rc_unchecked();
    let sent = sender.send(&mut event, "Hello from Rc unchecked".to_string());
    assert!(!sent.release);
    let got = receiver.poll(&mut event, noop());
    assert_eq!(got.outcome, Poll::Ready(Ok("Hello from Rc unchecked".to_string())));
    assert!(!got.release);
}

#[test]
fn local_event_by_rc_string() {
    let mut event = LocalOnceEvent::<String>::new();
    let (sender, mut receiver) = event.bind_by_rc();
    let sent = sender.send(&mut event, "Hello from Rc".to_string());
    assert!(!sent.release);
    let got = receiver.poll(&mut event, noop());
    assert_eq!(got.outcome, Poll::Ready(Ok("Hello from Rc".to_string())));
    assert!(!got.release);
}

#[test]
fn local_event_by_ptr_basic() {
    let mut event = LocalOnceEvent::<String>::new();
    let (sender, mut receiver) = event.bind_by_ptr();
    let sent = sender.send(&mut event, "Hello from pointer".to_string());
    assert!(!sent.release);
    let got = receiver.poll(&mut event, noop());
    assert_eq!(got.outcome, Poll::Ready(Ok("Hello from pointer".to_string())));
    assert!(!got.release);
}

#[test]
fn local_event_by_ptr_checked_returns_none_after_use() {
    let mut event = LocalOnceEvent::<String>::new();
    let endpoints1 = event.bind_by_ptr_checked();
    assert!(endpoints1.is_some());
    let endpoints2 = event.bind_by_ptr_checked();
    assert!(endpoints2.is_none());
}

#[test]
fn local_event_by_ptr_unchecked_works() {
    let mut event = LocalOnceEvent::<String>::new();
    let (sender, mut receiver) = event.bind_by_ptr_unchecked();
    let sent = sender.send(&mut event, "Hello from pointer unchecked".to_string());
    assert!(!sent.release);
    let got = receiver.poll(&mut event, noop());
    assert_eq!(got.outcome, Poll::Ready(Ok("Hello from pointer unchecked".to_string())));
    assert!(!got.release);
}

#[test]
fn local_event_receiver_gets_disconnected_when_sender_dropped() {
    let mut event = LocalOnceEvent::<i32>::new();
    let (sender, mut receiver) = event.bind_by_ref();
    sender.drop_sender(&mut event);
    assert_eq!(receiver.poll(&mut event, noop()).outcome, Poll::Ready(Err(Disconnected)));
}

#[test]
fn local_sender_dropped_when_awaiting_signals_disconnected() {
    let mut event = LocalOnceEvent::<i32>::new();
    let (sender, mut receiver) = event.bind_by_ref();
    let tracker = Tracker::new();
    assert_eq!(receiver.poll(&mut event, Waker::from(Arc::clone(&tracker))).outcome, Poll::Pending);
    let gone = sender.drop_sender(&mut event);
    gone.waker.unwrap().wake();
    assert!(tracker.was_woken());
    assert_eq!(receiver.poll(&mut event, noop()).outcome, Poll::Ready(Err(Disconnected)));
}

#[test]
fn local_inspect_awaiter_no_awaiter() {
    let mut event = LocalOnceEvent::<i32>::new();
    let (_sender, _receiver) = event.bind_by_ref();
    let mut called = false;
    event.inspect_awaiter(|backtrace| {
        called = true;
        assert!(backtrace.is_none());
    });
    assert!(called);
}

#[test]
fn local_inspect_awaiter_with_awaiter() {
    let mut event = LocalOnceEvent::<String>::new();
    let (_sender, mut receiver) = event.bind_by_ref();
    let _ = receiver.poll(&mut event, noop());
    let mut called = false;
    event.inspect_awaiter(|backtrace| {
        called = true;
        assert!(backtrace.is_some());
    });
    assert!(called);
}

#[test]
fn local_inspect_awaiter_after_completion() {
    let mut event = LocalOnceEvent::<i32>::new();
    let (sender, receiver) = event.bind_by_ref();
    sender.send(&mut event, 42);
    receiver.drop_receiver(&mut event);
    let mut called = false;
    event.inspect_awaiter(|backtrace| {
        called = true;
        assert!(backtrace.is_none());
    });
    assert!(called);
}

#[test]
fn local_event_new_managed_basic() {
    let (mut event, sender, mut receiver) = LocalOnceEvent::<String>::new_managed();
    let sent = sender.send(&mut event, "Hello from heap!".to_string());
    assert!(!sent.release);
    let got = receiver.poll(&mut event, noop());
    assert_eq!(got.outcome, Poll::Ready(Ok("Hello from heap!".to_string())));
    // The receiver is the last endpoint.
    assert!(got.release);
}

#[test]
fn local_event_new_managed_without_receiver() {
    let (mut event, sender, receiver) = LocalOnceEvent::<i32>::new_managed();
    assert!(!receiver.drop_receiver(&mut event));
    // The sender is the last endpoint.
    let sent = sender.send(&mut event, 42);
    assert!(sent.waker.is_none());
    assert!(sent.release);
}

#[test]
fn local_event_new_managed_receiver_gets_disconnected_when_sender_dropped() {
    let (mut event, sender, mut receiver) = LocalOnceEvent::<i32>::new_managed();
    assert!(!sender.drop_sender(&mut event).release);
    let got = receiver.poll(&mut event, noop());
    assert_eq!(got.outcome, Poll::Ready(Err(Disconnected)));
    assert!(got.release);
}

#[test]
fn local_event_new_managed_different_types() {
    let (mut event1, sender1, mut receiver1) = LocalOnceEvent::<u64>::new_managed();
    let (mut event2, sender2, mut receiver2) = LocalOnceEvent::<Vec<String>>::new_managed();
    sender1.send(&mut event1, 12345);
    sender2.send(&mut event2, vec!["hello".to_string(), "world".to_string()]);
    assert_eq!(receiver1.poll(&mut event1, noop()).outcome, Poll::Ready(Ok(12345)));
    assert_eq!(
        receiver2.poll(&mut event2, noop()).outcome,
        Poll::Ready(Ok(vec!["hello".to_string(), "world".to_string()]))
    );
}

#[test]
fn local_event_new_in_place_by_ptr_basic() {
    let mut storage: Option<LocalOnceEvent<String>> = None;
    let (sender, mut receiver) = LocalOnceEvent::new_in_place_by_ptr(&mut storage);
    let event = storage.as_mut().unwrap();
    sender.send(event, "Hello from in-place!".to_string());
    assert_eq!(receiver.poll(event, noop()).outcome, Poll::Ready(Ok("Hello from in-place!".to_string())));
}

#[test]
fn local_event_new_in_place_by_ptr_without_receiver() {
    let mut storage: Option<LocalOnceEvent<i32>> = None;
    let (sender, _receiver) = LocalOnceEvent::new_in_place_by_ptr(&mut storage);
    let sent = sender.send(storage.as_mut().unwrap(), 42);
    assert!(!sent.release);
}

#[test]
fn local_event_new_in_place_by_ptr_receiver_gets_disconnected_when_sender_dropped() {
    let mut storage: Option<LocalOnceEvent<i32>> = None;
    let (sender, mut receiver) = LocalOnceEvent::new_in_place_by_ptr(&mut storage);
    let event = storage.as_mut().unwrap();
    sender.drop_sender(event);
    assert_eq!(receiver.poll(event, noop()).outcome, Poll::Ready(Err(Disconnected)));
}

#[test]
fn local_event_new_in_place_by_ptr_different_types() {
    let mut storage1: Option<LocalOnceEvent<u64>> = None;
    let mut storage2: Option<LocalOnceEvent<Vec<i32>>> = None;
    let (sender1, mut receiver1) = LocalOnceEvent::new_in_place_by_ptr(&mut storage1);
    let (sender2, mut receiver2) = LocalOnceEvent::new_in_place_by_ptr(&mut storage2);
    let event1 = storage1.as_mut().unwrap();
    let event2 = storage2.as_mut().unwrap();
    sender1.send(event1, 98765);
    sender2.send(event2, vec![1, 2, 3, 4, 5]);
    assert_eq!(receiver1.poll(event1, noop()).outcome, Poll::Ready(Ok(98765)));
    assert_eq!(receiver2.poll(event2, noop()).outcome, Poll::Ready(Ok(vec![1, 2, 3, 4, 5])));
}

#[test]
fn local_receiver_into_value_with_sent_value() {
    let (mut event, sender, receiver) = LocalOnceEvent::<String>::new_managed();
    sender.send(&mut event, "test value".to_string());
    let got = receiver.into_value(&mut event);
    assert_eq!(got.outcome, Some("test value".to_string()));
    assert!(got.release);
}

#[test]
fn local_receiver_into_value_no_value_sent() {
    let (mut event, _sender, receiver) = LocalOnceEvent::<i32>::new_managed();
    let got = receiver.into_value(&mut event);
    assert_eq!(got.outcome, None);
    assert!(!got.release);
}

#[test]
fn local_receiver_into_value_sender_disconnected() {
    let (mut event, sender, receiver) = LocalOnceEvent::<String>::new_managed();
    sender.drop_sender(&mut event);
    let got = receiver.into_value(&mut event);
    assert_eq!(got.outcome, None);
    assert!(got.release);
}

#[test]
fn local_receiver_into_value_with_ref_event() {
    let mut event = LocalOnceEvent::<i32>::new();
    let (sender, receiver) = event.bind_by_ref();
    sender.send(&mut event, 42);
    assert_eq!(receiver.into_value(&mut event).outcome, Some(42));
}

#[test]
fn local_receiver_into_value_with_rc_event() {
    let mut event = LocalOnceEvent::<String>::new();
    let (sender, receiver) = event.bind_by_rc();
    sender.send(&mut event, "rc test".to_string());
    assert_eq!(receiver.into_value(&mut event).outcome, Some("rc test".to_string()));
}

#[test]
fn local_receiver_into_value_with_ptr_event() {
    let mut event = LocalOnceEvent::<i32>::new();
    let (sender, receiver) = event.bind_by_ptr();
    sender.send(&mut event, 999);
    assert_eq!(receiver.into_value(&mut event).outcome, Some(999));
}

#[test]
fn local_receiver_into_value_multiple_event_types() {
    let (mut event1, sender1, receiver1) = LocalOnceEvent::<()>::new_managed();
    sender1.send(&mut event1, ());
    assert_eq!(receiver1.into_value(&mut event1).outcome, Some(()));
    let (mut event2, sender2, receiver2) = LocalOnceEvent::<Vec<i32>>::new_managed();
    sender2.send(&mut event2, vec![1, 2, 3]);
    assert_eq!(receiver2.into_value(&mut event2).outcome, Some(vec![1, 2, 3]));
    let (mut event3, sender3, receiver3) = LocalOnceEvent::<Option<String>>::new_managed();
    sender3.send(&mut event3, Some("nested option".to_string()));
    assert_eq!(
        receiver3.into_value(&mut event3).outcome,
        Some(Some("nested option".to_string()))
    );
}

#[test]
fn local_event_latest_waker_is_woken() {
    let mut event = LocalOnceEvent::<i32>::new();
    let (sender, mut receiver) = event.bind_by_ref();
    let first = Tracker::new();
    let second = Tracker::new();
    assert_eq!(receiver.poll(&mut event, Waker::from(Arc::clone(&first))).outcome, Poll::Pending);
    assert_eq!(receiver.poll(&mut event, Waker::from(Arc::clone(&second))).outcome, Poll::Pending);
    sender.send(&mut event, 7).waker.unwrap().wake();
    assert!(!first.was_woken());
    assert!(second.was_woken());
    assert_eq!(receiver.poll(&mut event, noop()).outcome, Poll::Ready(Ok(7)));
}

#[test]
fn local_event_receiver_that_left_is_not_woken() {
    let (mut event, sender, mut receiver) = LocalOnceEvent::<i32>::new_managed();
    assert_eq!(receiver.poll(&mut event, noop()).outcome, Poll::Pending);
    assert!(!receiver.drop_receiver(&mut event));
    let gone = sender.drop_sender(&mut event);
    assert!(gone.waker.is_none());
    assert!(gone.release);
}

#[test]
fn local_event_late_value_is_dropped() {
    let value = Rc::new(5);
    let mut event = LocalOnceEvent::<Rc<i32>>::new();
    let (sender, receiver) = event.bind_by_ref();
    receiver.drop_receiver(&mut event);
    sender.send(&mut event, Rc::clone(&value));
    assert_eq!(Rc::strong_count(&value), 1);
}

#[test]
fn local_event_plain_endpoints_pass_the_value() {
    let mut event = LocalOnceEvent::<i32>::new();
    let (sender, mut receiver) = event.by_ref();
    assert_eq!(receiver.poll(&mut event, noop()), Poll::Pending);
    assert!(sender.send(&mut event, 1).is_some());
    assert_eq!(receiver.poll(&mut event, noop()), Poll::Ready(1));

    let mut event = LocalOnceEvent::<i32>::new();
    let (sender, mut receiver) = event.by_rc();
    assert!(sender.send(&mut event, 2).is_none());
    assert_eq!(receiver.poll(&mut event, noop()), Poll::Ready(Ok(2)));

    let mut event = LocalOnceEvent::<i32>::new();
    let (sender, mut receiver) = event.by_ptr();
    assert!(sender.send(&mut event, 3).is_none());
    assert_eq!(receiver.poll(&mut event, noop()), Poll::Ready(Ok(3)));
}

#[test]
fn local_event_plain_endpoints_disconnect() {
    let mut event = LocalOnceEvent::<i32>::new();
    let (sender, mut receiver) = event.by_rc();
    assert!(sender.drop_sender(&mut event).is_none());
    assert_eq!(receiver.poll(&mut event, noop()), Poll::Ready(Err(Disconnected)));

    let mut event = LocalOnceEvent::<i32>::new();
    let (sender, mut receiver) = event.by_ptr();
    assert_eq!(receiver.poll(&mut event, noop()), Poll::Pending);
    assert!(sender.drop_sender(&mut event).is_some());
    assert_eq!(receiver.poll(&mut event, noop()), Poll::Ready(Err(Disconnected)));
}

#[test]
fn disconnected_says_what_happened() {
    assert_eq!(Disconnected.message(), "sender-receiver pair has disconnected");
}

#[test]
fn local_inspect_awaiter_after_the_receiver_has_left() {
    // Dropped while waiting.
    let mut event = LocalOnceEvent::<i32>::new();
    let (_sender, mut receiver) = event.bind_by_ref();
    assert_eq!(receiver.poll(&mut event, noop()).outcome, Poll::Pending);
    event.inspect_awaiter(|backtrace| assert!(backtrace.is_some()));
    receiver.drop_receiver(&mut event);
    let mut called = 0;
    event.inspect_awaiter(|backtrace| {
        called += 1;
        assert!(backtrace.is_none());
    });
    assert_eq!(called, 1);

    // Turned into a value.
    let mut event = LocalOnceEvent::<i32>::new();
    let (_sender, mut receiver) = event.bind_by_ref();
    assert_eq!(receiver.poll(&mut event, noop()).outcome, Poll::Pending);
    assert_eq!(receiver.into_value(&mut event).outcome, None);
    event.inspect_awaiter(|backtrace| assert!(backtrace.is_none()));

    // Told the outcome.
    let mut event = LocalOnceEvent::<i32>::new();
    let (sender, mut receiver) = event.bind_by_ref();
    assert_eq!(receiver.poll(&mut event, noop()).outcome, Poll::Pending);
    sender.send(&mut event, 1);
    event.inspect_awaiter(|backtrace| assert!(backtrace.is_some()));
    assert_eq!(receiver.poll(&mut event, noop()).outcome, Poll::Ready(Ok(1)));
    event.inspect_awaiter(|backtrace| assert!(backtrace.is_none()));
}

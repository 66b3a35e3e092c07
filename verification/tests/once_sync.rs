use std::cell::RefCell;
use std::rc::Rc;
use std::sync::atomic::{AtomicBool, Ordering};
use std::sync::{Arc, Mutex};
use std::task::{Wake, Waker};

use events::disconnected::Disconnected;
use events::once::sync::{Look, OnceEvent};
use events::waiters::Poll;

/// A waker that wakes no one.
fn noop() -> Waker {
    Waker::noop().clone()
}

/// A waker that remembers that it was woken.
struct Tracker(AtomicBool);

impl Tracker {
    fn new() -> Arc<Self> {
        Arc::new(Tracker(AtomicBool::new(false)))
    }

    fn was_woken(&self) -> bool {
        self.0.load(Ordering::SeqCst)
    }
}

impl Wake for Tracker {
    fn wake(self: Arc<Self>) {
        self.0.store(true, Ordering::SeqCst);
    }
}

#[test]
fn event_default_creates_valid_event() {
    let mut event = OnceEvent::<String>::default();
    let (sender, mut receiver) = event.bind_by_ref();
    let sent = sender.send(&mut event, "test".to_string());
    assert!(!sent.release);
    assert_eq!(receiver.poll(&mut event, noop()), Poll::Ready(Ok("test".to_string())));
}

#[test]
fn event_by_ref_works() {
    let mut event = OnceEvent::<u64>::new();
    let (sender, mut receiver) = event.bind_by_ref();
    let sent = sender.send(&mut event, 123);
    assert!(!sent.release);
    assert_eq!(receiver.poll(&mut event, noop()), Poll::Ready(Ok(123)));
}

#[test]
fn event_by_ref_checked_returns_none_after_use() {
    let mut event = OnceEvent::<i32>::new();
    let endpoints1 = event.bind_by_ref_checked();
    assert!(endpoints1.is_some());
    let endpoints2 = event.bind_by_ref_checked();
    assert!(endpoints2.is_none());
}

#[test]
fn event_by_ref_unchecked_works() {
    let mut event = OnceEvent::<i32>::new();
    let (sender, mut receiver) = event.bind_by_ref_unchecked();
    let sent = sender.send(&mut event, 42);
    assert!(!sent.release);
    assert_eq!(receiver.poll(&mut event, noop()), Poll::Ready(Ok(42)));
}

#[test]
fn event_send_succeeds_without_receiver() {
    let mut event = OnceEvent::<i32>::new();
    let (sender, _receiver) = event.bind_by_ref();
    let sent = sender.send(&mut event, 42);
    assert!(sent.waker.is_none());
}

#[test]
fn event_works_in_arc() {
    let event = Arc::new(Mutex::new(OnceEvent::<String>::new()));
    let (sender, mut receiver) = event.lock().unwrap().bind_by_ref();
    sender.send(&mut event.lock().unwrap(), "Hello from Arc".to_string());
    let got = receiver.poll(&mut event.lock().unwrap(), noop());
    assert_eq!(got, Poll::Ready(Ok("Hello from Arc".to_string())));
}

#[test]
fn event_works_in_rc() {
    let event = Rc::new(RefCell::new(OnceEvent::<String>::new()));
    let (sender, mut receiver) = event.borrow_mut().bind_by_ref();
    sender.send(&mut event.borrow_mut(), "Hello from Rc".to_string());
    let got = receiver.poll(&mut event.borrow_mut(), noop());
    assert_eq!(got, Poll::Ready(Ok("Hello from Rc".to_string())));
}

#[test]
fn event_by_arc_basic() {
    let mut event = OnceEvent::<i32>::new();
    let (sender, mut receiver) = event.bind_by_arc();
    let sent = sender.send(&mut event, 42);
    assert!(!sent.release);
    assert_eq!(receiver.poll(&mut event, noop()), Poll::Ready(Ok(42)));
}

#[test]
fn event_by_arc_checked_returns_none_after_use() {
    let mut event = OnceEvent::<i32>::new();
    let endpoints1 = event.bind_by_arc_checked();
    assert!(endpoints1.is_some());
    let endpoints2 = event.bind_by_arc_checked();
    assert!(endpoints2.is_none());
}

#[test]
fn event_by_arc_unchecked_works() {
    let mut event = OnceEvent::<String>::new();
    let (sender, mut receiver) = event.bind_by_arc_unchecked();
    let sent = sender.send(&mut event, "Hello from Arc unchecked".to_string());
    assert!(!sent.release);
    assert_eq!(receiver.poll(&mut event, noop()), Poll::Ready(Ok("Hello from Arc unchecked".to_string())));
}

#[test]
fn event_by_ptr_basic() {
    let mut event = OnceEvent::<String>::new();
    let (sender, mut receiver) = event.bind_by_ptr();
    let sent = sender.send(&mut event, "Hello from pointer".to_string());
    assert!(!sent.release);
    assert_eq!(receiver.poll(&mut event, noop()), Poll::Ready(Ok("Hello from pointer".to_string())));
}

#[test]
fn event_by_ptr_checked_returns_none_after_use() {
    let mut event = OnceEvent::<String>::new();
    let endpoints1 = event.bind_by_ptr_checked();
    assert!(endpoints1.is_some());
    let endpoints2 = event.bind_by_ptr_checked();
    assert!(endpoints2.is_none());
}

#[test]
fn event_by_ptr_unchecked_works() {
    let mut event = OnceEvent::<String>::new();
    let (sender, mut receiver) = event.bind_by_ptr_unchecked();
    let sent = sender.send(&mut event, "Hello from pointer unchecked".to_string());
    assert!(!sent.release);
    assert_eq!(receiver.poll(&mut event, noop()), Poll::Ready(Ok("Hello from pointer unchecked".to_string())));
}

#[test]
fn event_receiver_gets_disconnected_when_sender_dropped() {
    let mut event = OnceEvent::<i32>::new();
    let (sender, mut receiver) = event.bind_by_ref();
    sender.drop_sender(&mut event);
    assert_eq!(receiver.poll(&mut event, noop()), Poll::Ready(Err(Disconnected)));
}

#[test]
fn sync_sender_dropped_when_awaiting_signals_disconnected() {
    let mut event = OnceEvent::<i32>::new();
    let (sender, mut receiver) = event.bind_by_ref();
    let tracker = Tracker::new();
    assert_eq!(receiver.poll(&mut event, Waker::from(Arc::clone(&tracker))), Poll::Pending);
    let gone = sender.drop_sender(&mut event);
    gone.waker.unwrap().wake();
    assert!(tracker.was_woken());
    assert_eq!(receiver.poll(&mut event, noop()), Poll::Ready(Err(Disconnected)));
}

#[test]
fn sync_inspect_awaiter_no_awaiter() {
    let mut event = OnceEvent::<i32>::new();
    let (_sender, _receiver) = event.bind_by_ref();
    let mut called = false;
    event.inspect_awaiter(|backtrace| {
        called = true;
        assert!(backtrace.is_none());
    });
    assert!(called);
}

#[test]
fn sync_inspect_awaiter_with_awaiter() {
    let mut event = OnceEvent::<String>::new();
    let (_sender, mut receiver) = event.bind_by_ref();
    let _ = receiver.poll(&mut event, noop());
    let mut called = false;
    event.inspect_awaiter(|backtrace| {
        called = true;
        assert!(backtrace.is_some());
    });
    assert!(called);
}

#[test]
fn sync_inspect_awaiter_after_completion() {
    let mut event = OnceEvent::<i32>::new();
    let (sender, receiver) = event.bind_by_ref();
    sender.send(&mut event, 42);
    receiver.drop_receiver(&mut event);
    let mut called = false;
    event.inspect_awaiter(|backtrace| {
        called = true;
        assert!(backtrace.is_none());
    });
    assert!(called);
}

#[test]
fn event_heap_storage_is_released_by_the_last_endpoint() {
    let (mut event, sender, mut receiver) = OnceEvent::<i32>::new_heap();
    assert!(!sender.send(&mut event, 1).release);
    assert_eq!(receiver.poll(&mut event, noop()), Poll::Ready(Ok(1)));
    assert!(receiver.drop_receiver(&mut event));

    let (mut event, sender, receiver) = OnceEvent::<i32>::new_heap();
    assert!(!receiver.drop_receiver(&mut event));
    assert!(sender.send(&mut event, 1).release);

    let (mut event, sender, receiver) = OnceEvent::<i32>::new_heap();
    assert!(!receiver.drop_receiver(&mut event));
    assert!(sender.drop_sender(&mut event).release);
}

#[test]
fn event_in_place_passes_the_value() {
    let mut storage: Option<OnceEvent<i32>> = None;
    let (sender, mut receiver) = OnceEvent::new_in_place_by_ptr(&mut storage);
    let event = storage.as_mut().unwrap();
    sender.send(event, 8);
    assert_eq!(receiver.poll(event, noop()), Poll::Ready(Ok(8)));
    assert!(!receiver.drop_receiver(event));
}

#[test]
fn event_latest_waker_is_woken() {
    let mut event = OnceEvent::<i32>::new();
    let (sender, mut receiver) = event.bind_by_ref();
    let first = Tracker::new();
    let second = Tracker::new();
    assert_eq!(receiver.poll(&mut event, Waker::from(Arc::clone(&first))), Poll::Pending);
    assert_eq!(receiver.poll(&mut event, Waker::from(Arc::clone(&second))), Poll::Pending);
    sender.send(&mut event, 7).waker.unwrap().wake();
    assert!(!first.was_woken());
    assert!(second.was_woken());
    assert_eq!(receiver.poll(&mut event, noop()), Poll::Ready(Ok(7)));
}

#[test]
fn event_set_between_look_and_poll() {
    // The receiver sees that nothing has happened, and the sender acts before it stores its
    // waker.
    let (mut event, _sender, _receiver) = OnceEvent::<i32>::new_heap();
    let seen = event.load();
    assert!(event.set_begin(5).is_ok());
    assert!(event.finish_wake().is_none());
    assert!(matches!(event.poll_from(seen, noop()), Look::Ready(Ok(5))));

    let (mut event, _sender, _receiver) = OnceEvent::<i32>::new_heap();
    let seen = event.load();
    assert!(event.sender_drop_begin().is_ok());
    assert!(event.finish_wake().is_none());
    assert!(matches!(event.poll_from(seen, noop()), Look::Ready(Err(Disconnected))));
}

#[test]
fn event_set_while_waiting_keeps_the_receiver_out() {
    let (mut event, _sender, _receiver) = OnceEvent::<i32>::new_heap();
    let seen = event.load();
    assert!(matches!(event.poll_from(seen, noop()), Look::Pending));
    let seen = event.load();
    assert!(event.set_begin(6).is_ok());
    // Until the sender has taken the waker, the receiver has to look again.
    assert!(matches!(event.poll_from(seen, noop()), Look::Busy(_)));
    let seen = event.load();
    assert!(matches!(event.poll_from(seen, noop()), Look::Busy(_)));
    assert!(event.finish_wake().is_some());
    assert!(matches!(event.poll_from(seen, noop()), Look::Ready(Ok(6))));
}

#[test]
fn event_sender_gone_while_waiting_is_noticed() {
    let (mut event, _sender, _receiver) = OnceEvent::<i32>::new_heap();
    let seen = event.load();
    assert!(matches!(event.poll_from(seen, noop()), Look::Pending));
    let seen = event.load();
    assert!(event.sender_drop_begin().is_ok());
    assert!(matches!(event.poll_from(seen, noop()), Look::Ready(Err(Disconnected))));
    // The waker is still the sender's to take.
    assert!(event.finish_wake().is_some());
}

#[test]
fn sync_inspect_awaiter_after_the_receiver_has_left() {
    let mut event = OnceEvent::<i32>::new();
    let (_sender, mut receiver) = event.bind_by_ref();
    assert_eq!(receiver.poll(&mut event, noop()), Poll::Pending);
    event.inspect_awaiter(|backtrace| assert!(backtrace.is_some()));
    receiver.drop_receiver(&mut event);
    event.inspect_awaiter(|backtrace| assert!(backtrace.is_none()));

    let mut event = OnceEvent::<i32>::new();
    let (sender, mut receiver) = event.bind_by_ref();
    sender.send(&mut event, 1);
    assert_eq!(receiver.poll(&mut event, noop()), Poll::Ready(Ok(1)));
    event.inspect_awaiter(|backtrace| assert!(backtrace.is_none()));
}

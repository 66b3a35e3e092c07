//! Rc-based senders and receivers for single-threaded events.
use std::task::Waker;
use vstd::prelude::*;

use crate::disconnected::Disconnected;
use crate::once::local::LocalOnceEvent;
use crate::once::rules::OnceView;
use crate::waiters::Poll;

verus! {

impl<T> LocalOnceEvent<T> {
    /// Returns a sender and a receiver for this event that know it by an `Rc`.
    pub fn by_rc(&mut self) -> (r: (ByRcLocalOnceSender, ByRcLocalOnceReceiver))
        requires
            old(self).wf(),
            old(self)@.stage is Unbound,
        ensures
            final(self).wf(),
            final(self)@ == OnceView::<T>::bound(),
            final(self).backtrace() == old(self).backtrace(),
    {
        self.bind();
        (ByRcLocalOnceSender {  }, ByRcLocalOnceReceiver {  })
    }
}

/// A sender that can send a value through a single-threaded event that it knows by an `Rc`.
///
/// If it is dropped without sending, the receiver is told that nothing will come.
pub struct ByRcLocalOnceSender {}

impl ByRcLocalOnceSender {
    /// Sends a value through `event`, which this sender belongs to. Hands out the waker of the
    /// receiver if it is waiting.
    ///
    /// This consumes the sender and always succeeds, regardless of whether there is a receiver
    /// waiting.
    pub fn send<T>(self, event: &mut LocalOnceEvent<T>, value: T) -> (r: Option<Waker>)
        requires
            old(event).wf(),
            old(event)@.sender,
        ensures
            final(event).wf(),
            final(event)@ == old(event)@.after_set(value),
            final(event).backtrace() == old(event).backtrace(),
            r == old(event)@.waiting(),
    {
        let (_, waker) = event.set(value);
        waker
    }

    /// Drops the sender without sending a value. Hands out the waker of the receiver if it is
    /// waiting.
    pub fn drop_sender<T>(self, event: &mut LocalOnceEvent<T>) -> (r: Option<Waker>)
        requires
            old(event).wf(),
            old(event)@.sender,
        ensures
            final(event).wf(),
            final(event)@ == old(event)@.after_sender_drop(),
            final(event).backtrace() == old(event).backtrace(),
            r == old(event)@.waiting(),
    {
        let (_, waker) = event.sender_dropped_without_set();
        waker
    }
}

/// A receiver that can receive a value from a single-threaded event that it knows by an `Rc`.
pub struct ByRcLocalOnceReceiver {}

impl ByRcLocalOnceReceiver {
    /// Polls for the outcome, on behalf of the task that `waker` wakes.
    pub fn poll<T>(&mut self, event: &mut LocalOnceEvent<T>, waker: Waker) -> (r: Poll<
        Result<T, Disconnected>,
    >)
        requires
            old(event).wf(),
            old(event)@.receiver,
        ensures
            final(event).wf(),
            final(event)@ == old(event)@.after_poll(waker),
            final(event).backtrace() is Some,
            r == match old(event)@.poll_result() {
                Some(outcome) => Poll::Ready(outcome),
                None => Poll::Pending,
            },
    {
        match event.poll(waker) {
            Some(outcome) => Poll::Ready(outcome),
            None => Poll::Pending,
        }
    }
}

} // verus!

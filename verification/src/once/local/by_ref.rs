//! Reference-based senders and receivers for single-threaded events.
use std::task::Waker;
use vstd::prelude::*;

use crate::disconnected::Disconnected;
use crate::once::local::LocalOnceEvent;
use crate::once::rules::OnceView;
use crate::waiters::Poll;

verus! {

impl<T> LocalOnceEvent<T> {
    /// Returns a sender and a receiver for this event that know it by reference.
    pub fn by_ref(&mut self) -> (r: (ByRefLocalOnceSender, ByRefLocalOnceReceiver))
        requires
            old(self).wf(),
            old(self)@.stage is Unbound,
        ensures
            final(self).wf(),
            final(self)@ == OnceView::<T>::bound(),
            final(self).backtrace() == old(self).backtrace(),
    {
        self.bind();
        (ByRefLocalOnceSender {  }, ByRefLocalOnceReceiver {  })
    }
}

/// A sender that can send a value through a single-threaded event that it knows by reference.
///
/// It can only be dropped in silence: the receiver is not told.
pub struct ByRefLocalOnceSender {}

impl ByRefLocalOnceSender {
    /// Sends a value through `event`, which this sender belongs to. Hands out the waker of the
    /// receiver if it is waiting.
    ///
    /// This consumes the sender and always succeeds, regardless of whether there is a receiver
    /// waiting.
    pub fn send<T>(self, event: &mut LocalOnceEvent<T>, value: T) -> (r: Option<Waker>)
        requires
            old(event).wf(),
            old(event)@.sender,
        ensures
            final(event).wf(),
            final(event)@ == old(event)@.after_set(value),
            final(event).backtrace() == old(event).backtrace(),
            r == old(event)@.waiting(),
    {
        let (_, waker) = event.set(value);
        waker
    }
}

/// A receiver that can receive a value from a single-threaded event that it knows by reference.
pub struct ByRefLocalOnceReceiver {}

impl ByRefLocalOnceReceiver {
    /// Polls for the value, on behalf of the task that `waker` wakes.
    pub fn poll<T>(&mut self, event: &mut LocalOnceEvent<T>, waker: Waker) -> (r: Poll<T>)
        requires
            old(event).wf(),
            old(event)@.receiver,
            !(old(event)@.stage is Disconnected),
        ensures
            final(event).wf(),
            final(event)@ == old(event)@.after_poll(waker),
            final(event).backtrace() is Some,
            old(event)@.poll_result() == match r {
                Poll::Ready(value) => Some(Ok::<T, Disconnected>(value)),
                Poll::Pending => None,
            },
    {
        match event.poll(waker) {
            Some(Ok(value)) => Poll::Ready(value),
            _ => Poll::Pending,
        }
    }
}

} // verus!

//! Pointer-based endpoints for events in a pool on a single thread.
use std::task::Waker;

use pinned_pool::Key;
use vstd::prelude::*;

use crate::disconnected::Disconnected;
use crate::once::pooled_local::{
    after_local_release, local_polled, LocalOnceEventPool, LocalPooledView,
};
use crate::waiters::Poll;

verus! {

impl<T> LocalOnceEventPool<T> {
    /// Creates an event and returns endpoints for it that know the pool by pointer.
    pub fn by_ptr(&mut self) -> (r: (ByPtrPooledLocalOnceSender, ByPtrPooledLocalOnceReceiver))
        requires
            old(self).wf(),
        ensures
            final(self).wf(),
            !old(self)@.contains_key(r.0.spec_key()),
            r.1.spec_key() == Some(r.0.spec_key()),
            final(self)@ == old(self)@.insert(r.0.spec_key(), LocalPooledView::<T>::bound()),
            final(self).room() == if old(self).room() > old(self)@.dom().len() {
                old(self).room()
            } else {
                old(self).room() + 1
            },
    {
        let key = self.bind();
        (ByPtrPooledLocalOnceSender { key }, ByPtrPooledLocalOnceReceiver { key: Some(key) })
    }
}

/// A sender that can send a value through an event in a pool that it knows by pointer.
///
/// It can only be dropped in silence: the receiver is not told.
pub struct ByPtrPooledLocalOnceSender {
    key: Key,
}

impl ByPtrPooledLocalOnceSender {
    /// The key of the event.
    pub closed spec fn spec_key(self) -> Key {
        self.key
    }

    /// Sends a value through the event, in the pool that it was created in. Hands out the waker
    /// of the receiver if it is waiting.
    pub fn send<T>(self, pool: &mut LocalOnceEventPool<T>, value: T) -> (r: Option<Waker>)
        requires
            old(pool).wf(),
            old(pool)@.contains_key(self.spec_key()),
            old(pool)@[self.spec_key()].event.sender,
        ensures
            final(pool).wf(),
            final(pool).room() == old(pool).room(),
            final(pool)@ == after_local_release(
                old(pool)@,
                self.spec_key(),
                old(pool)@[self.spec_key()].with_event(
                    old(pool)@[self.spec_key()].event.after_set(value),
                ),
            ),
            r == old(pool)@[self.spec_key()].event.waiting(),
    {
        pool.set_and_release(self.key, value)
    }

    /// Drops the sender without sending a value: it releases the event.
    pub fn drop_sender<T>(self, pool: &mut LocalOnceEventPool<T>)
        requires
            old(pool).wf(),
            old(pool)@.contains_key(self.spec_key()),
            old(pool)@[self.spec_key()].event.sender,
        ensures
            final(pool).wf(),
            final(pool).room() == old(pool).room(),
            final(pool)@ == after_local_release(
                old(pool)@,
                self.spec_key(),
                old(pool)@[self.spec_key()].with_event(
                    old(pool)@[self.spec_key()].event.after_sender_left(),
                ),
            ),
    {
        pool.leave_sender(self.key);
    }
}

/// A receiver that can receive a value from an event in a pool that it knows by pointer.
pub struct ByPtrPooledLocalOnceReceiver {
    key: Option<Key>,
}

impl ByPtrPooledLocalOnceReceiver {
    /// The key of the event, until the outcome has been received.
    pub closed spec fn spec_key(self) -> Option<Key> {
        self.key
    }

    /// Polls for the outcome, on behalf of the task that `waker` wakes. With it, the event is
    /// released.
    pub fn poll<T>(&mut self, pool: &mut LocalOnceEventPool<T>, waker: Waker) -> (r: Poll<Result<T, Disconnected>>)
        requires
            old(self).spec_key() is Some,
            old(pool).wf(),
            old(pool)@.contains_key(old(self).spec_key()->0),
            old(pool)@[old(self).spec_key()->0].event.receiver,
        ensures
            final(pool).wf(),
            final(pool).room() == old(pool).room(),
            old(pool)@[old(self).spec_key()->0].event.poll_result() == match r {
                Poll::Ready(value) => Some(value),
                Poll::Pending => None,
            },
            local_polled(old(pool)@, old(self).spec_key()->0, waker, final(pool)@),
            final(self).spec_key() == if r is Ready {
                None
            } else {
                old(self).spec_key()
            },
    {
        match self.key {
            Some(key) => match pool.poll_and_release(key, waker) {
                Some(value) => {
                    self.key = None;
                    Poll::Ready(value)
                },
                _ => Poll::Pending,
            },
            None => vstd::pervasive::unreached(),
        }
    }

    /// Drops the receiver: unless the outcome has been received, it releases the event.
    pub fn drop_receiver<T>(self, pool: &mut LocalOnceEventPool<T>)
        requires
            old(pool).wf(),
            self.spec_key() is Some ==> old(pool)@.contains_key(self.spec_key()->0) && old(
                pool,
            )@[self.spec_key()->0].event.receiver,
        ensures
            final(pool).wf(),
            final(pool).room() == old(pool).room(),
            final(pool)@ == match self.spec_key() {
                Some(key) => after_local_release(
                    old(pool)@,
                    key,
                    old(pool)@[key].with_event(old(pool)@[key].event.after_receiver_left()),
                ),
                None => old(pool)@,
            },
    {
        match self.key {
            Some(key) => pool.leave_receiver(key),
            None => {},
        }
    }
}

} // verus!

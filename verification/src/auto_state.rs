//! The state machine of auto-reset events.
use std::task::Waker;
use vstd::prelude::*;

use crate::auto_rules::{
    law_drop_keeps_valid, law_poll_keeps_valid, law_set_keeps_valid, AutoView,
};
use crate::waiters::{Poll, Waiter, WaiterList};

verus! {

/// The state of an auto-reset event whose operations are each done at once, on one thread
/// or under a lock.
pub struct AutoState {
    is_set: bool,
    waiters: WaiterList<Waker>,
}

impl View for AutoState {
    type V = AutoView;

    closed spec fn view(&self) -> AutoView {
        AutoView { is_set: self.is_set, waiters: self.waiters@ }
    }
}

impl AutoState {
    /// A stored signal excludes waiting waiters.
    pub closed spec fn wf(self) -> bool {
        self.waiters.wf() && self@.valid()
    }

    /// What well-formedness says of the abstract event.
    pub proof fn lemma_valid(&self)
        requires
            self.wf(),
        ensures
            self@.valid(),
    {
    }

    /// An event in the unset state.
    pub fn new() -> (r: Self)
        ensures
            r.wf(),
            r@ == AutoView::unset(),
    {
        AutoState { is_set: false, waiters: WaiterList::new() }
    }

    /// Signals the event. Hands out the waker of the waiter that was released, to be woken
    /// by the caller once it no longer borrows the event.
    pub fn set(&mut self) -> (r: Option<Waker>)
        requires
            old(self).wf(),
        ensures
            final(self).wf(),
            final(self)@ == old(self)@.after_set(),
            old(self)@.waiters.kept(final(self)@.waiters, None),
            r == old(self)@.next(),
    {
        proof {
            law_set_keeps_valid(self@);
        }
        if self.is_set {
            return None;
        }
        match self.waiters.notify_one() {
            Some(w) => Some(w),
            None => {
                // No waiters: store the signal.
                self.is_set = true;
                None
            },
        }
    }

    /// Consumes the stored signal, if there is one.
    pub fn try_wait(&mut self) -> (r: bool)
        requires
            old(self).wf(),
        ensures
            final(self).wf(),
            final(self)@ == old(self)@.after_try_wait(),
            r == old(self)@.is_set,
    {
        if self.is_set {
            self.is_set = false;
            true
        } else {
            false
        }
    }

    /// Whether `waiter` was released and has not noticed yet.
    pub fn is_released(&self, waiter: &Waiter) -> (r: bool)
        requires
            self.wf(),
            self@.waiters.owns(waiter@),
        ensures
            r == self@.is_released(waiter@),
    {
        self.waiters.is_notified(waiter)
    }

    /// Polls on behalf of `waiter`, which is to be woken by `waker`.
    pub fn poll_wait(&mut self, waiter: &mut Waiter, waker: Waker) -> (r: Poll<()>)
        requires
            old(self).wf(),
            old(self)@.waiters.owns(old(waiter)@),
        ensures
            final(self).wf(),
            final(self)@.waiters.owns(final(waiter)@),
            old(self)@.waiters.kept(final(self)@.waiters, old(waiter)@),
            old(self)@.polled(
                old(waiter)@,
                waker,
                final(self)@,
                final(waiter)@,
                r,
            ),
    {
        let ghost pre = *self;
        let ghost key = waiter@;
        let ghost w = waker;
        let r = if self.waiters.take_notification(waiter) {
            Poll::Ready(())
        } else if self.is_set {
            self.is_set = false;
            Poll::Ready(())
        } else {
            self.waiters.register(waiter, waker);
            Poll::Pending
        };
        proof {
            assert(pre@.polled(key, w, self@, waiter@, r));
            law_poll_keeps_valid(pre@, key, w, self@, waiter@, r);
        }
        r
    }

    /// Drops `waiter`. Hands out the waker of the waiter that its signal was passed on to.
    pub fn drop_wait(&mut self, waiter: &mut Waiter) -> (r: Option<Waker>)
        requires
            old(self).wf(),
            old(self)@.waiters.owns(old(waiter)@),
        ensures
            final(self).wf(),
            final(waiter)@ is None,
            final(self)@ == old(self)@.after_drop(old(waiter)@),
            old(self)@.waiters.kept(final(self)@.waiters, old(waiter)@),
            r == old(self)@.woken_by_drop(old(waiter)@),
    {
        proof {
            law_drop_keeps_valid(self@, waiter@);
        }
        if !waiter.is_registered() {
            return None;
        }
        if self.waiters.take_notification(waiter) {
            if self.is_set {
                // Already set: the signal is coalesced with the stored one.
                return None;
            }
            match self.waiters.notify_one() {
                Some(w) => Some(w),
                None => {
                    // No more waiters: restore the signal so that it is not lost.
                    self.is_set = true;
                    None
                },
            }
        } else {
            self.waiters.unregister(waiter);
            None
        }
    }
}

} // verus!

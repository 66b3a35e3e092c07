//! Thread-safe auto-reset events that serve their waiters first come, first served.
//!
//! All of an operation is done under one lock, or on one thread, so that the state machine
//! is that of `AutoState`. A future that was released and has noticed stays complete however
//! often it is polled.
use std::task::Waker;
use vstd::prelude::*;

use crate::auto_rules::AutoView;
use crate::auto_state::AutoState;
use crate::waiters::{Poll, Waiter};

verus! {

/// Thread-safe async event that releases exactly one awaiter per `set()` call.
///
/// If no one is waiting when `set()` is called, the event remembers the signal so that the
/// next `wait()` completes immediately and consumes it.
pub struct AutoResetEvent {
    inner: AutoState,
}

impl View for AutoResetEvent {
    type V = AutoView;

    closed spec fn view(&self) -> AutoView {
        self.inner@
    }
}

impl AutoResetEvent {
    /// A stored signal and waiting waiters exclude each other.
    pub closed spec fn wf(self) -> bool {
        self.inner.wf()
    }

    /// What well-formedness says of the abstract event.
    pub proof fn lemma_valid(&self)
        requires
            self.wf(),
        ensures
            self@.valid(),
    {
        self.inner.lemma_valid();
    }

    /// Creates a new event in the unset state.
    pub fn boxed() -> (r: Self)
        ensures
            r.wf(),
            r@ == AutoView::unset(),
    {
        AutoResetEvent { inner: AutoState::new() }
    }

    /// Creates a handle that operates on the state in a container.
    pub fn embedded<'a>(place: &'a mut EmbeddedAutoResetEvent) -> (r: RawAutoResetEvent<'a>)
        ensures
            *r.inner == old(place).inner,
            *final(r.inner) == final(place).inner,
    {
        RawAutoResetEvent { inner: &mut place.inner }
    }

    /// Signals the event: releases the oldest waiter and hands out its waker for the caller to
    /// wake; with no one waiting, stores the signal. A signal that is stored already stays the
    /// only one.
    pub fn set(&mut self) -> (r: Option<Waker>)
        requires
            old(self).wf(),
        ensures
            final(self).wf(),
            final(self)@ == old(self)@.after_set(),
            old(self)@.waiters.kept(final(self)@.waiters, None),
            r == old(self)@.next(),
    {
        self.inner.set()
    }

    /// Attempts to consume the signal: `true` if the event was set, which it then no longer
    /// is.
    pub fn try_acquire(&mut self) -> (r: bool)
        requires
            old(self).wf(),
        ensures
            final(self).wf(),
            final(self)@ == old(self)@.after_try_wait(),
            r == old(self)@.is_set,
    {
        self.inner.try_wait()
    }

    /// Returns a future that completes when the event is signaled.
    pub fn wait(&self) -> (r: AutoResetWaitFuture)
        ensures
            r@ is None,
            !r.is_done(),
    {
        AutoResetWaitFuture { waiter: Waiter::new(), notified: false }
    }
}

/// Future returned by `AutoResetEvent::wait()`.
pub struct AutoResetWaitFuture {
    waiter: Waiter,
    notified: bool,
}

impl View for AutoResetWaitFuture {
    type V = Option<usize>;

    closed spec fn view(&self) -> Option<usize> {
        self.waiter@
    }
}

impl AutoResetWaitFuture {
    /// The future was released and has noticed: it has completed for good.
    pub closed spec fn is_done(self) -> bool {
        self.notified
    }

    /// Polls the future, on behalf of the task that `waker` wakes.
    pub fn poll(&mut self, event: &mut AutoResetEvent, waker: Waker) -> (r: Poll<()>)
        requires
            old(event).wf(),
            old(event)@.waiters.owns(old(self)@),
        ensures
            final(event).wf(),
            final(event)@.waiters.owns(final(self)@),
            old(event)@.waiters.kept(final(event)@.waiters, old(self)@),
            old(self).is_done() ==> r == Poll::Ready(()) && final(event)@ == old(event)@
                && final(self)@ == old(self)@,
            !old(self).is_done() ==> old(event)@.polled(
                old(self)@,
                waker,
                final(event)@,
                final(self)@,
                r,
            ),
            final(self).is_done() == (old(self).is_done() || old(event)@.is_released(
                old(self)@,
            )),
    {
        if self.notified {
            return Poll::Ready(());
        }
        self.notified = event.inner.is_released(&self.waiter);
        event.inner.poll_wait(&mut self.waiter, waker)
    }

    /// Drops the future. A future that was released and has not completed passes its signal
    /// on to the next waiter, whose waker is handed out, or back to the event.
    pub fn drop_wait(self, event: &mut AutoResetEvent) -> (r: Option<Waker>)
        requires
            old(event).wf(),
            old(event)@.waiters.owns(self@),
        ensures
            final(event).wf(),
            final(event)@ == old(event)@.after_drop(self@),
            old(event)@.waiters.kept(final(event)@.waiters, self@),
            r == old(event)@.woken_by_drop(self@),
    {
        let mut waiter = self.waiter;
        event.inner.drop_wait(&mut waiter)
    }
}

/// Container for the state of an event that is not allocated on its own.
pub struct EmbeddedAutoResetEvent {
    /// The state of the event.
    pub inner: AutoState,
}

impl EmbeddedAutoResetEvent {
    /// Creates a container with an event in the unset state.
    pub fn new() -> (r: Self)
        ensures
            r.inner.wf(),
            r.inner@ == AutoView::unset(),
    {
        EmbeddedAutoResetEvent { inner: AutoState::new() }
    }
}

impl Default for EmbeddedAutoResetEvent {
    fn default() -> (r: Self)
        ensures
            r.inner.wf(),
            r.inner@ == AutoView::unset(),
    {
        Self::new()
    }
}

/// Handle to the event in a container.
pub struct RawAutoResetEvent<'a> {
    /// The state of the event.
    pub inner: &'a mut AutoState,
}

impl<'a> RawAutoResetEvent<'a> {
    /// Signals the event: releases the oldest waiter and hands out its waker for the caller to
    /// wake; with no one waiting, stores the signal. A signal that is stored already stays the
    /// only one.
    pub fn set(&mut self) -> (r: Option<Waker>)
        requires
            old(self).inner.wf(),
        ensures
            final(self).inner.wf(),
            final(self).inner@ == old(self).inner@.after_set(),
            old(self).inner@.waiters.kept(final(self).inner@.waiters, None),
            *final(final(self).inner) == *final(old(self).inner),
            r == old(self).inner@.next(),
    {
        self.inner.set()
    }

    /// Attempts to consume the signal: `true` if the event was set, which it then no longer
    /// is.
    pub fn try_acquire(&mut self) -> (r: bool)
        requires
            old(self).inner.wf(),
        ensures
            final(self).inner.wf(),
            final(self).inner@ == old(self).inner@.after_try_wait(),
            *final(final(self).inner) == *final(old(self).inner),
            r == old(self).inner@.is_set,
    {
        self.inner.try_wait()
    }

    /// Returns a future that completes when the event is signaled.
    pub fn wait(&self) -> (r: RawAutoResetWaitFuture)
        ensures
            r@ is None,
            !r.is_done(),
    {
        RawAutoResetWaitFuture { waiter: Waiter::new(), notified: false }
    }
}

/// Future returned by `RawAutoResetEvent::wait()`.
pub struct RawAutoResetWaitFuture {
    waiter: Waiter,
    notified: bool,
}

impl View for RawAutoResetWaitFuture {
    type V = Option<usize>;

    closed spec fn view(&self) -> Option<usize> {
        self.waiter@
    }
}

impl RawAutoResetWaitFuture {
    /// The future was released and has noticed: it has completed for good.
    pub closed spec fn is_done(self) -> bool {
        self.notified
    }

    /// Polls the future, on behalf of the task that `waker` wakes.
    pub fn poll(&mut self, event: &mut RawAutoResetEvent<'_>, waker: Waker) -> (r: Poll<()>)
        requires
            old(event).inner.wf(),
            old(event).inner@.waiters.owns(old(self)@),
        ensures
            final(event).inner.wf(),
            final(event).inner@.waiters.owns(final(self)@),
            old(event).inner@.waiters.kept(final(event).inner@.waiters, old(self)@),
            *final(final(event).inner) == *final(old(event).inner),
            old(self).is_done() ==> r == Poll::Ready(()) && final(event).inner@ == old(event).inner@
                && final(self)@ == old(self)@,
            !old(self).is_done() ==> old(event).inner@.polled(
                old(self)@,
                waker,
                final(event).inner@,
                final(self)@,
                r,
            ),
            final(self).is_done() == (old(self).is_done() || old(event).inner@.is_released(
                old(self)@,
            )),
    {
        if self.notified {
            return Poll::Ready(());
        }
        self.notified = event.inner.is_released(&self.waiter);
        event.inner.poll_wait(&mut self.waiter, waker)
    }

    /// Drops the future. A future that was released and has not completed passes its signal
    /// on to the next waiter, whose waker is handed out, or back to the event.
    pub fn drop_wait(self, event: &mut RawAutoResetEvent<'_>) -> (r: Option<Waker>)
        requires
            old(event).inner.wf(),
            old(event).inner@.waiters.owns(self@),
        ensures
            final(event).inner.wf(),
            final(event).inner@ == old(event).inner@.after_drop(self@),
            old(event).inner@.waiters.kept(final(event).inner@.waiters, self@),
            *final(final(event).inner) == *final(old(event).inner),
            r == old(event).inner@.woken_by_drop(self@),
    {
        let mut waiter = self.waiter;
        event.inner.drop_wait(&mut waiter)
    }
}

} // verus!

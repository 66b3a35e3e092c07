//! Single-threaded auto-reset events.
use std::task::Waker;
use vstd::prelude::*;

use crate::auto_rules::AutoView;
use crate::auto_state::AutoState;
use crate::waiters::{Poll, Waiter};

verus! {

/// Single-threaded async auto-reset event.
///
/// Releases exactly one awaiter per `set()` call.
pub struct LocalAutoResetEvent {
    inner: AutoState,
}

impl View for LocalAutoResetEvent {
    type V = AutoView;

    closed spec fn view(&self) -> AutoView {
        self.inner@
    }
}

impl LocalAutoResetEvent {
    /// A stored signal and waiting waiters exclude each other.
    pub closed spec fn wf(self) -> bool {
        self.inner.wf()
    }

    /// What well-formedness says of the abstract event.
    pub proof fn lemma_valid(&self)
        requires
            self.wf(),
        ensures
            self@.valid(),
    {
        self.inner.lemma_valid();
    }

    /// Creates a new event in the unset state.
    pub fn boxed() -> (r: Self)
        ensures
            r.wf(),
            r@ == AutoView::unset(),
    {
        LocalAutoResetEvent { inner: AutoState::new() }
    }

    /// Creates a handle that operates on the state in a container.
    pub fn embedded<'a>(place: &'a mut EmbeddedLocalAutoResetEvent) -> (r: EmbeddedLocalAutoResetEventRef<'a>)
        ensures
            *r.inner == old(place).inner,
            *final(r.inner) == final(place).inner,
    {
        EmbeddedLocalAutoResetEventRef { inner: &mut place.inner }
    }

    /// Signals the event: releases the oldest waiter and hands out its waker for the caller to
    /// wake; with no one waiting, stores the signal. A signal that is stored already stays the
    /// only one.
    pub fn set(&mut self) -> (r: Option<Waker>)
        requires
            old(self).wf(),
        ensures
            final(self).wf(),
            final(self)@ == old(self)@.after_set(),
            old(self)@.waiters.kept(final(self)@.waiters, None),
            r == old(self)@.next(),
    {
        self.inner.set()
    }

    /// Attempts to consume the signal: `true` if the event was set, which it then no longer
    /// is.
    pub fn try_wait(&mut self) -> (r: bool)
        requires
            old(self).wf(),
        ensures
            final(self).wf(),
            final(self)@ == old(self)@.after_try_wait(),
            r == old(self)@.is_set,
    {
        self.inner.try_wait()
    }

    /// Returns a future that completes when the event is signaled.
    pub fn wait(&self) -> (r: LocalAutoResetWaitFuture)
        ensures
            r@ is None,
    {
        LocalAutoResetWaitFuture { waiter: Waiter::new() }
    }
}

/// Future returned by `LocalAutoResetEvent::wait()`.
pub struct LocalAutoResetWaitFuture {
    waiter: Waiter,
}

impl View for LocalAutoResetWaitFuture {
    type V = Option<usize>;

    closed spec fn view(&self) -> Option<usize> {
        self.waiter@
    }
}

impl LocalAutoResetWaitFuture {
    /// Polls the future, on behalf of the task that `waker` wakes.
    pub fn poll(&mut self, event: &mut LocalAutoResetEvent, waker: Waker) -> (r: Poll<()>)
        requires
            old(event).wf(),
            old(event)@.waiters.owns(old(self)@),
        ensures
            final(event).wf(),
            final(event)@.waiters.owns(final(self)@),
            old(event)@.waiters.kept(final(event)@.waiters, old(self)@),
            old(event)@.polled(
                old(self)@,
                waker,
                final(event)@,
                final(self)@,
                r,
            ),
    {
        event.inner.poll_wait(&mut self.waiter, waker)
    }

    /// Drops the future. A future that was released and has not completed passes its signal
    /// on to the next waiter, whose waker is handed out, or back to the event.
    pub fn drop_wait(self, event: &mut LocalAutoResetEvent) -> (r: Option<Waker>)
        requires
            old(event).wf(),
            old(event)@.waiters.owns(self@),
        ensures
            final(event).wf(),
            final(event)@ == old(event)@.after_drop(self@),
            old(event)@.waiters.kept(final(event)@.waiters, self@),
            r == old(event)@.woken_by_drop(self@),
    {
        let mut waiter = self.waiter;
        event.inner.drop_wait(&mut waiter)
    }
}

/// Container for the state of an event that is not allocated on its own.
pub struct EmbeddedLocalAutoResetEvent {
    /// The state of the event.
    pub inner: AutoState,
}

impl EmbeddedLocalAutoResetEvent {
    /// Creates a container with an event in the unset state.
    pub fn new() -> (r: Self)
        ensures
            r.inner.wf(),
            r.inner@ == AutoView::unset(),
    {
        EmbeddedLocalAutoResetEvent { inner: AutoState::new() }
    }
}

impl Default for EmbeddedLocalAutoResetEvent {
    fn default() -> (r: Self)
        ensures
            r.inner.wf(),
            r.inner@ == AutoView::unset(),
    {
        Self::new()
    }
}

/// Handle to the event in a container.
pub struct EmbeddedLocalAutoResetEventRef<'a> {
    /// The state of the event.
    pub inner: &'a mut AutoState,
}

impl<'a> EmbeddedLocalAutoResetEventRef<'a> {
    /// Signals the event: releases the oldest waiter and hands out its waker for the caller to
    /// wake; with no one waiting, stores the signal. A signal that is stored already stays the
    /// only one.
    pub fn set(&mut self) -> (r: Option<Waker>)
        requires
            old(self).inner.wf(),
        ensures
            final(self).inner.wf(),
            final(self).inner@ == old(self).inner@.after_set(),
            old(self).inner@.waiters.kept(final(self).inner@.waiters, None),
            *final(final(self).inner) == *final(old(self).inner),
            r == old(self).inner@.next(),
    {
        self.inner.set()
    }

    /// Attempts to consume the signal: `true` if the event was set, which it then no longer
    /// is.
    pub fn try_wait(&mut self) -> (r: bool)
        requires
            old(self).inner.wf(),
        ensures
            final(self).inner.wf(),
            final(self).inner@ == old(self).inner@.after_try_wait(),
            *final(final(self).inner) == *final(old(self).inner),
            r == old(self).inner@.is_set,
    {
        self.inner.try_wait()
    }

    /// Returns a future that completes when the event is signaled.
    pub fn wait(&self) -> (r: EmbeddedLocalAutoResetWaitFuture)
        ensures
            r@ is None,
    {
        EmbeddedLocalAutoResetWaitFuture { waiter: Waiter::new() }
    }
}

/// Future returned by `EmbeddedLocalAutoResetEventRef::wait()`.
pub struct EmbeddedLocalAutoResetWaitFuture {
    waiter: Waiter,
}

impl View for EmbeddedLocalAutoResetWaitFuture {
    type V = Option<usize>;

    closed spec fn view(&self) -> Option<usize> {
        self.waiter@
    }
}

impl EmbeddedLocalAutoResetWaitFuture {
    /// Polls the future, on behalf of the task that `waker` wakes.
    pub fn poll(&mut self, event: &mut EmbeddedLocalAutoResetEventRef<'_>, waker: Waker) -> (r: Poll<()>)
        requires
            old(event).inner.wf(),
            old(event).inner@.waiters.owns(old(self)@),
        ensures
            final(event).inner.wf(),
            final(event).inner@.waiters.owns(final(self)@),
            old(event).inner@.waiters.kept(final(event).inner@.waiters, old(self)@),
            *final(final(event).inner) == *final(old(event).inner),
            old(event).inner@.polled(
                old(self)@,
                waker,
                final(event).inner@,
                final(self)@,
                r,
            ),
    {
        event.inner.poll_wait(&mut self.waiter, waker)
    }

    /// Drops the future. A future that was released and has not completed passes its signal
    /// on to the next waiter, whose waker is handed out, or back to the event.
    pub fn drop_wait(self, event: &mut EmbeddedLocalAutoResetEventRef<'_>) -> (r: Option<Waker>)
        requires
            old(event).inner.wf(),
            old(event).inner@.waiters.owns(self@),
        ensures
            final(event).inner.wf(),
            final(event).inner@ == old(event).inner@.after_drop(self@),
            old(event).inner@.waiters.kept(final(event).inner@.waiters, self@),
            *final(final(event).inner) == *final(old(event).inner),
            r == old(event).inner@.woken_by_drop(self@),
    {
        let mut waiter = self.waiter;
        event.inner.drop_wait(&mut waiter)
    }
}

} // verus!

//! Thread-safe manual-reset events whose awaiters stay registered until they look again.
use std::task::Waker;
use vstd::prelude::*;

use crate::door_rules::DoorView;
use crate::door_state::DoorState;
use crate::waiters::{Poll, Waiter};

verus! {

/// Thread-safe async event that, once set, lets all current and future awaiters through until
/// explicitly reset.
///
/// If the event is reset between an awaiter being woken and being polled again, the awaiter
/// goes back to waiting.
pub struct ManualResetEvent {
    inner: DoorState<Waker>,
}

impl View for ManualResetEvent {
    type V = DoorView<Waker>;

    closed spec fn view(&self) -> DoorView<Waker> {
        self.inner@
    }
}

impl ManualResetEvent {
    /// No waiter is ever released on its own.
    pub closed spec fn wf(self) -> bool {
        self.inner.wf()
    }

    /// What well-formedness says of the abstract event.
    pub proof fn lemma_valid(&self)
        requires
            self.wf(),
        ensures
            self@.valid(),
    {
        self.inner.lemma_valid();
    }

    /// Creates a new event in the unset state.
    pub fn boxed() -> (r: Self)
        ensures
            r.wf(),
            r@ == DoorView::<Waker>::unset(),
    {
        ManualResetEvent { inner: DoorState::new() }
    }

    /// Creates a handle that operates on the state in a container.
    pub fn embedded<'a>(place: &'a mut EmbeddedManualResetEvent) -> (r: RawManualResetEvent<'a>)
        ensures
            *r.inner == old(place).inner,
            *final(r.inner) == final(place).inner,
    {
        RawManualResetEvent { inner: &mut place.inner }
    }

    /// Opens the door, allowing current and future awaiters to pass through. Hands out the wakers
    /// of all current awaiters, oldest first, for the caller to wake; they stay stored. If the
    /// event is already set, this does nothing.
    pub fn set<'b>(&'b mut self) -> (r: Vec<&'b Waker>)
        requires
            old(self).wf(),
        ensures
            final(self).wf(),
            final(self)@ == old(self)@.after_open(),
            old(self)@.is_set ==> r@.len() == 0,
            !old(self)@.is_set ==> r@.len() == old(self)@.waiters.waiting.len(),
            !old(self)@.is_set ==> forall|i: int|
                0 <= i < r@.len() ==> *(#[trigger] r@[i]) == old(self)@.waiters.waiting[i].1,
    {
        self.inner.set()
    }

    /// Closes the door. Awaiters that were woken and have not been polled since find it closed.
    pub fn reset(&mut self)
        requires
            old(self).wf(),
        ensures
            final(self).wf(),
            final(self)@ == old(self)@.after_reset(),
    {
        self.inner.reset();
    }

    /// Whether the event is currently set.
    pub fn is_set(&self) -> (r: bool)
        ensures
            r == self@.is_set,
    {
        self.inner.is_set()
    }

    /// Non-blocking check equivalent to `is_set()`: the signal is never consumed.
    pub fn try_acquire(&self) -> (r: bool)
        ensures
            r == self@.is_set,
    {
        self.inner.is_set()
    }

    /// Returns a future that completes when the event is set.
    pub fn wait(&self) -> (r: ManualResetWaitFuture)
        ensures
            r@ is None,
    {
        ManualResetWaitFuture { waiter: Waiter::new() }
    }
}

/// Future returned by `ManualResetEvent::wait()`.
pub struct ManualResetWaitFuture {
    waiter: Waiter,
}

impl View for ManualResetWaitFuture {
    type V = Option<usize>;

    closed spec fn view(&self) -> Option<usize> {
        self.waiter@
    }
}

impl ManualResetWaitFuture {
    /// Polls the future, on behalf of the task that `waker` wakes.
    pub fn poll(&mut self, event: &mut ManualResetEvent, waker: Waker) -> (r: Poll<()>)
        requires
            old(event).wf(),
            old(event)@.waiters.owns(old(self)@),
        ensures
            final(event).wf(),
            final(event)@.waiters.owns(final(self)@),
            old(event)@.waiters.kept(final(event)@.waiters, old(self)@),
            old(event)@.polled(
                old(self)@,
                waker,
                final(event)@,
                final(self)@,
                r,
            ),
    {
        event.inner.poll_wait(&mut self.waiter, waker)
    }

    /// Drops the future, taking its waiter out of the event.
    pub fn drop_wait(self, event: &mut ManualResetEvent)
        requires
            old(event).wf(),
            old(event)@.waiters.owns(self@),
        ensures
            final(event).wf(),
            final(event)@ == old(event)@.after_drop(self@),
            old(event)@.waiters.kept(final(event)@.waiters, self@),
    {
        let mut waiter = self.waiter;
        event.inner.drop_wait(&mut waiter);
    }
}

/// Container for the state of an event that is not allocated on its own.
pub struct EmbeddedManualResetEvent {
    /// The state of the event.
    pub inner: DoorState<Waker>,
}

impl EmbeddedManualResetEvent {
    /// Creates a container with an event in the unset state.
    pub fn new() -> (r: Self)
        ensures
            r.inner.wf(),
            r.inner@ == DoorView::<Waker>::unset(),
    {
        EmbeddedManualResetEvent { inner: DoorState::new() }
    }
}

impl Default for EmbeddedManualResetEvent {
    fn default() -> (r: Self)
        ensures
            r.inner.wf(),
            r.inner@ == DoorView::<Waker>::unset(),
    {
        Self::new()
    }
}

/// Handle to the event in a container.
pub struct RawManualResetEvent<'a> {
    /// The state of the event.
    pub inner: &'a mut DoorState<Waker>,
}

impl<'a> RawManualResetEvent<'a> {
    /// Opens the door, allowing current and future awaiters to pass through. Hands out the wakers
    /// of all current awaiters, oldest first, for the caller to wake; they stay stored. If the
    /// event is already set, this does nothing.
    pub fn set<'b>(&'b mut self) -> (r: Vec<&'b Waker>)
        requires
            old(self).inner.wf(),
        ensures
            final(self).inner.wf(),
            *final(final(self).inner) == *final(old(self).inner),
            final(self).inner@ == old(self).inner@.after_open(),
            old(self).inner@.is_set ==> r@.len() == 0,
            !old(self).inner@.is_set ==> r@.len() == old(self).inner@.waiters.waiting.len(),
            !old(self).inner@.is_set ==> forall|i: int|
                0 <= i < r@.len() ==> *(#[trigger] r@[i]) == old(self).inner@.waiters.waiting[i].1,
    {
        self.inner.set()
    }

    /// Closes the door. Awaiters that were woken and have not been polled since find it closed.
    pub fn reset(&mut self)
        requires
            old(self).inner.wf(),
        ensures
            final(self).inner.wf(),
            *final(final(self).inner) == *final(old(self).inner),
            final(self).inner@ == old(self).inner@.after_reset(),
    {
        self.inner.reset();
    }

    /// Whether the event is currently set.
    pub fn is_set(&self) -> (r: bool)
        ensures
            r == old(self.inner)@.is_set,
    {
        self.inner.is_set()
    }

    /// Non-blocking check equivalent to `is_set()`: the signal is never consumed.
    pub fn try_acquire(&self) -> (r: bool)
        ensures
            r == old(self.inner)@.is_set,
    {
        self.inner.is_set()
    }

    /// Returns a future that completes when the event is set.
    pub fn wait(&self) -> (r: RawManualResetWaitFuture)
        ensures
            r@ is None,
    {
        RawManualResetWaitFuture { waiter: Waiter::new() }
    }
}

/// Future returned by `RawManualResetEvent::wait()`.
pub struct RawManualResetWaitFuture {
    waiter: Waiter,
}

impl View for RawManualResetWaitFuture {
    type V = Option<usize>;

    closed spec fn view(&self) -> Option<usize> {
        self.waiter@
    }
}

impl RawManualResetWaitFuture {
    /// Polls the future, on behalf of the task that `waker` wakes.
    pub fn poll(&mut self, event: &mut RawManualResetEvent<'_>, waker: Waker) -> (r: Poll<()>)
        requires
            old(event).inner.wf(),
            old(event).inner@.waiters.owns(old(self)@),
        ensures
            final(event).inner.wf(),
            final(event).inner@.waiters.owns(final(self)@),
            old(event).inner@.waiters.kept(final(event).inner@.waiters, old(self)@),
            *final(final(event).inner) == *final(old(event).inner),
            old(event).inner@.polled(
                old(self)@,
                waker,
                final(event).inner@,
                final(self)@,
                r,
            ),
    {
        event.inner.poll_wait(&mut self.waiter, waker)
    }

    /// Drops the future, taking its waiter out of the event.
    pub fn drop_wait(self, event: &mut RawManualResetEvent<'_>)
        requires
            old(event).inner.wf(),
            old(event).inner@.waiters.owns(self@),
        ensures
            final(event).inner.wf(),
            final(event).inner@ == old(event).inner@.after_drop(self@),
            old(event).inner@.waiters.kept(final(event).inner@.waiters, self@),
            *final(final(event).inner) == *final(old(event).inner),
    {
        let mut waiter = self.waiter;
        event.inner.drop_wait(&mut waiter);
    }
}

} // verus!

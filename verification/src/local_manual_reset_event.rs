//! Single-threaded manual-reset events whose awaiters stay registered until they look again.
use std::task::Waker;
use vstd::prelude::*;

use crate::door_rules::{armed, DoorView};
use crate::door_state::DoorState;
use crate::waiters::{Poll, Waiter};

verus! {

/// Single-threaded async event that, once set, lets all current and future awaiters through
/// until explicitly reset.
///
/// If the event is reset between an awaiter being woken and being polled again, the awaiter
/// goes back to waiting.
pub struct LocalManualResetEvent {
    inner: DoorState<Option<Waker>>,
}

impl View for LocalManualResetEvent {
    type V = DoorView<Option<Waker>>;

    closed spec fn view(&self) -> DoorView<Option<Waker>> {
        self.inner@
    }
}

impl LocalManualResetEvent {
    /// No waiter is ever released on its own.
    pub closed spec fn wf(self) -> bool {
        self.inner.wf()
    }

    /// What well-formedness says of the abstract event.
    pub proof fn lemma_valid(&self)
        requires
            self.wf(),
        ensures
            self@.valid(),
    {
        self.inner.lemma_valid();
    }

    /// Creates a new event in the unset state.
    pub fn boxed() -> (r: Self)
        ensures
            r.wf(),
            r@ == DoorView::<Option<Waker>>::unset(),
    {
        LocalManualResetEvent { inner: DoorState::new() }
    }

    /// Creates a handle that operates on the state in a container.
    pub fn embedded<'a>(place: &'a mut EmbeddedLocalManualResetEvent) -> (r: RawLocalManualResetEvent<'a>)
        ensures
            *r.inner == old(place).inner,
            *final(r.inner) == final(place).inner,
    {
        RawLocalManualResetEvent { inner: &mut place.inner }
    }

    /// Opens the door without waking anyone yet; `take_next` hands out whom to wake. The answer is
    /// `false` if the door was open already.
    pub fn open(&mut self) -> (r: bool)
        requires
            old(self).wf(),
        ensures
            final(self).wf(),
            final(self)@ == old(self)@.after_open(),
            r == !old(self)@.is_set,
    {
        self.inner.open()
    }

    /// Hands out the waker to wake next: that of the first awaiter that has one stored; `None`
    /// once there is none.
    pub fn take_next(&mut self) -> (r: Option<Waker>)
        requires
            old(self).wf(),
        ensures
            final(self).wf(),
            r == old(self)@.next(),
            final(self)@ == old(self)@.after_take(),
            old(self)@.waiters.kept(final(self)@.waiters, None),
    {
        self.inner.take_next()
    }

    /// Opens the door, allowing current and future awaiters to pass through. Hands out the wakers
    /// of all current awaiters, oldest first, for the caller to wake. If the event is already
    /// set, this does nothing.
    pub fn set(&mut self) -> (r: Vec<Waker>)
        requires
            old(self).wf(),
        ensures
            final(self).wf(),
            old(self)@.is_set ==> r@.len() == 0 && final(self)@ == old(self)@,
            !old(self)@.is_set ==> r@ == armed(old(self)@.waiters.waiting) && final(self)@
                == old(self)@.after_set(),
            old(self)@.waiters.kept(final(self)@.waiters, None),
    {
        self.inner.set()
    }

    /// Closes the door. Awaiters that were woken and have not been polled since find it closed.
    pub fn reset(&mut self)
        requires
            old(self).wf(),
        ensures
            final(self).wf(),
            final(self)@ == old(self)@.after_reset(),
    {
        self.inner.reset();
    }

    /// Whether the event is currently set.
    pub fn try_wait(&self) -> (r: bool)
        ensures
            r == self@.is_set,
    {
        self.inner.is_set()
    }

    /// Returns a future that completes when the event is set.
    pub fn wait(&self) -> (r: LocalManualResetWaitFuture)
        ensures
            r@ is None,
    {
        LocalManualResetWaitFuture { waiter: Waiter::new() }
    }
}

/// Future returned by `LocalManualResetEvent::wait()`.
pub struct LocalManualResetWaitFuture {
    waiter: Waiter,
}

impl View for LocalManualResetWaitFuture {
    type V = Option<usize>;

    closed spec fn view(&self) -> Option<usize> {
        self.waiter@
    }
}

impl LocalManualResetWaitFuture {
    /// Polls the future, on behalf of the task that `waker` wakes.
    pub fn poll(&mut self, event: &mut LocalManualResetEvent, waker: Waker) -> (r: Poll<()>)
        requires
            old(event).wf(),
            old(event)@.waiters.owns(old(self)@),
        ensures
            final(event).wf(),
            final(event)@.waiters.owns(final(self)@),
            old(event)@.waiters.kept(final(event)@.waiters, old(self)@),
            old(event)@.polled(
                old(self)@,
                Some(waker),
                final(event)@,
                final(self)@,
                r,
            ),
    {
        event.inner.poll_wait(&mut self.waiter, Some(waker))
    }

    /// Drops the future, taking its waiter out of the event.
    pub fn drop_wait(self, event: &mut LocalManualResetEvent)
        requires
            old(event).wf(),
            old(event)@.waiters.owns(self@),
        ensures
            final(event).wf(),
            final(event)@ == old(event)@.after_drop(self@),
            old(event)@.waiters.kept(final(event)@.waiters, self@),
    {
        let mut waiter = self.waiter;
        event.inner.drop_wait(&mut waiter);
    }
}

/// Container for the state of an event that is not allocated on its own.
pub struct EmbeddedLocalManualResetEvent {
    /// The state of the event.
    pub inner: DoorState<Option<Waker>>,
}

impl EmbeddedLocalManualResetEvent {
    /// Creates a container with an event in the unset state.
    pub fn new() -> (r: Self)
        ensures
            r.inner.wf(),
            r.inner@ == DoorView::<Option<Waker>>::unset(),
    {
        EmbeddedLocalManualResetEvent { inner: DoorState::new() }
    }
}

impl Default for EmbeddedLocalManualResetEvent {
    fn default() -> (r: Self)
        ensures
            r.inner.wf(),
            r.inner@ == DoorView::<Option<Waker>>::unset(),
    {
        Self::new()
    }
}

/// Handle to the event in a container.
pub struct RawLocalManualResetEvent<'a> {
    /// The state of the event.
    pub inner: &'a mut DoorState<Option<Waker>>,
}

impl<'a> RawLocalManualResetEvent<'a> {
    /// Opens the door without waking anyone yet; `take_next` hands out whom to wake. The answer is
    /// `false` if the door was open already.
    pub fn open(&mut self) -> (r: bool)
        requires
            old(self).inner.wf(),
        ensures
            final(self).inner.wf(),
            *final(final(self).inner) == *final(old(self).inner),
            final(self).inner@ == old(self).inner@.after_open(),
            r == !old(self).inner@.is_set,
    {
        self.inner.open()
    }

    /// Hands out the waker to wake next: that of the first awaiter that has one stored; `None`
    /// once there is none.
    pub fn take_next(&mut self) -> (r: Option<Waker>)
        requires
            old(self).inner.wf(),
        ensures
            final(self).inner.wf(),
            *final(final(self).inner) == *final(old(self).inner),
            r == old(self).inner@.next(),
            final(self).inner@ == old(self).inner@.after_take(),
            old(self).inner@.waiters.kept(final(self).inner@.waiters, None),
    {
        self.inner.take_next()
    }

    /// Opens the door, allowing current and future awaiters to pass through. Hands out the wakers
    /// of all current awaiters, oldest first, for the caller to wake. If the event is already
    /// set, this does nothing.
    pub fn set(&mut self) -> (r: Vec<Waker>)
        requires
            old(self).inner.wf(),
        ensures
            final(self).inner.wf(),
            *final(final(self).inner) == *final(old(self).inner),
            old(self).inner@.is_set ==> r@.len() == 0 && final(self).inner@ == old(self).inner@,
            !old(self).inner@.is_set ==> r@ == armed(old(self).inner@.waiters.waiting) && final(self).inner@
                == old(self).inner@.after_set(),
            old(self).inner@.waiters.kept(final(self).inner@.waiters, None),
    {
        self.inner.set()
    }

    /// Closes the door. Awaiters that were woken and have not been polled since find it closed.
    pub fn reset(&mut self)
        requires
            old(self).inner.wf(),
        ensures
            final(self).inner.wf(),
            *final(final(self).inner) == *final(old(self).inner),
            final(self).inner@ == old(self).inner@.after_reset(),
    {
        self.inner.reset();
    }

    /// Whether the event is currently set.
    pub fn try_wait(&self) -> (r: bool)
        ensures
            r == old(self.inner)@.is_set,
    {
        self.inner.is_set()
    }

    /// Returns a future that completes when the event is set.
    pub fn wait(&self) -> (r: RawLocalManualResetWaitFuture)
        ensures
            r@ is None,
    {
        RawLocalManualResetWaitFuture { waiter: Waiter::new() }
    }
}

/// Future returned by `RawLocalManualResetEvent::wait()`.
pub struct RawLocalManualResetWaitFuture {
    waiter: Waiter,
}

impl View for RawLocalManualResetWaitFuture {
    type V = Option<usize>;

    closed spec fn view(&self) -> Option<usize> {
        self.waiter@
    }
}

impl RawLocalManualResetWaitFuture {
    /// Polls the future, on behalf of the task that `waker` wakes.
    pub fn poll(&mut self, event: &mut RawLocalManualResetEvent<'_>, waker: Waker) -> (r: Poll<()>)
        requires
            old(event).inner.wf(),
            old(event).inner@.waiters.owns(old(self)@),
        ensures
            final(event).inner.wf(),
            final(event).inner@.waiters.owns(final(self)@),
            old(event).inner@.waiters.kept(final(event).inner@.waiters, old(self)@),
            *final(final(event).inner) == *final(old(event).inner),
            old(event).inner@.polled(
                old(self)@,
                Some(waker),
                final(event).inner@,
                final(self)@,
                r,
            ),
    {
        event.inner.poll_wait(&mut self.waiter, Some(waker))
    }

    /// Drops the future, taking its waiter out of the event.
    pub fn drop_wait(self, event: &mut RawLocalManualResetEvent<'_>)
        requires
            old(event).inner.wf(),
            old(event).inner@.waiters.owns(self@),
        ensures
            final(event).inner.wf(),
            final(event).inner@ == old(event).inner@.after_drop(self@),
            old(event).inner@.waiters.kept(final(event).inner@.waiters, self@),
            *final(final(event).inner) == *final(old(event).inner),
    {
        let mut waiter = self.waiter;
        event.inner.drop_wait(&mut waiter);
    }
}

} // verus!

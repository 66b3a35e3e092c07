//! Single-threaded one-time events.
use std::backtrace::Backtrace;
use std::task::Waker;
use vstd::prelude::*;

use crate::disconnected::Disconnected;
use crate::once::backtrace::capture_backtrace;
use crate::once::event_state::{
    EVENT_AWAITING, EVENT_BOUND, EVENT_CONSUMED, EVENT_DISCONNECTED, EVENT_SET, EVENT_UNBOUND,
};
use crate::once::rules::{Departure, OnceView, Reception, Stage};
use crate::waiters::Poll;

pub mod by_ptr;
pub mod by_rc;
pub mod by_ref;

verus! {

/// A one-time event that can send and receive a value of type `T` on a single thread.
///
/// The event can only be used once: after binding a sender and a receiver, it cannot be bound
/// again. An endpoint is handed the event that it belongs to with every call.
pub struct LocalOnceEvent<T> {
    state: u8,
    awaiter: Option<Waker>,
    value: Option<T>,
    backtrace: Option<Backtrace>,
    sender: Ghost<bool>,
    receiver: bool,
}

impl<T> View for LocalOnceEvent<T> {
    type V = OnceView<T>;

    closed spec fn view(&self) -> OnceView<T> {
        OnceView {
            stage: if self.state == EVENT_UNBOUND {
                Stage::Unbound
            } else if self.state == EVENT_BOUND {
                Stage::Bound
            } else if self.state == EVENT_AWAITING {
                Stage::Awaiting(self.awaiter->0)
            } else if self.state == EVENT_SET {
                match self.value {
                    Some(value) => Stage::Sent(value),
                    None => Stage::Consumed,
                }
            } else {
                Stage::Disconnected
            },
            sender: self.sender@,
            receiver: self.receiver,
        }
    }
}

impl<T> LocalOnceEvent<T> {
    /// The state says which of the other fields are filled.
    pub closed spec fn inv(self) -> bool {
        &&& self@.valid()
        &&& self.state == EVENT_UNBOUND || self.state == EVENT_BOUND || self.state == EVENT_SET
            || self.state == EVENT_AWAITING || self.state == EVENT_DISCONNECTED || self.state
            == EVENT_CONSUMED
        &&& self.awaiter is Some <==> self.state == EVENT_AWAITING
        &&& self.value is Some ==> self.state == EVENT_SET
        &&& self.state == EVENT_CONSUMED ==> !self.sender@ && !self.receiver
    }

    /// The invariant holds, and each endpoint that has left has said so.
    pub open spec fn wf(self) -> bool {
        self.inv() && self@.tidy()
    }

    /// What the invariant says of the abstract event.
    pub proof fn lemma_valid(&self)
        requires
            self.inv(),
        ensures
            self@.valid(),
    {
    }

    /// The backtrace of the receiver's latest look.
    pub closed spec fn backtrace(self) -> Option<Backtrace> {
        self.backtrace
    }

    /// The backtrace of the current awaiter: that of the receiver's latest look, until the receiver
    /// leaves.
    pub open spec fn current_backtrace(self) -> Option<Backtrace> {
        if self@.receiver {
            self.backtrace()
        } else {
            None
        }
    }

    /// The current awaiter is the receiver that has looked and is still there.
    pub proof fn law_awaiter_is_the_receiver_that_looked(&self)
        ensures
            self@.receiver ==> self.current_backtrace() == self.backtrace(),
            !self@.receiver ==> self.current_backtrace() is None,
    {
    }

    /// Creates a new single-threaded event, to be bound to a sender-receiver pair.
    pub fn new() -> (r: Self)
        ensures
            r.wf(),
            r@ == OnceView::<T>::unbound(),
            r.backtrace() is None,
    {
        LocalOnceEvent {
            state: EVENT_UNBOUND,
            awaiter: None,
            value: None,
            backtrace: None,
            sender: Ghost(false),
            receiver: false,
        }
    }

    fn new_bound() -> (r: Self)
        ensures
            r.wf(),
            r@ == OnceView::<T>::bound(),
            r.backtrace() is None,
    {
        LocalOnceEvent {
            state: EVENT_BOUND,
            awaiter: None,
            value: None,
            backtrace: None,
            sender: Ghost(true),
            receiver: true,
        }
    }

    /// Puts a new event that starts in the bound state in its place.
    pub(crate) fn new_in_place_bound(storage: &mut Option<Self>)
        ensures
            *final(storage) is Some,
            (*final(storage))->0.wf(),
            (*final(storage))->0@ == OnceView::<T>::bound(),
            (*final(storage))->0.backtrace() is None,
    {
        *storage = Some(Self::new_bound());
    }

    /// Sets the value of the event. Hands out the waker of the receiver if it is waiting.
    ///
    /// Returns `Err` if the receiver has already disconnected and the sender must clean up the
    /// event now.
    pub(crate) fn set(&mut self, result: T) -> (r: (Result<(), Disconnected>, Option<Waker>))
        requires
            old(self).inv(),
            old(self)@.sender,
        ensures
            final(self).inv(),
            final(self)@ == old(self)@.after_set(result),
            final(self).backtrace() == old(self).backtrace(),
            r.0 == old(self)@.sender_result(),
            r.1 == old(self)@.waiting(),
    {
        self.value = Some(result);
        let previous_state: u8 = self.state;
        self.state = previous_state + 1;
        self.sender = Ghost(false);
        if previous_state == EVENT_BOUND {
            // There was nobody listening via the receiver.
            (Ok(()), None)
        } else if previous_state == EVENT_AWAITING {
            // There was someone listening: the value is there before they are woken.
            let waker = self.awaiter.take();
            self.state = EVENT_SET;
            (Ok(()), waker)
        } else {
            // The receiver is gone: nobody wants the value.
            self.value = None;
            (Err(Disconnected), None)
        }
    }

    /// Looks for the outcome, on behalf of the task that `waker` wakes.
    ///
    /// If `Some` is returned, the caller is the last remaining endpoint and responsible for
    /// cleaning up the event.
    pub(crate) fn poll(&mut self, waker: Waker) -> (r: Option<Result<T, Disconnected>>)
        requires
            old(self).inv(),
            old(self)@.receiver,
        ensures
            final(self).inv(),
            final(self)@ == old(self)@.after_poll(waker),
            final(self).backtrace() is Some,
            r == old(self)@.poll_result(),
    {
        self.backtrace = Some(capture_backtrace());
        if self.state == EVENT_BOUND {
            // The sender has not yet set any value, so we will have to wait.
            self.awaiter = Some(waker);
            self.state = EVENT_AWAITING;
            None
        } else if self.state == EVENT_SET {
            self.receiver = false;
            match self.value.take() {
                Some(value) => Some(Ok(value)),
                None => None,
            }
        } else if self.state == EVENT_AWAITING {
            // We are polled again while waiting: the old waker is replaced.
            self.awaiter = Some(waker);
            None
        } else {
            // There is no result coming, ever.
            self.receiver = false;
            Some(Err(Disconnected))
        }
    }

    /// Marks the event as having been disconnected early from the sender side. Hands out the
    /// waker of the receiver if it is waiting.
    ///
    /// Returns `Err` if the receiver has already disconnected and the sender must clean up the
    /// event now.
    pub(crate) fn sender_dropped_without_set(&mut self) -> (r: (
        Result<(), Disconnected>,
        Option<Waker>,
    ))
        requires
            old(self).inv(),
            old(self)@.sender,
        ensures
            final(self).inv(),
            final(self)@ == old(self)@.after_sender_drop(),
            final(self).backtrace() == old(self).backtrace(),
            r.0 == old(self)@.sender_result(),
            r.1 == old(self)@.waiting(),
    {
        let previous_state: u8 = self.state;
        self.state = EVENT_DISCONNECTED;
        self.sender = Ghost(false);
        if previous_state == EVENT_BOUND {
            (Ok(()), None)
        } else if previous_state == EVENT_AWAITING {
            let waker = self.awaiter.take();
            (Ok(()), waker)
        } else {
            (Err(Disconnected), None)
        }
    }

    /// Checks whether the event has been set, either with a value or with a disconnect signal.
    pub(crate) fn is_set(&self) -> (r: bool)
        requires
            self.inv(),
            self@.receiver,
        ensures
            r == self@.is_ready(),
    {
        self.state == EVENT_SET || self.state == EVENT_DISCONNECTED
    }

    /// Attempts to obtain the value from the event, if one has been sent, while indicating that
    /// no further polls will be performed by the receiver.
    ///
    /// Returns `Ok(None)` if the sender has not yet done anything; it will then clean up the
    /// event. In all other cases, the receiver must clean up the event now.
    pub(crate) fn final_poll(&mut self) -> (r: Result<Option<T>, Disconnected>)
        requires
            old(self).inv(),
            old(self)@.receiver,
        ensures
            final(self).inv(),
            final(self)@ == old(self)@.after_final_poll(),
            final(self).backtrace() == old(self).backtrace(),
            r == old(self)@.final_result(),
    {
        let previous_state: u8 = self.state;
        self.state = EVENT_DISCONNECTED;
        self.receiver = false;
        if previous_state == EVENT_BOUND {
            Ok(None)
        } else if previous_state == EVENT_SET {
            let value = self.value.take();
            Ok(value)
        } else if previous_state == EVENT_AWAITING {
            // Nobody is to be woken any more.
            self.awaiter = None;
            Ok(None)
        } else {
            Err(Disconnected)
        }
    }

    /// Notes that the sender leaves without a word.
    pub(crate) fn sender_left(&mut self)
        requires
            old(self).inv(),
            old(self)@.sender,
        ensures
            final(self).inv(),
            final(self)@ == old(self)@.after_sender_left(),
            final(self).backtrace() == old(self).backtrace(),
    {
        self.sender = Ghost(false);
    }

    /// Notes that the receiver leaves without a word.
    pub(crate) fn receiver_left(&mut self)
        requires
            old(self).inv(),
            old(self)@.receiver,
        ensures
            final(self).inv(),
            final(self)@ == old(self)@.after_receiver_left(),
            final(self).backtrace() == old(self).backtrace(),
    {
        self.receiver = false;
    }

    /// Marks the event as bound to a sender-receiver pair.
    pub(crate) fn bind(&mut self)
        requires
            old(self).wf(),
            old(self)@.stage is Unbound,
        ensures
            final(self).wf(),
            final(self)@ == OnceView::<T>::bound(),
            final(self).backtrace() == old(self).backtrace(),
    {
        self.state = EVENT_BOUND;
        self.sender = Ghost(true);
        self.receiver = true;
    }

    /// Returns both the sender and receiver for this event, connected by a shared reference to the event.
    pub fn bind_by_ref(&mut self) -> (r: (LocalOnceSender<RefLocalEvent>, LocalOnceReceiver<RefLocalEvent>))
        requires
            old(self).wf(),
            old(self)@.stage is Unbound,
        ensures
            final(self).wf(),
            r.1.is_live(),
            final(self)@ == OnceView::<T>::bound(),
            final(self).backtrace() == old(self).backtrace(),
    {
        self.bind();
        (LocalOnceSender::new(RefLocalEvent), LocalOnceReceiver::new(RefLocalEvent))
    }

    /// Returns both the sender and receiver for this event, connected by a shared reference to the event.
    ///
    /// Returns `None` if the event has already been bound to a sender-receiver pair.
    pub fn bind_by_ref_checked(&mut self) -> (r: Option<(LocalOnceSender<RefLocalEvent>, LocalOnceReceiver<RefLocalEvent>)>)
        requires
            old(self).wf(),
        ensures
            final(self).wf(),
            r is Some <==> old(self)@.stage is Unbound,
            r is Some ==> (r->0).1.is_live() && final(self)@ == OnceView::<T>::bound(),
            r is None ==> final(self)@ == old(self)@,
            final(self).backtrace() == old(self).backtrace(),
    {
        if self.state != EVENT_UNBOUND {
            return None;
        }
        Some(self.bind_by_ref())
    }

    /// Returns both the sender and receiver for this event, connected by a shared reference to the event,
    /// without a check that the event is not bound yet.
    pub fn bind_by_ref_unchecked(&mut self) -> (r: (LocalOnceSender<RefLocalEvent>, LocalOnceReceiver<RefLocalEvent>))
        requires
            old(self).wf(),
            old(self)@.stage is Unbound,
        ensures
            final(self).wf(),
            r.1.is_live(),
            final(self)@ == OnceView::<T>::bound(),
            final(self).backtrace() == old(self).backtrace(),
    {
        self.bind_by_ref()
    }

    /// Returns both the sender and receiver for this event, connected by an `Rc` to the event.
    pub fn bind_by_rc(&mut self) -> (r: (LocalOnceSender<RcLocalEvent>, LocalOnceReceiver<RcLocalEvent>))
        requires
            old(self).wf(),
            old(self)@.stage is Unbound,
        ensures
            final(self).wf(),
            r.1.is_live(),
            final(self)@ == OnceView::<T>::bound(),
            final(self).backtrace() == old(self).backtrace(),
    {
        self.bind();
        (LocalOnceSender::new(RcLocalEvent), LocalOnceReceiver::new(RcLocalEvent))
    }

    /// Returns both the sender and receiver for this event, connected by an `Rc` to the event.
    ///
    /// Returns `None` if the event has already been bound to a sender-receiver pair.
    pub fn bind_by_rc_checked(&mut self) -> (r: Option<(LocalOnceSender<RcLocalEvent>, LocalOnceReceiver<RcLocalEvent>)>)
        requires
            old(self).wf(),
        ensures
            final(self).wf(),
            r is Some <==> old(self)@.stage is Unbound,
            r is Some ==> (r->0).1.is_live() && final(self)@ == OnceView::<T>::bound(),
            r is None ==> final(self)@ == old(self)@,
            final(self).backtrace() == old(self).backtrace(),
    {
        if self.state != EVENT_UNBOUND {
            return None;
        }
        Some(self.bind_by_rc())
    }

    /// Returns both the sender and receiver for this event, connected by an `Rc` to the event,
    /// without a check that the event is not bound yet.
    pub fn bind_by_rc_unchecked(&mut self) -> (r: (LocalOnceSender<RcLocalEvent>, LocalOnceReceiver<RcLocalEvent>))
        requires
            old(self).wf(),
            old(self)@.stage is Unbound,
        ensures
            final(self).wf(),
            r.1.is_live(),
            final(self)@ == OnceView::<T>::bound(),
            final(self).backtrace() == old(self).backtrace(),
    {
        self.bind_by_rc()
    }

    /// Returns both the sender and receiver for this event, connected by a pointer to the event.
    pub fn bind_by_ptr(&mut self) -> (r: (LocalOnceSender<PtrLocalEvent>, LocalOnceReceiver<PtrLocalEvent>))
        requires
            old(self).wf(),
            old(self)@.stage is Unbound,
        ensures
            final(self).wf(),
            r.1.is_live(),
            final(self)@ == OnceView::<T>::bound(),
            final(self).backtrace() == old(self).backtrace(),
    {
        self.bind();
        (LocalOnceSender::new(PtrLocalEvent), LocalOnceReceiver::new(PtrLocalEvent))
    }

    /// Returns both the sender and receiver for this event, connected by a pointer to the event.
    ///
    /// Returns `None` if the event has already been bound to a sender-receiver pair.
    pub fn bind_by_ptr_checked(&mut self) -> (r: Option<(LocalOnceSender<PtrLocalEvent>, LocalOnceReceiver<PtrLocalEvent>)>)
        requires
            old(self).wf(),
        ensures
            final(self).wf(),
            r is Some <==> old(self)@.stage is Unbound,
            r is Some ==> (r->0).1.is_live() && final(self)@ == OnceView::<T>::bound(),
            r is None ==> final(self)@ == old(self)@,
            final(self).backtrace() == old(self).backtrace(),
    {
        if self.state != EVENT_UNBOUND {
            return None;
        }
        Some(self.bind_by_ptr())
    }

    /// Returns both the sender and receiver for this event, connected by a pointer to the event,
    /// without a check that the event is not bound yet.
    pub fn bind_by_ptr_unchecked(&mut self) -> (r: (LocalOnceSender<PtrLocalEvent>, LocalOnceReceiver<PtrLocalEvent>))
        requires
            old(self).wf(),
            old(self)@.stage is Unbound,
        ensures
            final(self).wf(),
            r.1.is_live(),
            final(self)@ == OnceView::<T>::bound(),
            final(self).backtrace() == old(self).backtrace(),
    {
        self.bind_by_ptr()
    }

    /// Creates a new single-threaded event whose storage is released when both endpoints are
    /// gone, together with its sender and receiver.
    pub fn new_managed() -> (r: (
        Self,
        LocalOnceSender<ManagedLocalEvent>,
        LocalOnceReceiver<ManagedLocalEvent>,
    ))
        ensures
            r.0.wf(),
            r.0@ == OnceView::<T>::bound(),
            r.0.backtrace() is None,
            r.2.is_live(),
    {
        (
            Self::new_bound(),
            LocalOnceSender::new(ManagedLocalEvent),
            LocalOnceReceiver::new(ManagedLocalEvent),
        )
    }

    /// Puts a new event in its place and returns both the sender and receiver for this event,
    /// connected by a pointer to the event.
    pub fn new_in_place_by_ptr(place: &mut Option<Self>) -> (r: (
        LocalOnceSender<PtrLocalEvent>,
        LocalOnceReceiver<PtrLocalEvent>,
    ))
        ensures
            *final(place) is Some,
            (*final(place))->0.wf(),
            (*final(place))->0@ == OnceView::<T>::bound(),
            (*final(place))->0.backtrace() is None,
            r.1.is_live(),
    {
        Self::new_in_place_bound(place);
        (LocalOnceSender::new(PtrLocalEvent), LocalOnceReceiver::new(PtrLocalEvent))
    }

    /// The backtrace of the current awaiter, if there is one.
    pub(crate) fn awaiter_backtrace(&self) -> (r: Option<&Backtrace>)
        ensures
            match self.current_backtrace() {
                Some(backtrace) => r == Some(&backtrace),
                None => r is None,
            },
    {
        if self.receiver {
            self.backtrace.as_ref()
        } else {
            None
        }
    }

    /// Uses the provided closure to inspect the backtrace of the current awaiter: the receiver that
    /// has looked and is still there. The closure receives `None` if no one is awaiting the event.
    pub fn inspect_awaiter<F: FnOnce(Option<&Backtrace>)>(&self, f: F)
        requires
            match self.current_backtrace() {
                Some(backtrace) => call_requires(f, (Some(&backtrace),)),
                None => call_requires(f, (None::<&Backtrace>,)),
            },
        ensures
            match self.current_backtrace() {
                Some(backtrace) => call_ensures(f, (Some(&backtrace),), ()),
                None => call_ensures(f, (None::<&Backtrace>,), ()),
            },
            !self@.receiver ==> call_ensures(f, (None::<&Backtrace>,), ()),
    {
        f(self.awaiter_backtrace())
    }
}

impl<T> Default for LocalOnceEvent<T> {
    fn default() -> (r: Self)
        ensures
            r.wf(),
            r@ == OnceView::<T>::unbound(),
            r.backtrace() is None,
    {
        Self::new()
    }
}

/// The mechanism by which an endpoint is bound to its event.
pub trait LocalEventRef: Sized {
    /// Whether the mechanism releases the storage of the event when the last endpoint leaves.
    spec fn manages_storage() -> bool;

    /// Releases the event, as the last endpoint is leaving. The answer is whether its storage
    /// is to be released with it, or has an owner of its own.
    fn release_event(&self) -> (r: bool)
        ensures
            r == Self::manages_storage(),
    ;
}

/// An event referenced via shared reference; whoever lent it owns its storage.
#[derive(Clone, Copy, Debug)]
pub struct RefLocalEvent;

impl LocalEventRef for RefLocalEvent {
    open spec fn manages_storage() -> bool {
        false
    }

    fn release_event(&self) -> (r: bool) {
        false
    }
}

/// An event referenced via `Rc`, whose count releases its storage.
#[derive(Clone, Copy, Debug)]
pub struct RcLocalEvent;

impl LocalEventRef for RcLocalEvent {
    open spec fn manages_storage() -> bool {
        false
    }

    fn release_event(&self) -> (r: bool) {
        false
    }
}

/// An event referenced via pointer; whoever placed it owns its storage.
#[derive(Clone, Copy, Debug)]
pub struct PtrLocalEvent;

impl LocalEventRef for PtrLocalEvent {
    open spec fn manages_storage() -> bool {
        false
    }

    fn release_event(&self) -> (r: bool) {
        false
    }
}

/// An event whose storage is released with the last endpoint.
#[derive(Clone, Copy, Debug)]
pub struct ManagedLocalEvent;

impl LocalEventRef for ManagedLocalEvent {
    open spec fn manages_storage() -> bool {
        true
    }

    fn release_event(&self) -> (r: bool) {
        true
    }
}

/// A sender that can send a single value through a single-threaded event.
///
/// The type parameter is the mechanism by which the endpoint is bound to the event.
pub struct LocalOnceSender<E: LocalEventRef> {
    event_ref: E,
}

impl<E: LocalEventRef> LocalOnceSender<E> {
    fn new(event_ref: E) -> Self {
        LocalOnceSender { event_ref }
    }

    /// Sends a value through `event`, which this sender belongs to.
    ///
    /// This consumes the sender and always succeeds, regardless of whether there is a receiver
    /// waiting.
    pub fn send<T>(self, event: &mut LocalOnceEvent<T>, value: T) -> (r: Departure)
        requires
            old(event).wf(),
            old(event)@.sender,
        ensures
            final(event).wf(),
            final(event)@ == old(event)@.after_set(value),
            final(event).backtrace() == old(event).backtrace(),
            r.waker == old(event)@.waiting(),
            r.release == (E::manages_storage() && !old(event)@.receiver),
    {
        let (told, waker) = event.set(value);
        let release = match told {
            Ok(()) => false,
            Err(Disconnected) => self.event_ref.release_event(),
        };
        Departure { waker, release }
    }

    /// Drops the sender without sending a value.
    pub fn drop_sender<T>(self, event: &mut LocalOnceEvent<T>) -> (r: Departure)
        requires
            old(event).wf(),
            old(event)@.sender,
        ensures
            final(event).wf(),
            final(event)@ == old(event)@.after_sender_drop(),
            final(event).backtrace() == old(event).backtrace(),
            r.waker == old(event)@.waiting(),
            r.release == (E::manages_storage() && !old(event)@.receiver),
    {
        let (told, waker) = event.sender_dropped_without_set();
        let release = match told {
            Ok(()) => false,
            Err(Disconnected) => self.event_ref.release_event(),
        };
        Departure { waker, release }
    }
}

/// A receiver that can receive a single value through a single-threaded event.
///
/// The type parameter is the mechanism by which the endpoint is bound to the event.
pub struct LocalOnceReceiver<E: LocalEventRef> {
    event_ref: Option<E>,
}

impl<E: LocalEventRef> LocalOnceReceiver<E> {
    /// The receiver has not been told the outcome yet.
    pub closed spec fn is_live(self) -> bool {
        self.event_ref is Some
    }

    fn new(event_ref: E) -> (r: Self)
        ensures
            r.is_live(),
    {
        LocalOnceReceiver { event_ref: Some(event_ref) }
    }

    /// Checks whether an outcome is ready to be received.
    pub fn is_ready<T>(&self, event: &LocalOnceEvent<T>) -> (r: bool)
        requires
            self.is_live(),
            event.wf(),
            event@.receiver,
        ensures
            r == event@.is_ready(),
    {
        event.is_set()
    }

    /// Consumes the receiver and transforms it into the received value, if the value is
    /// available.
    pub fn into_value<T>(self, event: &mut LocalOnceEvent<T>) -> (r: Reception<Option<T>>)
        requires
            self.is_live(),
            old(event).wf(),
            old(event)@.receiver,
        ensures
            final(event).wf(),
            final(event)@ == old(event)@.after_final_poll(),
            final(event).backtrace() == old(event).backtrace(),
            r.outcome == match old(event)@.stage {
                Stage::Sent(value) => Some(value),
                _ => None,
            },
            r.release == (E::manages_storage() && !old(event)@.sender),
    {
        let event_ref = self.event_ref.unwrap();
        match event.final_poll() {
            Ok(Some(value)) => {
                Reception { outcome: Some(value), release: event_ref.release_event() }
            },
            Ok(None) => {
                // The sender is still there and will clean up.
                Reception { outcome: None, release: false }
            },
            Err(Disconnected) => {
                Reception { outcome: None, release: event_ref.release_event() }
            },
        }
    }

    /// Polls for the outcome, on behalf of the task that `waker` wakes.
    pub fn poll<T>(&mut self, event: &mut LocalOnceEvent<T>, waker: Waker) -> (r: Reception<
        Poll<Result<T, Disconnected>>,
    >)
        requires
            old(self).is_live(),
            old(event).wf(),
            old(event)@.receiver,
        ensures
            final(event).wf(),
            final(event)@ == old(event)@.after_poll(waker),
            final(event).backtrace() is Some,
            r.outcome == match old(event)@.poll_result() {
                Some(outcome) => Poll::Ready(outcome),
                None => Poll::Pending,
            },
            final(self).is_live() == (old(event)@.poll_result() is None),
            r.release == (E::manages_storage() && !old(event)@.sender),
    {
        match event.poll(waker) {
            Some(outcome) => {
                let release = match self.event_ref.take() {
                    Some(event_ref) => event_ref.release_event(),
                    None => false,
                };
                Reception { outcome: Poll::Ready(outcome), release }
            },
            None => Reception { outcome: Poll::Pending, release: false },
        }
    }

    /// Drops the receiver. The answer is whether the storage of the event is to be released
    /// now.
    pub fn drop_receiver<T>(self, event: &mut LocalOnceEvent<T>) -> (r: bool)
        requires
            old(event).wf(),
            self.is_live() ==> old(event)@.receiver,
        ensures
            final(event).wf(),
            final(event).backtrace() == old(event).backtrace(),
            self.is_live() ==> final(event)@ == old(event)@.after_final_poll() && r == (
            E::manages_storage() && !old(event)@.sender),
            !self.is_live() ==> final(event)@ == old(event)@ && !r,
    {
        match self.event_ref {
            Some(event_ref) => match event.final_poll() {
                Ok(None) => false,
                _ => event_ref.release_event(),
            },
            None => false,
        }
    }
}

/// Only an event that owns its storage is released with its last endpoint; one that someone lent,
/// shares or placed is not.
pub proof fn law_only_owned_storage_is_released()
    ensures
        ManagedLocalEvent::manages_storage(),
        !RefLocalEvent::manages_storage(),
        !RcLocalEvent::manages_storage(),
        !PtrLocalEvent::manages_storage(),
{
}

} // verus!

//! Thread-safe one-time events.
//!
//! The sender and the receiver may be on different threads, so that either can find that the
//! other has moved on since it last looked. Each of them changes the event by single steps:
//! `set_begin`, `sender_drop_begin` and `finish_wake` are the sender's, `load` and `poll_from`
//! the receiver's. The receiver's steps are specified for every state that the sender's steps
//! can have led to in between, and the sender's steps say that they lead to no other
//! (`seen_before`). To the abstract event each step does either nothing or all that one operation
//! of an endpoint does, so that the laws of operations hold in whatever order the steps come.
use std::backtrace::Backtrace;
use std::task::Waker;
use vstd::prelude::*;

use crate::disconnected::Disconnected;
use crate::once::backtrace::capture_backtrace;
use crate::once::event_state::{
    EVENT_AWAITING, EVENT_BOUND, EVENT_CONSUMED, EVENT_DISCONNECTED, EVENT_SET, EVENT_SIGNALING,
    EVENT_UNBOUND,
};
use crate::once::rules::{Departure, OnceView, Stage};
use crate::waiters::Poll;

verus! {

/// What a receiver finds when it looks while the sender may be acting.
pub enum Look<T> {
    /// No outcome yet; the waker was stored.
    Pending,
    /// The outcome.
    Ready(Result<T, Disconnected>),
    /// The sender is between two steps and no one else may touch the event: look again. The
    /// waker is handed back.
    Busy(Waker),
}

/// A one-time event that can send and receive a value of type `T` across threads.
///
/// The event can only be used once: after binding a sender and a receiver, it cannot be bound
/// again. An endpoint is handed the event that it belongs to with every call.
pub struct OnceEvent<T: Send> {
    state: u8,
    awaiter: Option<Waker>,
    value: Option<T>,
    backtrace: Option<Backtrace>,
    owners: u8,
    sender: Ghost<bool>,
    receiver: bool,
}

impl<T: Send> View for OnceEvent<T> {
    type V = OnceView<T>;

    closed spec fn view(&self) -> OnceView<T> {
        OnceView {
            stage: if self.state == EVENT_UNBOUND {
                Stage::Unbound
            } else if self.state == EVENT_BOUND {
                Stage::Bound
            } else if self.state == EVENT_AWAITING {
                Stage::Awaiting(self.awaiter->0)
            } else if self.state == EVENT_SET || self.state == EVENT_SIGNALING {
                match self.value {
                    Some(value) => Stage::Sent(value),
                    None => Stage::Consumed,
                }
            } else {
                Stage::Disconnected
            },
            sender: self.sender@,
            receiver: self.receiver,
        }
    }
}

impl<T: Send> OnceEvent<T> {
    /// What holds between any two steps.
    ///
    /// A waker is there while the receiver waits and until the sender that found it waiting
    /// has taken it; a value is there from when it is sent until it is picked up. Each
    /// endpoint that has not acted yet is an owner of the event.
    pub closed spec fn inv(self) -> bool {
        &&& self@.valid()
        &&& self.state <= EVENT_CONSUMED
        &&& self.state == EVENT_AWAITING || self.state == EVENT_SIGNALING ==> self.awaiter is Some
        &&& self.awaiter is Some ==> self.state == EVENT_AWAITING || self.state
            == EVENT_SIGNALING || self.state == EVENT_DISCONNECTED
        &&& self.state == EVENT_SIGNALING ==> self.value is Some
        &&& self.value is Some ==> self.state == EVENT_SET || self.state == EVENT_SIGNALING
        &&& self.state == EVENT_DISCONNECTED && self.awaiter is Some ==> !self.sender@
        &&& self.state == EVENT_CONSUMED ==> !self.sender@ && !self.receiver
        &&& self.owners <= 2
        &&& self.state == EVENT_UNBOUND ==> self.owners == 0
        &&& self@.attached() <= self.owners
    }

    /// How many endpoints have acted and still own a share of the event's storage.
    pub closed spec fn unreleased(self) -> int {
        self.owners - self@.attached()
    }

    /// How many endpoints own a share of the event's storage.
    pub open spec fn owned(self) -> int {
        self@.attached() + self.unreleased()
    }

    /// The waker that the sender, having acted, has yet to take.
    pub closed spec fn waking(self) -> Option<Waker> {
        if self.state == EVENT_SIGNALING || self.state == EVENT_DISCONNECTED {
            self.awaiter
        } else {
            None
        }
    }

    /// The sender is between two steps and keeps the receiver out.
    pub closed spec fn is_signaling(self) -> bool {
        self.state == EVENT_SIGNALING
    }

    /// The event is at rest: the invariant holds and the sender is not between two steps.
    pub open spec fn wf(self) -> bool {
        self.inv() && self.waking() is None && !self.is_signaling()
    }

    /// The receiver that saw the state `seen` can find the event as it is now: only steps of
    /// the sender lie in between.
    pub closed spec fn seen_before(self, seen: u8) -> bool {
        if seen == EVENT_BOUND {
            (self.state == EVENT_BOUND || self.state == EVENT_SET || self.state
                == EVENT_DISCONNECTED) && self.awaiter is None
        } else if seen == EVENT_AWAITING {
            self.state == EVENT_AWAITING || self.state == EVENT_SIGNALING || self.state
                == EVENT_SET || self.state == EVENT_DISCONNECTED
        } else if seen == EVENT_SIGNALING {
            self.state == EVENT_SIGNALING || self.state == EVENT_SET
        } else {
            self.state == seen
        }
    }

    /// What the invariant says of the abstract event.
    pub proof fn lemma_valid(&self)
        requires
            self.inv(),
        ensures
            self@.valid(),
            self.unreleased() >= 0,
    {
    }

    /// The backtrace of the receiver's latest look.
    pub closed spec fn backtrace(self) -> Option<Backtrace> {
        self.backtrace
    }

    /// The backtrace of the current awaiter: that of the receiver's latest look, until the receiver
    /// leaves.
    pub open spec fn current_backtrace(self) -> Option<Backtrace> {
        if self@.receiver {
            self.backtrace()
        } else {
            None
        }
    }

    /// The current awaiter is the receiver that has looked and is still there.
    pub proof fn law_awaiter_is_the_receiver_that_looked(&self)
        ensures
            self@.receiver ==> self.current_backtrace() == self.backtrace(),
            !self@.receiver ==> self.current_backtrace() is None,
    {
    }

    /// The event's storage is owned by the endpoints that are attached and by those that have acted and
    /// not yet given up their share.
    pub proof fn law_endpoints_own_the_storage(&self)
        requires
            self.inv(),
        ensures
            self.owned() == self@.attached() + self.unreleased(),
            0 <= self.unreleased() <= 2 - self@.attached(),
    {
    }

    /// A waker is not lost between two steps: while the sender keeps the receiver out, it has the value
    /// sent and the receiver's waker to take; and a waker is left for the sender to take only after it has
    /// acted.
    pub proof fn law_waker_is_not_lost(&self)
        requires
            self.inv(),
        ensures
            self.is_signaling() ==> self.waking() is Some && self@.stage is Sent,
            self.waking() is Some ==> !self@.sender && self@.waiting() is None,
    {
    }

    /// Creates a new thread-safe event, to be bound to a sender-receiver pair.
    pub fn new() -> (r: Self)
        ensures
            r.wf(),
            r@ == OnceView::<T>::unbound(),
            r.unreleased() == 0,
            r.backtrace() is None,
    {
        OnceEvent {
            state: EVENT_UNBOUND,
            awaiter: None,
            value: None,
            backtrace: None,
            owners: 0,
            sender: Ghost(false),
            receiver: false,
        }
    }

    /// Creates a new event that starts in the bound state.
    pub(crate) fn new_bound() -> (r: Self)
        ensures
            r.wf(),
            r@ == OnceView::<T>::bound(),
            r.unreleased() == 0,
            r.backtrace() is None,
    {
        OnceEvent {
            state: EVENT_BOUND,
            awaiter: None,
            value: None,
            backtrace: None,
            owners: 2,
            sender: Ghost(true),
            receiver: true,
        }
    }

    /// A step of the sender: publishes the value, in one increment of the state. If the
    /// receiver was waiting, the sender must take its waker next, with `finish_wake`.
    ///
    /// Returns `Err` if the receiver has already disconnected; the value is then dropped.
    pub fn set_begin(&mut self, result: T) -> (r: Result<(), Disconnected>)
        requires
            old(self).inv(),
            old(self)@.sender,
        ensures
            final(self).inv(),
            final(self)@ == old(self)@.after_set(result),
            final(self).waking() == old(self)@.waiting(),
            final(self).is_signaling() == (old(self)@.stage is Awaiting),
            final(self).unreleased() == old(self).unreleased() + 1,
            final(self).backtrace() == old(self).backtrace(),
            r == old(self)@.sender_result(),
            forall|seen: u8| old(self)@.receiver && old(self).seen_before(seen)
                ==> final(self).seen_before(seen),
    {
        let previous_state: u8 = self.state;
        self.value = Some(result);
        self.state = previous_state + 1;
        self.sender = Ghost(false);
        if previous_state == EVENT_BOUND {
            // There was nobody listening via the receiver.
            Ok(())
        } else if previous_state == EVENT_AWAITING {
            // There was someone listening, whose waker is ours to take now.
            Ok(())
        } else {
            // The receiver is gone: nobody wants the value.
            self.value = None;
            Err(Disconnected)
        }
    }

    /// A step of the sender: marks the event as disconnected. If the receiver was waiting, the
    /// sender must take its waker next, with `finish_wake`.
    ///
    /// Returns `Err` if the receiver has already disconnected.
    pub fn sender_drop_begin(&mut self) -> (r: Result<(), Disconnected>)
        requires
            old(self).inv(),
            old(self)@.sender,
        ensures
            final(self).inv(),
            final(self)@ == old(self)@.after_sender_drop(),
            final(self).waking() == old(self)@.waiting(),
            !final(self).is_signaling(),
            final(self).unreleased() == old(self).unreleased() + 1,
            final(self).backtrace() == old(self).backtrace(),
            r == old(self)@.sender_result(),
            forall|seen: u8| old(self)@.receiver && old(self).seen_before(seen)
                ==> final(self).seen_before(seen),
    {
        let previous_state: u8 = self.state;
        self.state = EVENT_DISCONNECTED;
        self.sender = Ghost(false);
        if previous_state == EVENT_DISCONNECTED {
            Err(Disconnected)
        } else {
            Ok(())
        }
    }

    /// A step of the sender: takes the waker that it found and lets the receiver in again.
    pub fn finish_wake(&mut self) -> (r: Option<Waker>)
        requires
            old(self).inv(),
        ensures
            final(self).inv(),
            final(self)@ == old(self)@,
            final(self).waking() is None,
            !final(self).is_signaling(),
            final(self).unreleased() == old(self).unreleased(),
            final(self).backtrace() == old(self).backtrace(),
            r == old(self).waking(),
            forall|seen: u8| old(self).seen_before(seen) ==> final(self).seen_before(seen),
    {
        if self.state == EVENT_SIGNALING {
            let waker = self.awaiter.take();
            // The value must be there to be picked up before the receiver is woken.
            self.state = EVENT_SET;
            waker
        } else if self.state == EVENT_DISCONNECTED {
            self.awaiter.take()
        } else {
            None
        }
    }

    /// A step of the receiver: reads the state.
    pub fn load(&self) -> (r: u8)
        requires
            self.inv(),
            self@.receiver,
        ensures
            self.seen_before(r),
            r == EVENT_SIGNALING <==> self.is_signaling(),
    {
        self.state
    }

    /// A step of the receiver, which saw the state `seen` before: looks for the outcome, on
    /// behalf of the task that `waker` wakes.
    pub fn poll_from(&mut self, seen: u8, waker: Waker) -> (r: Look<T>)
        requires
            old(self).inv(),
            old(self)@.receiver,
            old(self).seen_before(seen),
        ensures
            final(self).inv(),
            final(self).waking() == old(self).waking(),
            final(self).is_signaling() == old(self).is_signaling(),
            final(self).backtrace() == old(self).backtrace(),
            final(self).unreleased() == old(self).unreleased() + if r is Ready {
                1int
            } else {
                0
            },
            old(self).is_signaling() ==> r == Look::<T>::Busy(waker) && final(self)@ == old(self)@,
            !old(self).is_signaling() ==> final(self)@ == old(self)@.after_poll(waker) && r
                == match old(self)@.poll_result() {
                Some(outcome) => Look::Ready(outcome),
                None => Look::Pending,
            },
    {
        if seen == EVENT_BOUND {
            self.poll_bound(waker)
        } else if seen == EVENT_SET {
            Look::Ready(Ok(self.poll_set()))
        } else if seen == EVENT_AWAITING {
            self.poll_awaiting(waker)
        } else if seen == EVENT_SIGNALING {
            self.poll_signaling(waker)
        } else {
            // There is no result coming, ever.
            self.receiver = false;
            Look::Ready(Err(Disconnected))
        }
    }

    /// The receiver saw that the sender had not acted: it publishes its waker, unless the
    /// sender acted meanwhile.
    fn poll_bound(&mut self, waker: Waker) -> (r: Look<T>)
        requires
            old(self).inv(),
            old(self)@.receiver,
            old(self).seen_before(EVENT_BOUND),
        ensures
            final(self).inv(),
            final(self).waking() is None,
            !final(self).is_signaling(),
            final(self).backtrace() == old(self).backtrace(),
            final(self).unreleased() == old(self).unreleased() + if r is Ready {
                1int
            } else {
                0
            },
            final(self)@ == old(self)@.after_poll(waker),
            r == match old(self)@.poll_result() {
                Some(outcome) => Look::Ready(outcome),
                None => Look::Pending,
            },
    {
        self.awaiter = Some(waker);
        // The sender races us to one of the other two states.
        if self.state == EVENT_BOUND {
            self.state = EVENT_AWAITING;
            Look::Pending
        } else if self.state == EVENT_SET {
            self.destroy_awaiter();
            Look::Ready(Ok(self.poll_set()))
        } else {
            self.destroy_awaiter();
            self.receiver = false;
            Look::Ready(Err(Disconnected))
        }
    }

    /// The sender has delivered a value: the receiver picks it up.
    fn poll_set(&mut self) -> (r: T)
        requires
            old(self).inv(),
            old(self)@.receiver,
            old(self).seen_before(EVENT_SET),
        ensures
            final(self).inv(),
            final(self).waking() is None,
            !final(self).is_signaling(),
            final(self).backtrace() == old(self).backtrace(),
            final(self).unreleased() == old(self).unreleased() + 1,
            old(self)@.stage == Stage::Sent(r),
            forall|waker: Waker| final(self)@ == #[trigger] old(self)@.after_poll(waker),
    {
        self.receiver = false;
        self.value.take().unwrap()
    }

    /// The receiver saw itself waiting: it withdraws the old waker and starts over with the
    /// new one, unless the sender acted meanwhile.
    fn poll_awaiting(&mut self, waker: Waker) -> (r: Look<T>)
        requires
            old(self).inv(),
            old(self)@.receiver,
            old(self).seen_before(EVENT_AWAITING),
        ensures
            final(self).inv(),
            final(self).waking() == old(self).waking(),
            final(self).is_signaling() == old(self).is_signaling(),
            final(self).backtrace() == old(self).backtrace(),
            final(self).unreleased() == old(self).unreleased() + if r is Ready {
                1int
            } else {
                0
            },
            old(self).is_signaling() ==> r == Look::<T>::Busy(waker) && final(self)@ == old(self)@,
            !old(self).is_signaling() ==> final(self)@ == old(self)@.after_poll(waker) && r
                == match old(self)@.poll_result() {
                Some(outcome) => Look::Ready(outcome),
                None => Look::Pending,
            },
    {
        if self.state == EVENT_AWAITING {
            // Back to the bound state first: while the event is awaiting, the sender may take
            // the waker at any time.
            self.state = EVENT_BOUND;
            self.destroy_awaiter();
            self.poll_bound(waker)
        } else if self.state == EVENT_SET {
            // The sender has taken the old waker and delivered the value.
            Look::Ready(Ok(self.poll_set()))
        } else if self.state == EVENT_SIGNALING {
            self.poll_signaling(waker)
        } else {
            // The sender has gone; if it found the old waker, the waker is the sender's.
            self.receiver = false;
            Look::Ready(Err(Disconnected))
        }
    }

    /// The receiver saw the sender between two steps: it is kept out until the sender is done,
    /// and then picks up the value.
    fn poll_signaling(&mut self, waker: Waker) -> (r: Look<T>)
        requires
            old(self).inv(),
            old(self)@.receiver,
            old(self).seen_before(EVENT_SIGNALING),
        ensures
            final(self).inv(),
            final(self).waking() == old(self).waking(),
            final(self).is_signaling() == old(self).is_signaling(),
            final(self).backtrace() == old(self).backtrace(),
            final(self).unreleased() == old(self).unreleased() + if r is Ready {
                1int
            } else {
                0
            },
            old(self).is_signaling() ==> r == Look::<T>::Busy(waker) && final(self)@ == old(self)@,
            !old(self).is_signaling() ==> final(self)@ == old(self)@.after_poll(waker) && r
                == match old(self)@.poll_result() {
                Some(outcome) => Look::Ready(outcome),
                None => Look::Pending,
            },
    {
        if self.state == EVENT_SIGNALING {
            Look::Busy(waker)
        } else {
            Look::Ready(Ok(self.poll_set()))
        }
    }

    /// Drops the waker that the receiver stored and that the sender has not found.
    fn destroy_awaiter(&mut self)
        ensures
            *final(self) == (OnceEvent { awaiter: None, ..*old(self) }),
    {
        self.awaiter = None;
    }

    /// Sets the value of the event. Hands out the waker of the receiver if it is waiting.
    ///
    /// Returns `Err` if the receiver has already disconnected and the sender must clean up the
    /// event now.
    pub(crate) fn set(&mut self, result: T) -> (r: (Result<(), Disconnected>, Option<Waker>))
        requires
            old(self).wf(),
            old(self)@.sender,
        ensures
            final(self).wf(),
            final(self)@ == old(self)@.after_set(result),
            final(self).unreleased() == old(self).unreleased() + 1,
            final(self).backtrace() == old(self).backtrace(),
            r.0 == old(self)@.sender_result(),
            r.1 == old(self)@.waiting(),
    {
        let told = self.set_begin(result);
        let waker = self.finish_wake();
        (told, waker)
    }

    /// Marks the event as having been disconnected early from the sender side. Hands out the
    /// waker of the receiver if it is waiting.
    ///
    /// Returns `Err` if the receiver has already disconnected and the sender must clean up the
    /// event now.
    pub(crate) fn sender_dropped_without_set(&mut self) -> (r: (
        Result<(), Disconnected>,
        Option<Waker>,
    ))
        requires
            old(self).wf(),
            old(self)@.sender,
        ensures
            final(self).wf(),
            final(self)@ == old(self)@.after_sender_drop(),
            final(self).unreleased() == old(self).unreleased() + 1,
            final(self).backtrace() == old(self).backtrace(),
            r.0 == old(self)@.sender_result(),
            r.1 == old(self)@.waiting(),
    {
        let told = self.sender_drop_begin();
        let waker = self.finish_wake();
        (told, waker)
    }

    /// Looks for the outcome, on behalf of the task that `waker` wakes.
    pub(crate) fn poll(&mut self, waker: Waker) -> (r: Option<Result<T, Disconnected>>)
        requires
            old(self).wf(),
            old(self)@.receiver,
        ensures
            final(self).wf(),
            final(self)@ == old(self)@.after_poll(waker),
            final(self).unreleased() == old(self).unreleased() + if r is Some {
                1int
            } else {
                0
            },
            final(self).backtrace() is Some,
            r == old(self)@.poll_result(),
    {
        self.backtrace = Some(capture_backtrace());
        let seen: u8 = self.load();
        match self.poll_from(seen, waker) {
            Look::Ready(outcome) => Some(outcome),
            Look::Pending => None,
            // At rest, the sender keeps no one out.
            Look::Busy(_) => vstd::pervasive::unreached(),
        }
    }

    /// Attempts to obtain the value from the event, if one has been sent, while indicating that
    /// no further polls will be performed by the receiver.
    ///
    /// Returns `Ok(None)` if the sender has not yet done anything; it will then clean up the
    /// event. In all other cases, the receiver must clean up the event now.
    pub(crate) fn final_poll(&mut self) -> (r: Result<Option<T>, Disconnected>)
        requires
            old(self).wf(),
            old(self)@.receiver,
        ensures
            final(self).wf(),
            final(self)@ == old(self)@.after_final_poll(),
            final(self).unreleased() == old(self).unreleased() + 1,
            final(self).backtrace() == old(self).backtrace(),
            r == old(self)@.final_result(),
    {
        let previous_state: u8 = self.state;
        self.state = EVENT_DISCONNECTED;
        self.receiver = false;
        if previous_state == EVENT_BOUND {
            Ok(None)
        } else if previous_state == EVENT_SET {
            let value = self.value.take();
            Ok(value)
        } else if previous_state == EVENT_AWAITING {
            // Nobody is to be woken any more.
            self.destroy_awaiter();
            Ok(None)
        } else {
            Err(Disconnected)
        }
    }

    /// Marks the event as bound to a sender-receiver pair.
    fn bind(&mut self)
        requires
            old(self).wf(),
            old(self)@.stage is Unbound,
        ensures
            final(self).wf(),
            final(self)@ == OnceView::<T>::bound(),
            final(self).unreleased() == old(self).unreleased(),
            final(self).backtrace() == old(self).backtrace(),
    {
        self.state = EVENT_BOUND;
        self.owners = 2;
        self.sender = Ghost(true);
        self.receiver = true;
    }

    /// Returns both the sender and receiver for this event, connected by a shared reference to the event.
    pub fn bind_by_ref(&mut self) -> (r: (OnceSender<RefEvent>, OnceReceiver<RefEvent>))
        requires
            old(self).wf(),
            old(self)@.stage is Unbound,
        ensures
            final(self).wf(),
            r.1.is_live(),
            final(self)@ == OnceView::<T>::bound(),
            final(self).unreleased() == old(self).unreleased(),
            final(self).backtrace() == old(self).backtrace(),
    {
        self.bind();
        (OnceSender::new(RefEvent), OnceReceiver::new(RefEvent))
    }

    /// Returns both the sender and receiver for this event, connected by a shared reference to the event.
    ///
    /// Returns `None` if the event has already been bound to a sender-receiver pair.
    pub fn bind_by_ref_checked(&mut self) -> (r: Option<(OnceSender<RefEvent>, OnceReceiver<RefEvent>)>)
        requires
            old(self).wf(),
        ensures
            final(self).wf(),
            r is Some <==> old(self)@.stage is Unbound,
            r is Some ==> (r->0).1.is_live() && final(self)@ == OnceView::<T>::bound(),
            r is None ==> final(self)@ == old(self)@,
            final(self).unreleased() == old(self).unreleased(),
            final(self).backtrace() == old(self).backtrace(),
    {
        if self.state != EVENT_UNBOUND {
            return None;
        }
        Some(self.bind_by_ref())
    }

    /// Returns both the sender and receiver for this event, connected by a shared reference to the event,
    /// without a check that the event is not bound yet.
    pub fn bind_by_ref_unchecked(&mut self) -> (r: (OnceSender<RefEvent>, OnceReceiver<RefEvent>))
        requires
            old(self).wf(),
            old(self)@.stage is Unbound,
        ensures
            final(self).wf(),
            r.1.is_live(),
            final(self)@ == OnceView::<T>::bound(),
            final(self).unreleased() == old(self).unreleased(),
            final(self).backtrace() == old(self).backtrace(),
    {
        self.bind_by_ref()
    }

    /// Returns both the sender and receiver for this event, connected by an `Arc` to the event.
    pub fn bind_by_arc(&mut self) -> (r: (OnceSender<ArcEvent>, OnceReceiver<ArcEvent>))
        requires
            old(self).wf(),
            old(self)@.stage is Unbound,
        ensures
            final(self).wf(),
            r.1.is_live(),
            final(self)@ == OnceView::<T>::bound(),
            final(self).unreleased() == old(self).unreleased(),
            final(self).backtrace() == old(self).backtrace(),
    {
        self.bind();
        (OnceSender::new(ArcEvent), OnceReceiver::new(ArcEvent))
    }

    /// Returns both the sender and receiver for this event, connected by an `Arc` to the event.
    ///
    /// Returns `None` if the event has already been bound to a sender-receiver pair.
    pub fn bind_by_arc_checked(&mut self) -> (r: Option<(OnceSender<ArcEvent>, OnceReceiver<ArcEvent>)>)
        requires
            old(self).wf(),
        ensures
            final(self).wf(),
            r is Some <==> old(self)@.stage is Unbound,
            r is Some ==> (r->0).1.is_live() && final(self)@ == OnceView::<T>::bound(),
            r is None ==> final(self)@ == old(self)@,
            final(self).unreleased() == old(self).unreleased(),
            final(self).backtrace() == old(self).backtrace(),
    {
        if self.state != EVENT_UNBOUND {
            return None;
        }
        Some(self.bind_by_arc())
    }

    /// Returns both the sender and receiver for this event, connected by an `Arc` to the event,
    /// without a check that the event is not bound yet.
    pub fn bind_by_arc_unchecked(&mut self) -> (r: (OnceSender<ArcEvent>, OnceReceiver<ArcEvent>))
        requires
            old(self).wf(),
            old(self)@.stage is Unbound,
        ensures
            final(self).wf(),
            r.1.is_live(),
            final(self)@ == OnceView::<T>::bound(),
            final(self).unreleased() == old(self).unreleased(),
            final(self).backtrace() == old(self).backtrace(),
    {
        self.bind_by_arc()
    }

    /// Returns both the sender and receiver for this event, connected by a pointer to the event.
    pub fn bind_by_ptr(&mut self) -> (r: (OnceSender<PtrEvent>, OnceReceiver<PtrEvent>))
        requires
            old(self).wf(),
            old(self)@.stage is Unbound,
        ensures
            final(self).wf(),
            r.1.is_live(),
            final(self)@ == OnceView::<T>::bound(),
            final(self).unreleased() == old(self).unreleased(),
            final(self).backtrace() == old(self).backtrace(),
    {
        self.bind();
        (OnceSender::new(PtrEvent), OnceReceiver::new(PtrEvent))
    }

    /// Returns both the sender and receiver for this event, connected by a pointer to the event.
    ///
    /// Returns `None` if the event has already been bound to a sender-receiver pair.
    pub fn bind_by_ptr_checked(&mut self) -> (r: Option<(OnceSender<PtrEvent>, OnceReceiver<PtrEvent>)>)
        requires
            old(self).wf(),
        ensures
            final(self).wf(),
            r is Some <==> old(self)@.stage is Unbound,
            r is Some ==> (r->0).1.is_live() && final(self)@ == OnceView::<T>::bound(),
            r is None ==> final(self)@ == old(self)@,
            final(self).unreleased() == old(self).unreleased(),
            final(self).backtrace() == old(self).backtrace(),
    {
        if self.state != EVENT_UNBOUND {
            return None;
        }
        Some(self.bind_by_ptr())
    }

    /// Returns both the sender and receiver for this event, connected by a pointer to the event,
    /// without a check that the event is not bound yet.
    pub fn bind_by_ptr_unchecked(&mut self) -> (r: (OnceSender<PtrEvent>, OnceReceiver<PtrEvent>))
        requires
            old(self).wf(),
            old(self)@.stage is Unbound,
        ensures
            final(self).wf(),
            r.1.is_live(),
            final(self)@ == OnceView::<T>::bound(),
            final(self).unreleased() == old(self).unreleased(),
            final(self).backtrace() == old(self).backtrace(),
    {
        self.bind_by_ptr()
    }

    /// Creates a new thread-safe event on the heap, whose storage is released when both
    /// endpoints are gone, together with its sender and receiver.
    pub fn new_heap() -> (r: (Self, OnceSender<HeapEvent>, OnceReceiver<HeapEvent>))
        ensures
            r.0.wf(),
            r.0@ == OnceView::<T>::bound(),
            r.0.unreleased() == 0,
            r.0.backtrace() is None,
            r.2.is_live(),
    {
        (Self::new_bound(), OnceSender::new(HeapEvent), OnceReceiver::new(HeapEvent))
    }

    /// Puts a new event in its place and returns both the sender and receiver for this event,
    /// connected by a pointer to the event.
    pub fn new_in_place_by_ptr(place: &mut Option<Self>) -> (r: (
        OnceSender<PtrEvent>,
        OnceReceiver<PtrEvent>,
    ))
        ensures
            *final(place) is Some,
            (*final(place))->0.wf(),
            (*final(place))->0@ == OnceView::<T>::bound(),
            (*final(place))->0.unreleased() == 0,
            (*final(place))->0.backtrace() is None,
            r.1.is_live(),
    {
        *place = Some(Self::new_bound());
        (OnceSender::new(PtrEvent), OnceReceiver::new(PtrEvent))
    }

    /// Gives up a share of the event's storage, on behalf of an endpoint that has acted. The
    /// answer is whether it was the last.
    fn release_one(&mut self) -> (r: bool)
        requires
            old(self).wf(),
            old(self).unreleased() > 0,
        ensures
            final(self).wf(),
            final(self)@ == old(self)@,
            final(self).unreleased() == old(self).unreleased() - 1,
            final(self).backtrace() == old(self).backtrace(),
            r == (final(self).owned() == 0),
    {
        self.owners = self.owners - 1;
        self.owners == 0
    }

    /// Notes that the sender leaves without a word.
    pub(crate) fn sender_left(&mut self)
        requires
            old(self).wf(),
            old(self)@.sender,
        ensures
            final(self).wf(),
            final(self)@ == old(self)@.after_sender_left(),
            final(self).unreleased() == old(self).unreleased() + 1,
            final(self).backtrace() == old(self).backtrace(),
    {
        self.sender = Ghost(false);
    }

    /// Notes that the receiver leaves without a word.
    pub(crate) fn receiver_left(&mut self)
        requires
            old(self).wf(),
            old(self)@.receiver,
        ensures
            final(self).wf(),
            final(self)@ == old(self)@.after_receiver_left(),
            final(self).unreleased() == old(self).unreleased() + 1,
            final(self).backtrace() == old(self).backtrace(),
    {
        self.receiver = false;
    }

    /// The backtrace of the receiver's latest look, if it has looked.
    pub(crate) fn latest_backtrace(&self) -> (r: Option<&Backtrace>)
        ensures
            match self.backtrace() {
                Some(backtrace) => r == Some(&backtrace),
                None => r is None,
            },
    {
        self.backtrace.as_ref()
    }

    /// The backtrace of the current awaiter, if there is one.
    pub(crate) fn awaiter_backtrace(&self) -> (r: Option<&Backtrace>)
        ensures
            match self.current_backtrace() {
                Some(backtrace) => r == Some(&backtrace),
                None => r is None,
            },
    {
        if self.receiver {
            self.backtrace.as_ref()
        } else {
            None
        }
    }

    /// Uses the provided closure to inspect the backtrace of the current awaiter: the receiver that
    /// has looked and is still there. The closure receives `None` if no one is awaiting the event.
    pub fn inspect_awaiter<F: FnOnce(Option<&Backtrace>)>(&self, f: F)
        requires
            match self.current_backtrace() {
                Some(backtrace) => call_requires(f, (Some(&backtrace),)),
                None => call_requires(f, (None::<&Backtrace>,)),
            },
        ensures
            match self.current_backtrace() {
                Some(backtrace) => call_ensures(f, (Some(&backtrace),), ()),
                None => call_ensures(f, (None::<&Backtrace>,), ()),
            },
            !self@.receiver ==> call_ensures(f, (None::<&Backtrace>,), ()),
    {
        f(self.awaiter_backtrace())
    }
}

impl<T: Send> Default for OnceEvent<T> {
    fn default() -> (r: Self)
        ensures
            r.wf(),
            r@ == OnceView::<T>::unbound(),
            r.unreleased() == 0,
            r.backtrace() is None,
    {
        Self::new()
    }
}

/// The mechanism by which an endpoint is bound to its event.
pub trait EventRef: Sized {
    /// Whether the mechanism releases the storage of the event when the last endpoint leaves.
    spec fn manages_storage() -> bool;

    /// Releases the event, as the last endpoint is leaving. The answer is whether its storage
    /// is to be released with it, or has an owner of its own.
    fn release_event(&self) -> (r: bool)
        ensures
            r == Self::manages_storage(),
    ;
}

/// An event referenced via shared reference; whoever lent it owns its storage.
#[derive(Clone, Copy, Debug)]
pub struct RefEvent;

impl EventRef for RefEvent {
    open spec fn manages_storage() -> bool {
        false
    }

    fn release_event(&self) -> (r: bool) {
        false
    }
}

/// An event referenced via `Arc`, whose count releases its storage.
#[derive(Clone, Copy, Debug)]
pub struct ArcEvent;

impl EventRef for ArcEvent {
    open spec fn manages_storage() -> bool {
        false
    }

    fn release_event(&self) -> (r: bool) {
        false
    }
}

/// An event referenced via pointer; whoever placed it owns its storage.
#[derive(Clone, Copy, Debug)]
pub struct PtrEvent;

impl EventRef for PtrEvent {
    open spec fn manages_storage() -> bool {
        false
    }

    fn release_event(&self) -> (r: bool) {
        false
    }
}

/// An event on the heap, whose storage is released with the last endpoint.
#[derive(Clone, Copy, Debug)]
pub struct HeapEvent;

impl EventRef for HeapEvent {
    open spec fn manages_storage() -> bool {
        true
    }

    fn release_event(&self) -> (r: bool) {
        true
    }
}

/// A sender that can send a single value through a thread-safe event.
///
/// The type parameter is the mechanism by which the endpoint is bound to the event.
pub struct OnceSender<E: EventRef> {
    event_ref: E,
}

impl<E: EventRef> OnceSender<E> {
    fn new(event_ref: E) -> Self {
        OnceSender { event_ref }
    }

    /// Sends a value through `event`, which this sender belongs to.
    ///
    /// This consumes the sender and always succeeds, regardless of whether there is a receiver
    /// waiting.
    pub fn send<T: Send>(self, event: &mut OnceEvent<T>, value: T) -> (r: Departure)
        requires
            old(event).wf(),
            old(event)@.sender,
        ensures
            final(event).wf(),
            final(event)@ == old(event)@.after_set(value),
            final(event).unreleased() == old(event).unreleased(),
            final(event).backtrace() == old(event).backtrace(),
            r.waker == old(event)@.waiting(),
            r.release == (E::manages_storage() && final(event).owned() == 0),
    {
        let (_, waker) = event.set(value);
        let release = if event.release_one() {
            self.event_ref.release_event()
        } else {
            false
        };
        Departure { waker, release }
    }

    /// Drops the sender without sending a value.
    pub fn drop_sender<T: Send>(self, event: &mut OnceEvent<T>) -> (r: Departure)
        requires
            old(event).wf(),
            old(event)@.sender,
        ensures
            final(event).wf(),
            final(event)@ == old(event)@.after_sender_drop(),
            final(event).unreleased() == old(event).unreleased(),
            final(event).backtrace() == old(event).backtrace(),
            r.waker == old(event)@.waiting(),
            r.release == (E::manages_storage() && final(event).owned() == 0),
    {
        let (_, waker) = event.sender_dropped_without_set();
        let release = if event.release_one() {
            self.event_ref.release_event()
        } else {
            false
        };
        Departure { waker, release }
    }
}

/// A receiver that can receive a single value through a thread-safe event.
///
/// The type parameter is the mechanism by which the endpoint is bound to the event.
pub struct OnceReceiver<E: EventRef> {
    event_ref: E,
    done: bool,
}

impl<E: EventRef> OnceReceiver<E> {
    /// The receiver has not been told the outcome yet.
    pub closed spec fn is_live(self) -> bool {
        !self.done
    }

    fn new(event_ref: E) -> (r: Self)
        ensures
            r.is_live(),
    {
        OnceReceiver { event_ref, done: false }
    }

    /// Polls for the outcome, on behalf of the task that `waker` wakes. The receiver keeps its
    /// share of the event's storage until it is dropped.
    pub fn poll<T: Send>(&mut self, event: &mut OnceEvent<T>, waker: Waker) -> (r: Poll<
        Result<T, Disconnected>,
    >)
        requires
            old(self).is_live(),
            old(event).wf(),
            old(event)@.receiver,
        ensures
            final(event).wf(),
            final(event)@ == old(event)@.after_poll(waker),
            final(event).owned() == old(event).owned(),
            final(event).backtrace() is Some,
            r == match old(event)@.poll_result() {
                Some(outcome) => Poll::Ready(outcome),
                None => Poll::Pending,
            },
            final(self).is_live() == (old(event)@.poll_result() is None),
    {
        match event.poll(waker) {
            Some(outcome) => {
                self.done = true;
                Poll::Ready(outcome)
            },
            None => Poll::Pending,
        }
    }

    /// Drops the receiver. The answer is whether the storage of the event is to be released
    /// now.
    pub fn drop_receiver<T: Send>(self, event: &mut OnceEvent<T>) -> (r: bool)
        requires
            old(event).wf(),
            self.is_live() ==> old(event)@.receiver,
            !self.is_live() ==> old(event).unreleased() > 0,
        ensures
            final(event).wf(),
            final(event).backtrace() == old(event).backtrace(),
            self.is_live() ==> final(event)@ == old(event)@.after_receiver_left(),
            !self.is_live() ==> final(event)@ == old(event)@,
            final(event).owned() == old(event).owned() - 1,
            r == (E::manages_storage() && final(event).owned() == 0),
    {
        if !self.done {
            event.receiver_left();
        }
        if event.release_one() {
            self.event_ref.release_event()
        } else {
            false
        }
    }
}

/// Only an event that owns its storage is released with its last endpoint; one that someone lent,
/// shares or placed is not.
pub proof fn law_only_owned_storage_is_released()
    ensures
        HeapEvent::manages_storage(),
        !RefEvent::manages_storage(),
        !ArcEvent::manages_storage(),
        !PtrEvent::manages_storage(),
{
}

} // verus!

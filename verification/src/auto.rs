//! Thread-safe auto-reset events.
//!
//! The event keeps two flags in one byte, changed by single atomic operations, and a list of
//! waiters behind a lock. Signalling an event that no one waits for, and consuming a stored
//! signal, touch the flags alone.
//!
//! Every function of `EventInner` up to `clear_if_last` is one step that no other thread
//! can see halfway; `set`, `poll_wait` and `drop_wait` are made of such steps. Each step
//! keeps the invariant `inv`, also when another thread is between two steps of its own,
//! and says what it does to the abstract event: either nothing, or all that the
//! operation it belongs to does. Whatever order the steps of several threads come in,
//! the operations therefore act as if each were done at once.
use std::task::Waker;
use vstd::prelude::*;

use crate::auto_rules::{
    law_drop_keeps_valid, law_poll_keeps_valid, law_set_keeps_valid, AutoView,
};
use crate::waiters::{
    lemma_popped, lemma_pushed, lemma_stored, lemma_without, Poll, Waiter, WaiterList,
};

verus! {

/// The flag of a stored signal.
const SIGNAL: u8 = 0x1;

/// The flag that sends `set` to the list of waiters.
const HAS_WAITERS: u8 = 0x2;

/// What the holder of the lock, if there is one, is about to do.
pub enum Section {
    /// No one holds the lock.
    Free,
    /// The lock is held and the flags agree with the list.
    Held,
    /// A waiter was taken out of the list; if it was the last, the flag is not cleared yet.
    Clearing,
    /// The flag announces a waiter that is about to look once more for a signal.
    Announced,
    /// The announced waiter found a signal after all; it is about to take the flag back.
    Withdrawing,
    /// The announced waiter found no signal; it is about to join the list.
    Joining,
}

/// The state of a thread-safe auto-reset event.
pub struct EventInner {
    state: u8,
    waiters: WaiterList<Waker>,
    section: Ghost<Section>,
}

impl View for EventInner {
    type V = AutoView;

    closed spec fn view(&self) -> AutoView {
        AutoView { is_set: self.state == 1 || self.state == 3, waiters: self.waiters@ }
    }
}

proof fn lemma_flags(s: u8)
    requires
        s <= 3,
    ensures
        s & SIGNAL == if s == 1 || s == 3 { 1u8 } else { 0u8 },
        s & !SIGNAL == if s >= 2 { 2u8 } else { 0u8 },
        s & !HAS_WAITERS == if s == 1 || s == 3 { 1u8 } else { 0u8 },
        s | HAS_WAITERS == if s == 1 || s == 3 { 3u8 } else { 2u8 },
{
    assert(s & 1 == if s == 1 || s == 3 { 1u8 } else { 0u8 }) by (bit_vector)
        requires s <= 3;
    assert(s & !1u8 == if s >= 2 { 2u8 } else { 0u8 }) by (bit_vector)
        requires s <= 3;
    assert(s & !2u8 == if s == 1 || s == 3 { 1u8 } else { 0u8 }) by (bit_vector)
        requires s <= 3;
    assert(s | 2 == if s == 1 || s == 3 { 3u8 } else { 2u8 }) by (bit_vector)
        requires s <= 3;
}

impl EventInner {
    /// What the holder of the lock is about to do.
    pub closed spec fn section(self) -> Section {
        self.section@
    }

    /// The flag of waiters is up.
    pub closed spec fn has_waiters(self) -> bool {
        self.state >= 2
    }

    /// What holds between any two steps.
    ///
    /// The flag of waiters is up whenever someone waits, and a signal is stored only while
    /// no one waits. Unless the holder of the lock is about to change the list, the flag is
    /// up only if someone waits.
    pub closed spec fn inv(self) -> bool {
        &&& self.state <= 3
        &&& self.waiters.wf()
        &&& self@.valid()
        &&& self@.waiters.waiting.len() > 0 ==> self.has_waiters()
        &&& match self.section@ {
            Section::Free | Section::Held => self.has_waiters() ==> self@.waiters.waiting.len()
                > 0,
            Section::Clearing => self.has_waiters() && !self@.is_set,
            Section::Announced => self.has_waiters(),
            Section::Withdrawing => self.has_waiters() && self@.waiters.waiting.len() == 0,
            Section::Joining => self.has_waiters() && !self@.is_set,
        }
    }

    /// What well-formedness says of the abstract event.
    pub proof fn lemma_valid(&self)
        requires
            self.inv(),
        ensures
            self@.valid(),
    {
    }

    /// No signal is lost between two steps. As long as anyone waits, or has announced that it will, the
    /// flag of waiters is up, so that setting the event goes through the lock; and from when an announced
    /// waiter has looked for the last time until it is in the list, no signal is stored. At rest the flag
    /// is up only if someone waits.
    pub proof fn law_no_signal_is_lost(&self)
        requires
            self.inv(),
        ensures
            self@.waiters.waiting.len() > 0 ==> self.has_waiters() && !self@.is_set,
            !(self.section() is Free) && !(self.section() is Held) ==> self.has_waiters(),
            self.section() is Free || self.section() is Held ==> self.has_waiters() == (
            self@.waiters.waiting.len() > 0),
            self.section() is Joining ==> !self@.is_set,
    {
    }

    /// The event is at rest: the invariant holds and no one holds the lock.
    pub open spec fn wf(self) -> bool {
        self.inv() && self.section() == Section::Free
    }

    /// An event in the unset state.
    pub fn new() -> (r: Self)
        ensures
            r.wf(),
            r@ == AutoView::unset(),
    {
        EventInner { state: 0, waiters: WaiterList::new(), section: Ghost(Section::Free) }
    }

    /// One step, without the lock: consumes the stored signal, if there is one.
    ///
    /// The flag of waiters stays as it is: it can be up while a signal is stored, when a
    /// waiter has announced itself and not looked again yet.
    pub fn try_wait(&mut self) -> (r: bool)
        requires
            old(self).inv(),
        ensures
            final(self).inv(),
            final(self).section() == old(self).section(),
            final(self)@ == old(self)@.after_try_wait(),
            final(self).has_waiters() == old(self).has_waiters(),
            r == old(self)@.is_set,
    {
        proof {
            lemma_flags(self.state);
        }
        let prev: u8 = self.state;
        self.state = prev & !SIGNAL;
        prev & SIGNAL != 0
    }

    /// One step, without the lock: stores the signal, if neither flag is up.
    pub fn set_if_idle(&mut self) -> (r: bool)
        requires
            old(self).inv(),
        ensures
            final(self).inv(),
            final(self).section() == old(self).section(),
            r == (!old(self)@.is_set && !old(self).has_waiters()),
            r ==> final(self)@ == old(self)@.after_set() && old(self)@.next() is None,
            !r ==> *final(self) == *old(self),
    {
        if self.state == 0 {
            self.state = SIGNAL;
            true
        } else {
            false
        }
    }

    /// One step, without the lock: whether a signal is stored, so that setting the event
    /// would change nothing.
    pub fn is_set(&self) -> (r: bool)
        requires
            self.inv(),
        ensures
            r == self@.is_set,
            r ==> self@.after_set() == self@ && self@.next() is None,
    {
        proof {
            lemma_flags(self.state);
        }
        self.state & SIGNAL != 0
    }

    /// One step, without the lock: lets `waiter` notice that it was released.
    pub fn take_notification(&mut self, waiter: &mut Waiter) -> (r: bool)
        requires
            old(self).inv(),
            old(self)@.waiters.owns(old(waiter)@),
        ensures
            final(self).inv(),
            final(self).section() == old(self).section(),
            r == old(self)@.is_released(old(waiter)@),
            r ==> final(self)@ == old(self)@.after_notice(old(waiter)@) && final(waiter)@ is None,
            !r ==> final(self)@ == old(self)@ && final(waiter)@ == old(waiter)@,
            final(self).has_waiters() == old(self).has_waiters(),
    {
        let ghost pre = *self;
        proof {
            if pre@.is_released(waiter@) {
                let k = waiter@->0;
                lemma_without(pre@.waiters, k);
                if pre@.waiters.is_waiting(k) {
                    let i = pre@.waiters.position(k);
                    assert(!pre@.waiters.notified.contains(pre@.waiters.waiting[i].0));
                }
            }
        }
        self.waiters.take_notification(waiter)
    }

    /// Takes the lock.
    pub fn lock(&mut self)
        requires
            old(self).wf(),
        ensures
            final(self).inv(),
            final(self).section() == Section::Held,
            final(self)@ == old(self)@,
    {
        self.section = Ghost(Section::Held);
    }

    /// Gives the lock back.
    pub fn unlock(&mut self)
        requires
            old(self).inv(),
            old(self).section() == Section::Held,
        ensures
            final(self).wf(),
            final(self)@ == old(self)@,
    {
        self.section = Ghost(Section::Free);
    }

    /// One step, under the lock: releases the oldest waiter.
    pub fn notify_one(&mut self) -> (r: Option<Waker>)
        requires
            old(self).inv(),
            old(self).section() == Section::Held,
        ensures
            final(self).inv(),
            r == old(self)@.next(),
            r is Some ==> final(self)@ == old(self)@.after_set() && final(self).section()
                == Section::Clearing,
            r is None ==> final(self)@ == old(self)@ && final(self).section() == Section::Held,
    {
        let ghost pre = *self;
        proof {
            if pre@.waiters.waiting.len() > 0 {
                lemma_popped(pre@.waiters);
            }
        }
        match self.waiters.notify_one() {
            Some(w) => {
                self.section = Ghost(Section::Clearing);
                Some(w)
            },
            None => None,
        }
    }

    /// One step, under the lock: stores the signal, as there is no one to release.
    pub fn store_signal(&mut self)
        requires
            old(self).inv(),
            old(self).section() == Section::Held,
            old(self)@.waiters.waiting.len() == 0,
        ensures
            final(self).inv(),
            final(self).section() == Section::Held,
            final(self)@ == old(self)@.after_set(),
            old(self)@.waiters.kept(final(self)@.waiters, None),
    {
        self.state = SIGNAL;
    }

    /// One step, under the lock: takes a waiting waiter out of the list.
    pub fn unregister(&mut self, waiter: &mut Waiter)
        requires
            old(self).inv(),
            old(self).section() == Section::Held,
            old(waiter)@ is Some,
            old(self)@.waiters.is_waiting(old(waiter)@->0),
        ensures
            final(self).inv(),
            final(self).section() == Section::Clearing,
            final(self)@ == old(self)@.after_notice(old(waiter)@),
            final(waiter)@ is None,
    {
        proof {
            lemma_without(self@.waiters, waiter@->0);
        }
        self.waiters.unregister(waiter);
        self.section = Ghost(Section::Clearing);
    }

    /// One step, under the lock: raises the flag of waiters, so that from now on setting the
    /// event goes through the lock.
    pub fn announce(&mut self)
        requires
            old(self).inv(),
            old(self).section() == Section::Held,
        ensures
            final(self).inv(),
            final(self).section() == Section::Announced,
            final(self)@ == old(self)@,
            final(self).has_waiters(),
    {
        proof {
            lemma_flags(self.state);
        }
        self.state = self.state | HAS_WAITERS;
        self.section = Ghost(Section::Announced);
    }

    /// One step, under the lock: looks for a signal once the flag of waiters is up.
    ///
    /// A signal can only have been stored while the list was empty, so that the flag is
    /// then the announced waiter's own and can be taken back.
    pub fn recheck(&mut self) -> (r: bool)
        requires
            old(self).inv(),
            old(self).section() == Section::Announced,
        ensures
            final(self).inv(),
            final(self)@ == old(self)@.after_try_wait(),
            final(self).has_waiters() == old(self).has_waiters(),
            r == old(self)@.is_set,
            final(self).section() == if r {
                Section::Withdrawing
            } else {
                Section::Joining
            },
    {
        if self.try_wait() {
            self.section = Ghost(Section::Withdrawing);
            true
        } else {
            self.section = Ghost(Section::Joining);
            false
        }
    }

    /// One step, under the lock: takes the flag of waiters back.
    pub fn withdraw(&mut self)
        requires
            old(self).inv(),
            old(self).section() == Section::Withdrawing,
        ensures
            final(self).inv(),
            final(self).section() == Section::Held,
            final(self)@ == old(self)@,
    {
        proof {
            lemma_flags(self.state);
        }
        self.state = self.state & !HAS_WAITERS;
        self.section = Ghost(Section::Held);
    }

    /// One step, under the lock: puts the announced waiter in the list.
    pub fn join(&mut self, waiter: &mut Waiter, waker: Waker)
        requires
            old(self).inv(),
            old(self).section() == Section::Joining,
            old(self)@.waiters.owns(old(waiter)@),
            !old(self)@.is_released(old(waiter)@),
        ensures
            final(self).inv(),
            final(self).section() == Section::Held,
            !old(self)@.is_set,
            old(self)@.pending(old(waiter)@, waker, final(self)@, final(waiter)@),
            final(self).has_waiters(),
    {
        let ghost pre = *self;
        let ghost key = waiter@;
        self.waiters.register(waiter, waker);
        self.section = Ghost(Section::Held);
        proof {
            match key {
                None => lemma_pushed(pre@.waiters, waiter@->0, waker),
                Some(k) => lemma_stored(pre@.waiters, k, waker),
            }
        }
    }

    /// One step, under the lock: takes the flag of waiters back if the list is empty.
    pub fn clear_if_last(&mut self)
        requires
            old(self).inv(),
            old(self).section() == Section::Clearing,
        ensures
            final(self).inv(),
            final(self).section() == Section::Held,
            final(self)@ == old(self)@,
    {
        proof {
            lemma_flags(self.state);
        }
        if self.waiters.is_empty() {
            self.state = self.state & !HAS_WAITERS;
        }
        self.section = Ghost(Section::Held);
    }

    /// Signals the event. Hands out the waker of the waiter that was released, to be woken
    /// by the caller once it no longer holds the lock.
    pub fn set(&mut self) -> (r: Option<Waker>)
        requires
            old(self).wf(),
        ensures
            final(self).wf(),
            final(self)@ == old(self)@.after_set(),
            old(self)@.waiters.kept(final(self)@.waiters, None),
            r == old(self)@.next(),
    {
        proof {
            law_set_keeps_valid(self@);
        }
        // Fast path: no waiters, so the signal is stored without the lock.
        if self.set_if_idle() {
            return None;
        }
        if self.is_set() {
            return None;
        }
        // Slow path: there are waiters, so one is released under the lock.
        self.lock();
        let waker = self.notify_one();
        if waker.is_some() {
            self.clear_if_last();
        } else {
            self.store_signal();
        }
        self.unlock();
        waker
    }

    /// Polls on behalf of `waiter`, which is to be woken by `waker`.
    pub fn poll_wait(&mut self, waiter: &mut Waiter, waker: Waker) -> (r: Poll<()>)
        requires
            old(self).wf(),
            old(self)@.waiters.owns(old(waiter)@),
        ensures
            final(self).wf(),
            final(self)@.waiters.owns(final(waiter)@),
            old(self)@.waiters.kept(final(self)@.waiters, old(waiter)@),
            old(self)@.polled(
                old(waiter)@,
                waker,
                final(self)@,
                final(waiter)@,
                r,
            ),
    {
        let ghost pre = *self;
        let ghost key = waiter@;
        let ghost w = waker;
        let r = self.poll_wait_steps(waiter, waker);
        proof {
            law_poll_keeps_valid(pre@, key, w, self@, waiter@, r);
        }
        r
    }

    fn poll_wait_steps(&mut self, waiter: &mut Waiter, waker: Waker) -> (r: Poll<()>)
        requires
            old(self).wf(),
            old(self)@.waiters.owns(old(waiter)@),
        ensures
            final(self).wf(),
            old(self)@.polled(
                old(waiter)@,
                waker,
                final(self)@,
                final(waiter)@,
                r,
            ),
    {
        // Fast path: notice a release, or consume the signal, without the lock. A waiter that is
        // in the list may be released at any time before it has the lock, and must then leave a
        // stored signal to others; one that is not cannot.
        if self.take_notification(waiter) {
            return Poll::Ready(());
        }
        if !waiter.is_registered() && self.try_wait() {
            return Poll::Ready(());
        }
        // Slow path. Between the steps above and the lock, another thread may have released
        // the waiter or stored a signal: look again for both.
        self.lock();
        if self.take_notification(waiter) {
            self.unlock();
            return Poll::Ready(());
        }
        if self.try_wait() {
            self.unlock();
            return Poll::Ready(());
        }
        // Announce the waiter before the last look: a set after it goes through the lock, and
        // a set before it is seen by that look.
        self.announce();
        if self.recheck() {
            self.withdraw();
            self.unlock();
            return Poll::Ready(());
        }
        self.join(waiter, waker);
        self.unlock();
        Poll::Pending
    }

    /// Drops `waiter`. Hands out the waker of the waiter that its signal was passed on to.
    pub fn drop_wait(&mut self, waiter: &mut Waiter) -> (r: Option<Waker>)
        requires
            old(self).wf(),
            old(self)@.waiters.owns(old(waiter)@),
        ensures
            final(self).wf(),
            final(waiter)@ is None,
            final(self)@ == old(self)@.after_drop(old(waiter)@),
            old(self)@.waiters.kept(final(self)@.waiters, old(waiter)@),
            r == old(self)@.woken_by_drop(old(waiter)@),
    {
        proof {
            law_drop_keeps_valid(self@, waiter@);
        }
        if !waiter.is_registered() {
            return None;
        }
        self.lock();
        if self.take_notification(waiter) {
            // The waiter was released but is cancelled: pass its signal on.
            let waker = self.notify_one();
            if waker.is_some() {
                self.clear_if_last();
            } else {
                self.store_signal();
            }
            self.unlock();
            waker
        } else {
            self.unregister(waiter);
            self.clear_if_last();
            self.unlock();
            None
        }
    }
}

/// Thread-safe async auto-reset event.
///
/// Each `set()` call releases at most one awaiter; signals that no one waits for are coalesced
/// into one.
pub struct AutoResetEvent {
    inner: EventInner,
}

impl View for AutoResetEvent {
    type V = AutoView;

    closed spec fn view(&self) -> AutoView {
        self.inner@
    }
}

impl AutoResetEvent {
    /// A stored signal and waiting waiters exclude each other.
    pub closed spec fn wf(self) -> bool {
        self.inner.wf()
    }

    /// What well-formedness says of the abstract event.
    pub proof fn lemma_valid(&self)
        requires
            self.wf(),
        ensures
            self@.valid(),
    {
        self.inner.lemma_valid();
    }

    /// Creates a new event in the unset state.
    pub fn boxed() -> (r: Self)
        ensures
            r.wf(),
            r@ == AutoView::unset(),
    {
        AutoResetEvent { inner: EventInner::new() }
    }

    /// Creates a handle that operates on the state in a container.
    pub fn embedded<'a>(place: &'a mut EmbeddedAutoResetEvent) -> (r: EmbeddedAutoResetEventRef<'a>)
        ensures
            *r.inner == old(place).inner,
            *final(r.inner) == final(place).inner,
    {
        EmbeddedAutoResetEventRef { inner: &mut place.inner }
    }

    /// Signals the event: releases the oldest waiter and hands out its waker for the caller to
    /// wake; with no one waiting, stores the signal. A signal that is stored already stays the
    /// only one.
    pub fn set(&mut self) -> (r: Option<Waker>)
        requires
            old(self).wf(),
        ensures
            final(self).wf(),
            final(self)@ == old(self)@.after_set(),
            old(self)@.waiters.kept(final(self)@.waiters, None),
            r == old(self)@.next(),
    {
        self.inner.set()
    }

    /// Attempts to consume the signal: `true` if the event was set, which it then no longer
    /// is.
    pub fn try_wait(&mut self) -> (r: bool)
        requires
            old(self).wf(),
        ensures
            final(self).wf(),
            final(self)@ == old(self)@.after_try_wait(),
            r == old(self)@.is_set,
    {
        self.inner.try_wait()
    }

    /// Returns a future that completes when the event is signaled.
    pub fn wait(&self) -> (r: AutoResetWaitFuture)
        ensures
            r@ is None,
    {
        AutoResetWaitFuture { waiter: Waiter::new() }
    }
}

/// Future returned by `AutoResetEvent::wait()`.
pub struct AutoResetWaitFuture {
    waiter: Waiter,
}

impl View for AutoResetWaitFuture {
    type V = Option<usize>;

    closed spec fn view(&self) -> Option<usize> {
        self.waiter@
    }
}

impl AutoResetWaitFuture {
    /// Polls the future, on behalf of the task that `waker` wakes.
    pub fn poll(&mut self, event: &mut AutoResetEvent, waker: Waker) -> (r: Poll<()>)
        requires
            old(event).wf(),
            old(event)@.waiters.owns(old(self)@),
        ensures
            final(event).wf(),
            final(event)@.waiters.owns(final(self)@),
            old(event)@.waiters.kept(final(event)@.waiters, old(self)@),
            old(event)@.polled(
                old(self)@,
                waker,
                final(event)@,
                final(self)@,
                r,
            ),
    {
        event.inner.poll_wait(&mut self.waiter, waker)
    }

    /// Drops the future. A future that was released and has not completed passes its signal
    /// on to the next waiter, whose waker is handed out, or back to the event.
    pub fn drop_wait(self, event: &mut AutoResetEvent) -> (r: Option<Waker>)
        requires
            old(event).wf(),
            old(event)@.waiters.owns(self@),
        ensures
            final(event).wf(),
            final(event)@ == old(event)@.after_drop(self@),
            old(event)@.waiters.kept(final(event)@.waiters, self@),
            r == old(event)@.woken_by_drop(self@),
    {
        let mut waiter = self.waiter;
        event.inner.drop_wait(&mut waiter)
    }
}

/// Container for the state of an event that is not allocated on its own.
pub struct EmbeddedAutoResetEvent {
    /// The state of the event.
    pub inner: EventInner,
}

impl EmbeddedAutoResetEvent {
    /// Creates a container with an event in the unset state.
    pub fn new() -> (r: Self)
        ensures
            r.inner.wf(),
            r.inner@ == AutoView::unset(),
    {
        EmbeddedAutoResetEvent { inner: EventInner::new() }
    }
}

impl Default for EmbeddedAutoResetEvent {
    fn default() -> (r: Self)
        ensures
            r.inner.wf(),
            r.inner@ == AutoView::unset(),
    {
        Self::new()
    }
}

/// Handle to the event in a container.
pub struct EmbeddedAutoResetEventRef<'a> {
    /// The state of the event.
    pub inner: &'a mut EventInner,
}

impl<'a> EmbeddedAutoResetEventRef<'a> {
    /// Signals the event: releases the oldest waiter and hands out its waker for the caller to
    /// wake; with no one waiting, stores the signal. A signal that is stored already stays the
    /// only one.
    pub fn set(&mut self) -> (r: Option<Waker>)
        requires
            old(self).inner.wf(),
        ensures
            final(self).inner.wf(),
            final(self).inner@ == old(self).inner@.after_set(),
            old(self).inner@.waiters.kept(final(self).inner@.waiters, None),
            *final(final(self).inner) == *final(old(self).inner),
            r == old(self).inner@.next(),
    {
        self.inner.set()
    }

    /// Attempts to consume the signal: `true` if the event was set, which it then no longer
    /// is.
    pub fn try_wait(&mut self) -> (r: bool)
        requires
            old(self).inner.wf(),
        ensures
            final(self).inner.wf(),
            final(self).inner@ == old(self).inner@.after_try_wait(),
            *final(final(self).inner) == *final(old(self).inner),
            r == old(self).inner@.is_set,
    {
        self.inner.try_wait()
    }

    /// Returns a future that completes when the event is signaled.
    pub fn wait(&self) -> (r: EmbeddedAutoResetWaitFuture)
        ensures
            r@ is None,
    {
        EmbeddedAutoResetWaitFuture { waiter: Waiter::new() }
    }
}

/// Future returned by `EmbeddedAutoResetEventRef::wait()`.
pub struct EmbeddedAutoResetWaitFuture {
    waiter: Waiter,
}

impl View for EmbeddedAutoResetWaitFuture {
    type V = Option<usize>;

    closed spec fn view(&self) -> Option<usize> {
        self.waiter@
    }
}

impl EmbeddedAutoResetWaitFuture {
    /// Polls the future, on behalf of the task that `waker` wakes.
    pub fn poll(&mut self, event: &mut EmbeddedAutoResetEventRef<'_>, waker: Waker) -> (r: Poll<()>)
        requires
            old(event).inner.wf(),
            old(event).inner@.waiters.owns(old(self)@),
        ensures
            final(event).inner.wf(),
            final(event).inner@.waiters.owns(final(self)@),
            old(event).inner@.waiters.kept(final(event).inner@.waiters, old(self)@),
            *final(final(event).inner) == *final(old(event).inner),
            old(event).inner@.polled(
                old(self)@,
                waker,
                final(event).inner@,
                final(self)@,
                r,
            ),
    {
        event.inner.poll_wait(&mut self.waiter, waker)
    }

    /// Drops the future. A future that was released and has not completed passes its signal
    /// on to the next waiter, whose waker is handed out, or back to the event.
    pub fn drop_wait(self, event: &mut EmbeddedAutoResetEventRef<'_>) -> (r: Option<Waker>)
        requires
            old(event).inner.wf(),
            old(event).inner@.waiters.owns(self@),
        ensures
            final(event).inner.wf(),
            final(event).inner@ == old(event).inner@.after_drop(self@),
            old(event).inner@.waiters.kept(final(event).inner@.waiters, self@),
            *final(final(event).inner) == *final(old(event).inner),
            r == old(event).inner@.woken_by_drop(self@),
    {
        let mut waiter = self.waiter;
        event.inner.drop_wait(&mut waiter)
    }
}

} // verus!

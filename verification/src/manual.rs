//! Thread-safe manual-reset events.
//!
//! The event keeps two flags in one byte, changed by single atomic operations, and a list of
//! waiters behind a lock. Opening a door that no one waits at, closing it and looking
//! whether it is open touch the flags alone.
//!
//! Every function of `EventInner` up to `clear_if_last` is one step that no other thread
//! can see halfway; `set`, `poll_wait` and `drop_wait` are made of such steps. Each step
//! keeps the invariant `inv`, also when other threads are between two steps of their own,
//! and says what it does to the abstract event. In particular, a thread that has raised
//! the flag of the door and found waiters announced is counted until it has claimed a
//! release for everyone in the list, so that no waiter is passed over, whatever order the
//! steps of several threads come in.
use std::task::Waker;
use vstd::prelude::*;

use crate::manual_rules::{
    law_drop_skips_no_one, law_open_owes_everyone, law_poll, law_release_reaches_the_owed,
    law_set_opens_and_releases, ManualView,
};
use crate::waiters::{lemma_popped, lemma_position, lemma_without, Poll, Waiter, WaiterList};

verus! {

/// The flag of an open door.
const IS_SET: u8 = 0x1;

/// The flag that sends `set` to the list of waiters.
const HAS_WAITERS: u8 = 0x2;

/// What the holder of the lock, if there is one, is about to do.
pub enum Section {
    /// No one holds the lock.
    Free,
    /// The lock is held and the flags agree with the list.
    Held,
    /// A waiter was taken out of the list; if it was the last, the flag is not cleared yet.
    Clearing,
    /// The flag announces a waiter that is about to look once more at the door.
    Announced,
    /// The announced waiter found the door closed; it is about to join the list.
    Joining,
}

/// The state of a thread-safe manual-reset event.
pub struct EventInner {
    state: u8,
    waiters: WaiterList<Waker>,
    owed: usize,
    section: Ghost<Section>,
    setters: Ghost<nat>,
}

impl View for EventInner {
    type V = ManualView;

    closed spec fn view(&self) -> ManualView {
        ManualView {
            is_set: self.state == 1 || self.state == 3,
            waiters: self.waiters@,
            owed: self.owed as nat,
        }
    }
}

proof fn lemma_flags(s: u8)
    requires
        s <= 3,
    ensures
        s & IS_SET == if s == 1 || s == 3 { 1u8 } else { 0u8 },
        s & HAS_WAITERS == if s >= 2 { 2u8 } else { 0u8 },
        s & !IS_SET == if s >= 2 { 2u8 } else { 0u8 },
        s & !HAS_WAITERS == if s == 1 || s == 3 { 1u8 } else { 0u8 },
        s | IS_SET == if s >= 2 { 3u8 } else { 1u8 },
        s | HAS_WAITERS == if s == 1 || s == 3 { 3u8 } else { 2u8 },
{
    assert(s & 1 == if s == 1 || s == 3 { 1u8 } else { 0u8 }) by (bit_vector)
        requires s <= 3;
    assert(s & 2 == if s >= 2 { 2u8 } else { 0u8 }) by (bit_vector)
        requires s <= 3;
    assert(s & !1u8 == if s >= 2 { 2u8 } else { 0u8 }) by (bit_vector)
        requires s <= 3;
    assert(s & !2u8 == if s == 1 || s == 3 { 1u8 } else { 0u8 }) by (bit_vector)
        requires s <= 3;
    assert(s | 1 == if s >= 2 { 3u8 } else { 1u8 }) by (bit_vector)
        requires s <= 3;
    assert(s | 2 == if s == 1 || s == 3 { 3u8 } else { 2u8 }) by (bit_vector)
        requires s <= 3;
}

impl EventInner {
    /// What the holder of the lock is about to do.
    pub closed spec fn section(self) -> Section {
        self.section@
    }

    /// How many threads have opened the door and are about to claim a release for everyone
    /// in the list.
    pub closed spec fn setters(self) -> nat {
        self.setters@
    }

    /// The flag of waiters is up.
    pub closed spec fn has_waiters(self) -> bool {
        self.state >= 2
    }

    /// What holds between any two steps.
    ///
    /// The flag of waiters is up whenever someone waits. While the door is open, everyone
    /// who waits is owed a release, or someone is about to claim it for them.
    pub closed spec fn inv(self) -> bool {
        &&& self.state <= 3
        &&& self.waiters.wf()
        &&& self.owed <= self@.waiters.waiting.len()
        &&& self@.waiters.waiting.len() > 0 ==> self.has_waiters()
        &&& self@.is_set ==> self.setters@ > 0 || self.owed == self@.waiters.waiting.len()
        &&& match self.section@ {
            Section::Free | Section::Held => self.has_waiters() ==> self@.waiters.waiting.len()
                > 0,
            Section::Clearing => self.has_waiters(),
            Section::Announced => self.has_waiters(),
            Section::Joining => self.has_waiters() && (self@.is_set ==> self.setters@ > 0),
        }
    }

    /// No release is lost between two steps. As long as anyone waits, or has announced that it will, the
    /// flag of waiters is up, so that opening the door goes through the lock; and while the door is open,
    /// everyone who waits is owed a release, or someone who opened it is about to claim one for them, also
    /// for a waiter that has looked for the last time and is about to join the list. At rest the flag is up
    /// only if someone waits.
    pub proof fn law_no_release_is_lost(&self)
        requires
            self.inv(),
        ensures
            self@.waiters.waiting.len() > 0 ==> self.has_waiters(),
            !(self.section() is Free) && !(self.section() is Held) ==> self.has_waiters(),
            self.section() is Free || self.section() is Held ==> self.has_waiters() == (
            self@.waiters.waiting.len() > 0),
            self@.owed <= self@.waiters.waiting.len(),
            self@.is_set && self.setters() == 0 ==> self@.owed == self@.waiters.waiting.len(),
            self.section() is Joining && self@.is_set ==> self.setters() > 0,
    {
    }

    /// The event is at rest: the invariant holds, no one holds the lock and no one is about
    /// to claim a release.
    pub open spec fn wf(self) -> bool {
        self.inv() && self.section() == Section::Free && self.setters() == 0
    }

    /// At rest the abstract event is valid.
    pub proof fn lemma_valid(&self)
        requires
            self.wf(),
        ensures
            self@.valid(),
    {
        self.waiters.lemma_valid();
    }

    /// An event in the unset state.
    pub fn new() -> (r: Self)
        ensures
            r.wf(),
            r@ == ManualView::unset(),
    {
        EventInner {
            state: 0,
            waiters: WaiterList::new(),
            owed: 0,
            section: Ghost(Section::Free),
            setters: Ghost(0),
        }
    }

    /// One step, without the lock: whether the door is open.
    pub fn try_wait(&self) -> (r: bool)
        requires
            self.inv(),
        ensures
            r == self@.is_set,
    {
        proof {
            lemma_flags(self.state);
        }
        self.state & IS_SET != 0
    }

    /// One step, without the lock: closes the door.
    pub fn reset(&mut self)
        requires
            old(self).inv(),
        ensures
            final(self).inv(),
            final(self).section() == old(self).section(),
            final(self).setters() == old(self).setters(),
            final(self)@ == old(self)@.after_reset(),
    {
        proof {
            lemma_flags(self.state);
        }
        self.state = self.state & !IS_SET;
    }

    /// One step, without the lock: opens the door. The answer is whether it was closed and
    /// waiters are announced, so that a release must be claimed for them.
    pub fn raise(&mut self) -> (r: bool)
        requires
            old(self).inv(),
        ensures
            final(self).inv(),
            final(self).section() == old(self).section(),
            final(self)@ == (ManualView { is_set: true, ..old(self)@ }),
            r == (!old(self)@.is_set && old(self).has_waiters()),
            r ==> final(self).setters() == old(self).setters() + 1,
            !r ==> final(self).setters() == old(self).setters() && (old(self)@.is_set
                || final(self)@ == old(self)@.after_open() && old(self)@.waiters.waiting.len()
                == 0),
    {
        proof {
            lemma_flags(self.state);
        }
        let prev: u8 = self.state;
        self.state = prev | IS_SET;
        if prev & IS_SET != 0 || prev & HAS_WAITERS == 0 {
            return false;
        }
        self.setters = Ghost((self.setters@ + 1) as nat);
        true
    }

    /// One step, without the lock: lets `waiter` notice that it was released.
    pub fn take_notification(&mut self, waiter: &mut Waiter) -> (r: bool)
        requires
            old(self).inv(),
            old(self)@.waiters.owns(old(waiter)@),
        ensures
            final(self).inv(),
            final(self).section() == old(self).section(),
            final(self).setters() == old(self).setters(),
            r == old(self)@.is_released(old(waiter)@),
            r ==> final(self)@ == old(self)@.after_drop(old(waiter)@) && final(waiter)@ is None,
            !r ==> final(self)@ == old(self)@ && final(waiter)@ == old(waiter)@,
    {
        let ghost pre = *self;
        proof {
            self.waiters.lemma_valid();
            if pre@.is_released(waiter@) {
                let k = waiter@->0;
                if pre@.waiters.is_waiting(k) {
                    let i = pre@.waiters.position(k);
                    assert(!pre@.waiters.notified.contains(pre@.waiters.waiting[i].0));
                }
                if pre@.is_owed(k) {
                    assert(pre@.waiters.is_waiting(k));
                }
            }
        }
        self.waiters.take_notification(waiter)
    }

    /// Takes the lock.
    pub fn lock(&mut self)
        requires
            old(self).inv(),
            old(self).section() == Section::Free,
        ensures
            final(self).inv(),
            final(self).section() == Section::Held,
            final(self).setters() == old(self).setters(),
            final(self)@ == old(self)@,
    {
        self.section = Ghost(Section::Held);
    }

    /// Gives the lock back.
    pub fn unlock(&mut self)
        requires
            old(self).inv(),
            old(self).section() == Section::Held,
        ensures
            final(self).inv(),
            final(self).section() == Section::Free,
            final(self).setters() == old(self).setters(),
            final(self)@ == old(self)@,
    {
        self.section = Ghost(Section::Free);
    }

    /// One step, under the lock: claims a release for everyone in the list.
    pub fn claim(&mut self)
        requires
            old(self).inv(),
            old(self).section() == Section::Held,
            old(self).setters() > 0,
        ensures
            final(self).inv(),
            final(self).section() == Section::Held,
            final(self).setters() == old(self).setters() - 1,
            final(self)@ == (ManualView { owed: old(self)@.waiters.waiting.len(), ..old(self)@ }),
    {
        self.owed = self.waiters.len();
        self.setters = Ghost((self.setters@ - 1) as nat);
    }

    /// One step, under the lock: releases one waiter that is owed it.
    pub fn notify_one(&mut self) -> (r: Option<Waker>)
        requires
            old(self).inv(),
            old(self).section() == Section::Held,
        ensures
            final(self).inv(),
            final(self).setters() == old(self).setters(),
            final(self)@ == old(self)@.after_release(),
            old(self)@.waiters.kept(final(self)@.waiters, None),
            r == old(self)@.next(),
            final(self).section() == if r is Some {
                Section::Clearing
            } else {
                Section::Held
            },
    {
        proof {
            self.waiters.lemma_valid();
            if self.owed > 0 {
                lemma_popped(self@.waiters);
            }
        }
        if self.owed == 0 {
            return None;
        }
        self.owed = self.owed - 1;
        self.section = Ghost(Section::Clearing);
        self.waiters.notify_one()
    }

    /// One step, under the lock: takes `waiter` out of the list.
    pub fn unregister(&mut self, waiter: &mut Waiter)
        requires
            old(self).inv(),
            old(self).section() == Section::Held,
            old(self)@.waiters.owns(old(waiter)@),
            old(waiter)@ is Some,
            old(self)@.waiters.is_waiting(old(waiter)@->0),
        ensures
            final(self).inv(),
            final(self).section() == Section::Clearing,
            final(self).setters() == old(self).setters(),
            final(self)@ == old(self)@.after_drop(old(waiter)@),
            old(self)@.waiters.kept(final(self)@.waiters, old(waiter)@),
            final(waiter)@ is None,
    {
        let ghost pre = *self;
        let ghost k = waiter@->0;
        proof {
            self.waiters.lemma_valid();
            lemma_without(pre@.waiters, k);
        }
        match self.waiters.place(waiter) {
            Some(at) => {
                proof {
                    if pre@.is_owed(k) {
                        let i = choose|i: int|
                            0 <= i < pre@.owed && (#[trigger] pre@.waiters.waiting[i]).0 == k;
                        lemma_position(pre@.waiters, k, i);
                    }
                    if at < self.owed {
                        assert(pre@.waiters.waiting[at as int].0 == k);
                    }
                }
                if at < self.owed {
                    self.owed = self.owed - 1;
                }
            },
            None => {},
        }
        self.waiters.unregister(waiter);
        self.section = Ghost(Section::Clearing);
    }

    /// One step, under the lock: raises the flag of waiters, so that from now on opening the
    /// door goes through the lock.
    pub fn announce(&mut self)
        requires
            old(self).inv(),
            old(self).section() == Section::Held,
        ensures
            final(self).inv(),
            final(self).section() == Section::Announced,
            final(self).setters() == old(self).setters(),
            final(self)@ == old(self)@,
            final(self).has_waiters(),
    {
        proof {
            lemma_flags(self.state);
        }
        self.state = self.state | HAS_WAITERS;
        self.section = Ghost(Section::Announced);
    }

    /// One step, under the lock: looks at the door once the flag of waiters is up. If it is
    /// open, the flag is to be cleared again unless others wait.
    pub fn recheck(&mut self) -> (r: bool)
        requires
            old(self).inv(),
            old(self).section() == Section::Announced,
        ensures
            final(self).inv(),
            final(self)@ == old(self)@,
            final(self).setters() == old(self).setters(),
            r == old(self)@.is_set,
            final(self).section() == if r {
                Section::Clearing
            } else {
                Section::Joining
            },
    {
        if self.try_wait() {
            self.section = Ghost(Section::Clearing);
            true
        } else {
            self.section = Ghost(Section::Joining);
            false
        }
    }

    /// One step, under the lock: puts the announced waiter in the list.
    ///
    /// The door may have been opened since the waiter looked; whoever did so found the flag
    /// of waiters up and is about to claim a release for the waiter too.
    pub fn join(&mut self, waiter: &mut Waiter, waker: Waker)
        requires
            old(self).inv(),
            old(self).section() == Section::Joining,
            old(self)@.waiters.owns(old(waiter)@),
            !old(self)@.is_released(old(waiter)@),
        ensures
            final(self).inv(),
            final(self).section() == Section::Held,
            final(self).setters() == old(self).setters(),
            old(self)@.pending(old(waiter)@, waker, final(self)@, final(waiter)@),
            final(self).has_waiters(),
    {
        let ghost pre = *self;
        let ghost key = waiter@;
        proof {
            self.waiters.lemma_valid();
        }
        self.waiters.register(waiter, waker);
        self.section = Ghost(Section::Held);
        proof {
            match key {
                None => {},
                Some(k) => {
                    assert(pre@.waiters.waiting[pre@.waiters.position(k)].0 == k);
                },
            }
        }
    }

    /// One step, under the lock: takes the flag of waiters back if the list is empty.
    pub fn clear_if_last(&mut self)
        requires
            old(self).inv(),
            old(self).section() == Section::Clearing,
        ensures
            final(self).inv(),
            final(self).section() == Section::Held,
            final(self).setters() == old(self).setters(),
            final(self)@ == old(self)@,
    {
        proof {
            lemma_flags(self.state);
        }
        if self.waiters.is_empty() {
            self.state = self.state & !HAS_WAITERS;
        }
        self.section = Ghost(Section::Held);
    }

    /// Opens the door without releasing anyone yet; `release_next` does that. The answer is
    /// `false` if the door was open already or there is no one to release.
    pub fn open(&mut self) -> (r: bool)
        requires
            old(self).wf(),
        ensures
            final(self).wf(),
            final(self)@ == old(self)@.after_open(),
            r == (!old(self)@.is_set && old(self)@.waiters.waiting.len() > 0),
    {
        proof {
            self.lemma_valid();
            law_open_owes_everyone(self@);
        }
        if !self.raise() {
            return false;
        }
        self.lock();
        self.claim();
        self.unlock();
        true
    }

    /// Releases one waiter that is owed it, and hands out its waker, to be woken by the
    /// caller once it no longer holds the lock; `None` once everyone was released.
    pub fn release_next(&mut self) -> (r: Option<Waker>)
        requires
            old(self).wf(),
        ensures
            final(self).wf(),
            final(self)@ == old(self)@.after_release(),
            old(self)@.waiters.kept(final(self)@.waiters, None),
            r == old(self)@.next(),
    {
        self.lock();
        let waker = self.notify_one();
        if waker.is_some() {
            self.clear_if_last();
        }
        self.unlock();
        waker
    }

    /// Opens the door and releases everyone, handing out their wakers; does nothing if the
    /// door is open.
    pub fn set(&mut self) -> (r: Vec<Waker>)
        requires
            old(self).wf(),
        ensures
            final(self).wf(),
            old(self)@.is_set ==> r@.len() == 0 && final(self)@ == old(self)@,
            !old(self)@.is_set ==> r@ == old(self)@.wakers() && final(self)@
                == old(self)@.after_set(),
            old(self)@.waiters.kept(final(self)@.waiters, None),
    {
        let ghost pre = *self;
        proof {
            self.lemma_valid();
            law_open_owes_everyone(pre@);
            law_set_opens_and_releases(pre@);
        }
        let mut woken: Vec<Waker> = Vec::new();
        if !self.open() {
            proof {
                if !pre@.is_set {
                    assert(self@.after_releases() == self@);
                    assert(woken@ =~= pre@.wakers());
                }
            }
            return woken;
        }
        proof {
            assert(self@.wakers().subrange(0, 0) =~= woken@);
        }
        loop
            invariant_except_break
                self.wf(),
                self@.valid(),
                self@.is_set,
                self@.after_releases() == pre@.after_open().after_releases(),
                woken@.len() + self@.waiters.waiting.len() == pre@.waiters.waiting.len(),
                woken@ == pre@.wakers().subrange(0, woken@.len() as int),
                forall|i: int|
                    0 <= i < self@.waiters.waiting.len() ==> #[trigger] self@.waiters.waiting[i]
                        == pre@.waiters.waiting[i + woken@.len()],
            ensures
                self.wf(),
                self@ == pre@.after_open().after_releases(),
                woken@ == pre@.wakers(),
            decreases self@.owed,
        {
            let ghost before = *self;
            let ghost n = woken@.len() as int;
            proof {
                law_release_reaches_the_owed(self@);
            }
            match self.release_next() {
                Some(w) => {
                    proof {
                        assert(before@.waiters.waiting[0] == pre@.waiters.waiting[n]);
                        assert(pre@.wakers()[n] == w);
                        assert(pre@.wakers().subrange(0, n + 1) =~= woken@.push(w));
                        assert forall|i: int|
                            0 <= i < self@.waiters.waiting.len() implies
                            #[trigger] self@.waiters.waiting[i]
                                == pre@.waiters.waiting[i + n + 1] by {
                            assert(self@.waiters.waiting[i] == before@.waiters.waiting[i + 1]);
                        }
                    }
                    woken.push(w);
                },
                None => {
                    proof {
                        assert(self@.after_releases() == self@);
                        assert(woken@ =~= pre@.wakers());
                    }
                    break;
                },
            }
        }
        woken
    }

    /// Polls on behalf of `waiter`, which is to be woken by `waker`.
    pub fn poll_wait(&mut self, waiter: &mut Waiter, waker: Waker) -> (r: Poll<()>)
        requires
            old(self).wf(),
            old(self)@.waiters.owns(old(waiter)@),
        ensures
            final(self).wf(),
            final(self)@.waiters.owns(final(waiter)@),
            old(self)@.waiters.kept(final(self)@.waiters, old(waiter)@),
            old(self)@.polled_door_first(
                old(waiter)@,
                waker,
                final(self)@,
                final(waiter)@,
                r,
            ),
    {
        let ghost pre = *self;
        let ghost key = waiter@;
        let ghost w = waker;
        let r = self.poll_wait_steps(waiter, waker);
        proof {
            pre.lemma_valid();
            law_poll(pre@, key, w, self@, waiter@, r);
        }
        r
    }

    fn poll_wait_steps(&mut self, waiter: &mut Waiter, waker: Waker) -> (r: Poll<()>)
        requires
            old(self).wf(),
            old(self)@.waiters.owns(old(waiter)@),
        ensures
            final(self).wf(),
            old(self)@.polled_door_first(
                old(waiter)@,
                waker,
                final(self)@,
                final(waiter)@,
                r,
            ),
    {
        // Fast path: the door is open.
        if self.try_wait() {
            return Poll::Ready(());
        }
        if self.take_notification(waiter) {
            return Poll::Ready(());
        }
        // Slow path. Between the steps above and the lock, another thread may have released
        // the waiter or opened the door: look again for both.
        self.lock();
        if self.take_notification(waiter) {
            self.unlock();
            return Poll::Ready(());
        }
        if self.try_wait() {
            self.unlock();
            return Poll::Ready(());
        }
        // Announce the waiter before the last look: a set after it goes through the lock, and
        // a set before it is seen by that look.
        self.announce();
        if self.recheck() {
            self.clear_if_last();
            self.unlock();
            return Poll::Ready(());
        }
        self.join(waiter, waker);
        self.unlock();
        Poll::Pending
    }

    /// Drops `waiter`.
    pub fn drop_wait(&mut self, waiter: &mut Waiter)
        requires
            old(self).wf(),
            old(self)@.waiters.owns(old(waiter)@),
        ensures
            final(self).wf(),
            final(waiter)@ is None,
            final(self)@ == old(self)@.after_drop(old(waiter)@),
            old(self)@.waiters.kept(final(self)@.waiters, old(waiter)@),
    {
        proof {
            self.lemma_valid();
            law_drop_skips_no_one(self@, waiter@);
        }
        if !waiter.is_registered() {
            return;
        }
        self.lock();
        if !self.take_notification(waiter) {
            self.unregister(waiter);
            self.clear_if_last();
        }
        self.unlock();
    }
}

/// Thread-safe async manual-reset event.
///
/// Once set, releases all current and future awaiters until explicitly reset.
pub struct ManualResetEvent {
    inner: EventInner,
}

impl View for ManualResetEvent {
    type V = ManualView;

    closed spec fn view(&self) -> ManualView {
        self.inner@
    }
}

impl ManualResetEvent {
    /// While the event is set, everyone who waits is owed a release.
    pub closed spec fn wf(self) -> bool {
        self.inner.wf()
    }

    /// What well-formedness says of the abstract event.
    pub proof fn lemma_valid(&self)
        requires
            self.wf(),
        ensures
            self@.valid(),
    {
        self.inner.lemma_valid();
    }

    /// Creates a new event in the unset state.
    pub fn boxed() -> (r: Self)
        ensures
            r.wf(),
            r@ == ManualView::unset(),
    {
        ManualResetEvent { inner: EventInner::new() }
    }

    /// Creates a handle that operates on the state in a container.
    pub fn embedded<'a>(place: &'a mut EmbeddedManualResetEvent) -> (r: EmbeddedManualResetEventRef<'a>)
        ensures
            *r.inner == old(place).inner,
            *final(r.inner) == final(place).inner,
    {
        EmbeddedManualResetEventRef { inner: &mut place.inner }
    }

    /// Opens the door without releasing anyone yet; `release_next` does that. The answer is
    /// `false` if the door was open already or there is no one to release.
    pub fn open(&mut self) -> (r: bool)
        requires
            old(self).wf(),
        ensures
            final(self).wf(),
            final(self)@ == old(self)@.after_open(),
            r == (!old(self)@.is_set && old(self)@.waiters.waiting.len() > 0),
    {
        self.inner.open()
    }

    /// Releases one waiter that is owed it since the event was set, and hands out its waker;
    /// `None` once everyone was released. What the waker does to the event when it is woken
    /// before the next call makes no one else miss their release.
    pub fn release_next(&mut self) -> (r: Option<Waker>)
        requires
            old(self).wf(),
        ensures
            final(self).wf(),
            final(self)@ == old(self)@.after_release(),
            old(self)@.waiters.kept(final(self)@.waiters, None),
            r == old(self)@.next(),
    {
        self.inner.release_next()
    }

    /// Opens the door, releasing all current awaiters, whose wakers are handed out, and allowing
    /// future awaiters to pass through immediately. If the event is already set, this does
    /// nothing.
    pub fn set(&mut self) -> (r: Vec<Waker>)
        requires
            old(self).wf(),
        ensures
            final(self).wf(),
            old(self)@.is_set ==> r@.len() == 0 && final(self)@ == old(self)@,
            !old(self)@.is_set ==> r@ == old(self)@.wakers() && final(self)@
                == old(self)@.after_set(),
            old(self)@.waiters.kept(final(self)@.waiters, None),
    {
        self.inner.set()
    }

    /// Closes the door. Whoever was released already stays released.
    pub fn reset(&mut self)
        requires
            old(self).wf(),
        ensures
            final(self).wf(),
            final(self)@ == old(self)@.after_reset(),
    {
        self.inner.reset();
    }

    /// Whether the event is currently set.
    pub fn try_wait(&self) -> (r: bool)
        requires
            self.wf(),
        ensures
            r == self@.is_set,
    {
        self.inner.try_wait()
    }

    /// Returns a future that completes when the event is set.
    pub fn wait(&self) -> (r: ManualResetWaitFuture)
        ensures
            r@ is None,
    {
        ManualResetWaitFuture { waiter: Waiter::new() }
    }
}

/// Future returned by `ManualResetEvent::wait()`.
pub struct ManualResetWaitFuture {
    waiter: Waiter,
}

impl View for ManualResetWaitFuture {
    type V = Option<usize>;

    closed spec fn view(&self) -> Option<usize> {
        self.waiter@
    }
}

impl ManualResetWaitFuture {
    /// Polls the future, on behalf of the task that `waker` wakes.
    pub fn poll(&mut self, event: &mut ManualResetEvent, waker: Waker) -> (r: Poll<()>)
        requires
            old(event).wf(),
            old(event)@.waiters.owns(old(self)@),
        ensures
            final(event).wf(),
            final(event)@.waiters.owns(final(self)@),
            old(event)@.waiters.kept(final(event)@.waiters, old(self)@),
            old(event)@.polled_door_first(
                old(self)@,
                waker,
                final(event)@,
                final(self)@,
                r,
            ),
    {
        event.inner.poll_wait(&mut self.waiter, waker)
    }

    /// Drops the future, taking its waiter out of the event.
    pub fn drop_wait(self, event: &mut ManualResetEvent)
        requires
            old(event).wf(),
            old(event)@.waiters.owns(self@),
        ensures
            final(event).wf(),
            final(event)@ == old(event)@.after_drop(self@),
            old(event)@.waiters.kept(final(event)@.waiters, self@),
    {
        let mut waiter = self.waiter;
        event.inner.drop_wait(&mut waiter);
    }
}

/// Container for the state of an event that is not allocated on its own.
pub struct EmbeddedManualResetEvent {
    /// The state of the event.
    pub inner: EventInner,
}

impl EmbeddedManualResetEvent {
    /// Creates a container with an event in the unset state.
    pub fn new() -> (r: Self)
        ensures
            r.inner.wf(),
            r.inner@ == ManualView::unset(),
    {
        EmbeddedManualResetEvent { inner: EventInner::new() }
    }
}

impl Default for EmbeddedManualResetEvent {
    fn default() -> (r: Self)
        ensures
            r.inner.wf(),
            r.inner@ == ManualView::unset(),
    {
        Self::new()
    }
}

/// Handle to the event in a container.
pub struct EmbeddedManualResetEventRef<'a> {
    /// The state of the event.
    pub inner: &'a mut EventInner,
}

impl<'a> EmbeddedManualResetEventRef<'a> {
    /// Opens the door without releasing anyone yet; `release_next` does that. The answer is
    /// `false` if the door was open already or there is no one to release.
    pub fn open(&mut self) -> (r: bool)
        requires
            old(self).inner.wf(),
        ensures
            final(self).inner.wf(),
            *final(final(self).inner) == *final(old(self).inner),
            final(self).inner@ == old(self).inner@.after_open(),
            r == (!old(self).inner@.is_set && old(self).inner@.waiters.waiting.len() > 0),
    {
        self.inner.open()
    }

    /// Releases one waiter that is owed it since the event was set, and hands out its waker;
    /// `None` once everyone was released. What the waker does to the event when it is woken
    /// before the next call makes no one else miss their release.
    pub fn release_next(&mut self) -> (r: Option<Waker>)
        requires
            old(self).inner.wf(),
        ensures
            final(self).inner.wf(),
            *final(final(self).inner) == *final(old(self).inner),
            final(self).inner@ == old(self).inner@.after_release(),
            old(self).inner@.waiters.kept(final(self).inner@.waiters, None),
            r == old(self).inner@.next(),
    {
        self.inner.release_next()
    }

    /// Opens the door, releasing all current awaiters, whose wakers are handed out, and allowing
    /// future awaiters to pass through immediately. If the event is already set, this does
    /// nothing.
    pub fn set(&mut self) -> (r: Vec<Waker>)
        requires
            old(self).inner.wf(),
        ensures
            final(self).inner.wf(),
            *final(final(self).inner) == *final(old(self).inner),
            old(self).inner@.is_set ==> r@.len() == 0 && final(self).inner@ == old(self).inner@,
            !old(self).inner@.is_set ==> r@ == old(self).inner@.wakers() && final(self).inner@
                == old(self).inner@.after_set(),
            old(self).inner@.waiters.kept(final(self).inner@.waiters, None),
    {
        self.inner.set()
    }

    /// Closes the door. Whoever was released already stays released.
    pub fn reset(&mut self)
        requires
            old(self).inner.wf(),
        ensures
            final(self).inner.wf(),
            *final(final(self).inner) == *final(old(self).inner),
            final(self).inner@ == old(self).inner@.after_reset(),
    {
        self.inner.reset();
    }

    /// Whether the event is currently set.
    pub fn try_wait(&self) -> (r: bool)
        requires
            self.inner.wf(),
        ensures
            r == old(self.inner)@.is_set,
    {
        self.inner.try_wait()
    }

    /// Returns a future that completes when the event is set.
    pub fn wait(&self) -> (r: EmbeddedManualResetWaitFuture)
        ensures
            r@ is None,
    {
        EmbeddedManualResetWaitFuture { waiter: Waiter::new() }
    }
}

/// Future returned by `EmbeddedManualResetEventRef::wait()`.
pub struct EmbeddedManualResetWaitFuture {
    waiter: Waiter,
}

impl View for EmbeddedManualResetWaitFuture {
    type V = Option<usize>;

    closed spec fn view(&self) -> Option<usize> {
        self.waiter@
    }
}

impl EmbeddedManualResetWaitFuture {
    /// Polls the future, on behalf of the task that `waker` wakes.
    pub fn poll(&mut self, event: &mut EmbeddedManualResetEventRef<'_>, waker: Waker) -> (r: Poll<()>)
        requires
            old(event).inner.wf(),
            old(event).inner@.waiters.owns(old(self)@),
        ensures
            final(event).inner.wf(),
            final(event).inner@.waiters.owns(final(self)@),
            old(event).inner@.waiters.kept(final(event).inner@.waiters, old(self)@),
            *final(final(event).inner) == *final(old(event).inner),
            old(event).inner@.polled_door_first(
                old(self)@,
                waker,
                final(event).inner@,
                final(self)@,
                r,
            ),
    {
        event.inner.poll_wait(&mut self.waiter, waker)
    }

    /// Drops the future, taking its waiter out of the event.
    pub fn drop_wait(self, event: &mut EmbeddedManualResetEventRef<'_>)
        requires
            old(event).inner.wf(),
            old(event).inner@.waiters.owns(self@),
        ensures
            final(event).inner.wf(),
            final(event).inner@ == old(event).inner@.after_drop(self@),
            old(event).inner@.waiters.kept(final(event).inner@.waiters, self@),
            *final(final(event).inner) == *final(old(event).inner),
    {
        let mut waiter = self.waiter;
        event.inner.drop_wait(&mut waiter);
    }
}

} // verus!

//! Single-threaded manual-reset events.
use std::task::Waker;
use vstd::prelude::*;

use crate::manual_rules::{
    law_drop_skips_no_one, law_open_owes_everyone, law_poll, law_release_reaches_the_owed,
    law_set_opens_and_releases, ManualView,
};
use crate::waiters::{lemma_position, Poll, Waiter, WaiterList};

verus! {

/// The state of a single-threaded manual-reset event.
pub struct Inner {
    is_set: bool,
    waiters: WaiterList<Waker>,
    owed: usize,
}

impl View for Inner {
    type V = ManualView;

    closed spec fn view(&self) -> ManualView {
        ManualView { is_set: self.is_set, waiters: self.waiters@, owed: self.owed as nat }
    }
}

impl Inner {
    /// While the event is set, everyone who waits is owed a release.
    pub closed spec fn wf(self) -> bool {
        self.waiters.wf() && self@.valid()
    }

    /// What well-formedness says of the abstract event.
    pub proof fn lemma_valid(&self)
        requires
            self.wf(),
        ensures
            self@.valid(),
    {
    }

    /// An event in the unset state.
    pub fn new() -> (r: Self)
        ensures
            r.wf(),
            r@ == ManualView::unset(),
    {
        Inner { is_set: false, waiters: WaiterList::new(), owed: 0 }
    }

    /// Opens the door without releasing anyone yet; `release_next` does that. The answer is
    /// `false` if the door was open already.
    pub fn open(&mut self) -> (r: bool)
        requires
            old(self).wf(),
        ensures
            final(self).wf(),
            final(self)@ == old(self)@.after_open(),
            r == !old(self)@.is_set,
    {
        proof {
            law_open_owes_everyone(self@);
        }
        if self.is_set {
            return false;
        }
        self.is_set = true;
        self.owed = self.waiters.len();
        true
    }

    /// Releases one waiter that is owed it, and hands out its waker, to be woken by the
    /// caller once it no longer borrows the event; `None` once everyone was released.
    pub fn release_next(&mut self) -> (r: Option<Waker>)
        requires
            old(self).wf(),
        ensures
            final(self).wf(),
            final(self)@ == old(self)@.after_release(),
            old(self)@.waiters.kept(final(self)@.waiters, None),
            r == old(self)@.next(),
    {
        proof {
            law_release_reaches_the_owed(self@);
        }
        if self.owed == 0 {
            return None;
        }
        self.owed = self.owed - 1;
        self.waiters.notify_one()
    }

    /// Opens the door and releases everyone, handing out their wakers; does nothing if the
    /// door is open.
    pub fn set(&mut self) -> (r: Vec<Waker>)
        requires
            old(self).wf(),
        ensures
            final(self).wf(),
            old(self)@.is_set ==> r@.len() == 0 && final(self)@ == old(self)@,
            !old(self)@.is_set ==> r@ == old(self)@.wakers() && final(self)@
                == old(self)@.after_set(),
            old(self)@.waiters.kept(final(self)@.waiters, None),
    {
        let ghost pre = *self;
        proof {
            law_set_opens_and_releases(pre@);
        }
        let mut woken: Vec<Waker> = Vec::new();
        if !self.open() {
            proof {
                law_open_owes_everyone(pre@);
            }
            return woken;
        }
        proof {
            assert(self@.wakers().subrange(0, 0) =~= woken@);
        }
        while self.owed > 0
            invariant
                self.wf(),
                self@.is_set,
                self@.after_releases() == pre@.after_open().after_releases(),
                woken@.len() + self@.waiters.waiting.len() == pre@.waiters.waiting.len(),
                woken@ == pre@.wakers().subrange(0, woken@.len() as int),
                forall|i: int|
                    0 <= i < self@.waiters.waiting.len() ==> #[trigger] self@.waiters.waiting[i]
                        == pre@.waiters.waiting[i + woken@.len()],
            decreases self.owed,
        {
            let ghost before = *self;
            let ghost n = woken@.len() as int;
            match self.release_next() {
                Some(w) => {
                    proof {
                        assert(before@.waiters.waiting[0] == pre@.waiters.waiting[n]);
                        assert(pre@.wakers()[n] == w);
                        assert(pre@.wakers().subrange(0, n + 1) =~= woken@.push(w));
                        assert forall|i: int|
                            0 <= i < self@.waiters.waiting.len() implies
                            #[trigger] self@.waiters.waiting[i]
                                == pre@.waiters.waiting[i + n + 1] by {
                            assert(self@.waiters.waiting[i] == before@.waiters.waiting[i + 1]);
                        }
                    }
                    woken.push(w);
                },
                None => {},
            }
        }
        proof {
            assert(self@.after_releases() == self@);
            assert(woken@ =~= pre@.wakers());
        }
        woken
    }

    /// Closes the door.
    pub fn reset(&mut self)
        requires
            old(self).wf(),
        ensures
            final(self).wf(),
            final(self)@ == old(self)@.after_reset(),
    {
        self.is_set = false;
    }

    /// Whether the door is open.
    pub fn try_wait(&self) -> (r: bool)
        ensures
            r == self@.is_set,
    {
        self.is_set
    }

    /// Polls on behalf of `waiter`, which is to be woken by `waker`.
    pub fn poll_wait(&mut self, waiter: &mut Waiter, waker: Waker) -> (r: Poll<()>)
        requires
            old(self).wf(),
            old(self)@.waiters.owns(old(waiter)@),
        ensures
            final(self).wf(),
            final(self)@.waiters.owns(final(waiter)@),
            old(self)@.waiters.kept(final(self)@.waiters, old(waiter)@),
            old(self)@.polled_release_first(
                old(waiter)@,
                waker,
                final(self)@,
                final(waiter)@,
                r,
            ),
    {
        let ghost pre = *self;
        let ghost key = waiter@;
        let ghost w = waker;
        let r = if self.waiters.take_notification(waiter) {
            proof {
                let k = key->0;
                if pre@.is_owed(k) {
                    let i = choose|i: int|
                        0 <= i < pre@.owed && (#[trigger] pre@.waiters.waiting[i]).0 == k;
                    assert(!pre@.waiters.notified.contains(pre@.waiters.waiting[i].0));
                }
            }
            Poll::Ready(())
        } else if self.is_set {
            Poll::Ready(())
        } else {
            self.waiters.register(waiter, waker);
            Poll::Pending
        };
        proof {
            assert(pre@.polled_release_first(key, w, self@, waiter@, r));
            law_poll(pre@, key, w, self@, waiter@, r);
        }
        r
    }

    /// Drops `waiter`.
    pub fn drop_wait(&mut self, waiter: &mut Waiter)
        requires
            old(self).wf(),
            old(self)@.waiters.owns(old(waiter)@),
        ensures
            final(self).wf(),
            final(waiter)@ is None,
            final(self)@ == old(self)@.after_drop(old(waiter)@),
            old(self)@.waiters.kept(final(self)@.waiters, old(waiter)@),
    {
        proof {
            law_drop_skips_no_one(self@, waiter@);
        }
        let ghost pre = *self;
        let ghost key = waiter@;
        if waiter.is_registered() {
            match self.waiters.place(waiter) {
                Some(at) => {
                    proof {
                        let k = key->0;
                        if pre@.is_owed(k) {
                            let i = choose|i: int|
                                0 <= i < pre@.owed && (#[trigger] pre@.waiters.waiting[i]).0
                                    == k;
                            lemma_position(pre@.waiters, k, i);
                        }
                        if at < self.owed {
                            assert(pre@.waiters.waiting[at as int].0 == k);
                        }
                    }
                    if at < self.owed {
                        self.owed = self.owed - 1;
                    }
                },
                None => {
                    proof {
                        let k = key->0;
                        if pre@.is_owed(k) {
                            assert(pre@.waiters.is_waiting(k));
                        }
                    }
                },
            }
            self.waiters.unregister(waiter);
        }
    }
}

/// Single-threaded async manual-reset event.
///
/// Once set, releases all current and future awaiters until explicitly reset.
pub struct LocalManualResetEvent {
    inner: Inner,
}

impl View for LocalManualResetEvent {
    type V = ManualView;

    closed spec fn view(&self) -> ManualView {
        self.inner@
    }
}

impl LocalManualResetEvent {
    /// While the event is set, everyone who waits is owed a release.
    pub closed spec fn wf(self) -> bool {
        self.inner.wf()
    }

    /// What well-formedness says of the abstract event.
    pub proof fn lemma_valid(&self)
        requires
            self.wf(),
        ensures
            self@.valid(),
    {
        self.inner.lemma_valid();
    }

    /// Creates a new event in the unset state.
    pub fn boxed() -> (r: Self)
        ensures
            r.wf(),
            r@ == ManualView::unset(),
    {
        LocalManualResetEvent { inner: Inner::new() }
    }

    /// Creates a handle that operates on the state in a container.
    pub fn embedded<'a>(place: &'a mut EmbeddedLocalManualResetEvent) -> (r: EmbeddedLocalManualResetEventRef<'a>)
        ensures
            *r.inner == old(place).inner,
            *final(r.inner) == final(place).inner,
    {
        EmbeddedLocalManualResetEventRef { inner: &mut place.inner }
    }

    /// Opens the door without releasing anyone yet; `release_next` does that. The answer is
    /// `false` if the door was open already.
    pub fn open(&mut self) -> (r: bool)
        requires
            old(self).wf(),
        ensures
            final(self).wf(),
            final(self)@ == old(self)@.after_open(),
            r == !old(self)@.is_set,
    {
        self.inner.open()
    }

    /// Releases one waiter that is owed it since the event was set, and hands out its waker;
    /// `None` once everyone was released. What the waker does to the event when it is woken
    /// before the next call makes no one else miss their release.
    pub fn release_next(&mut self) -> (r: Option<Waker>)
        requires
            old(self).wf(),
        ensures
            final(self).wf(),
            final(self)@ == old(self)@.after_release(),
            old(self)@.waiters.kept(final(self)@.waiters, None),
            r == old(self)@.next(),
    {
        self.inner.release_next()
    }

    /// Opens the door, releasing all current awaiters, whose wakers are handed out, and allowing
    /// future awaiters to pass through immediately. If the event is already set, this does
    /// nothing.
    pub fn set(&mut self) -> (r: Vec<Waker>)
        requires
            old(self).wf(),
        ensures
            final(self).wf(),
            old(self)@.is_set ==> r@.len() == 0 && final(self)@ == old(self)@,
            !old(self)@.is_set ==> r@ == old(self)@.wakers() && final(self)@
                == old(self)@.after_set(),
            old(self)@.waiters.kept(final(self)@.waiters, None),
    {
        self.inner.set()
    }

    /// Closes the door. Whoever was released already stays released.
    pub fn reset(&mut self)
        requires
            old(self).wf(),
        ensures
            final(self).wf(),
            final(self)@ == old(self)@.after_reset(),
    {
        self.inner.reset();
    }

    /// Whether the event is currently set.
    pub fn try_wait(&self) -> (r: bool)
        ensures
            r == self@.is_set,
    {
        self.inner.try_wait()
    }

    /// Returns a future that completes when the event is set.
    pub fn wait(&self) -> (r: LocalManualResetWaitFuture)
        ensures
            r@ is None,
    {
        LocalManualResetWaitFuture { waiter: Waiter::new() }
    }
}

/// Future returned by `LocalManualResetEvent::wait()`.
pub struct LocalManualResetWaitFuture {
    waiter: Waiter,
}

impl View for LocalManualResetWaitFuture {
    type V = Option<usize>;

    closed spec fn view(&self) -> Option<usize> {
        self.waiter@
    }
}

impl LocalManualResetWaitFuture {
    /// Polls the future, on behalf of the task that `waker` wakes.
    pub fn poll(&mut self, event: &mut LocalManualResetEvent, waker: Waker) -> (r: Poll<()>)
        requires
            old(event).wf(),
            old(event)@.waiters.owns(old(self)@),
        ensures
            final(event).wf(),
            final(event)@.waiters.owns(final(self)@),
            old(event)@.waiters.kept(final(event)@.waiters, old(self)@),
            old(event)@.polled_release_first(
                old(self)@,
                waker,
                final(event)@,
                final(self)@,
                r,
            ),
    {
        event.inner.poll_wait(&mut self.waiter, waker)
    }

    /// Drops the future, taking its waiter out of the event.
    pub fn drop_wait(self, event: &mut LocalManualResetEvent)
        requires
            old(event).wf(),
            old(event)@.waiters.owns(self@),
        ensures
            final(event).wf(),
            final(event)@ == old(event)@.after_drop(self@),
            old(event)@.waiters.kept(final(event)@.waiters, self@),
    {
        let mut waiter = self.waiter;
        event.inner.drop_wait(&mut waiter);
    }
}

/// Container for the state of an event that is not allocated on its own.
pub struct EmbeddedLocalManualResetEvent {
    /// The state of the event.
    pub inner: Inner,
}

impl EmbeddedLocalManualResetEvent {
    /// Creates a container with an event in the unset state.
    pub fn new() -> (r: Self)
        ensures
            r.inner.wf(),
            r.inner@ == ManualView::unset(),
    {
        EmbeddedLocalManualResetEvent { inner: Inner::new() }
    }
}

impl Default for EmbeddedLocalManualResetEvent {
    fn default() -> (r: Self)
        ensures
            r.inner.wf(),
            r.inner@ == ManualView::unset(),
    {
        Self::new()
    }
}

/// Handle to the event in a container.
pub struct EmbeddedLocalManualResetEventRef<'a> {
    /// The state of the event.
    pub inner: &'a mut Inner,
}

impl<'a> EmbeddedLocalManualResetEventRef<'a> {
    /// Opens the door without releasing anyone yet; `release_next` does that. The answer is
    /// `false` if the door was open already.
    pub fn open(&mut self) -> (r: bool)
        requires
            old(self).inner.wf(),
        ensures
            final(self).inner.wf(),
            *final(final(self).inner) == *final(old(self).inner),
            final(self).inner@ == old(self).inner@.after_open(),
            r == !old(self).inner@.is_set,
    {
        self.inner.open()
    }

    /// Releases one waiter that is owed it since the event was set, and hands out its waker;
    /// `None` once everyone was released. What the waker does to the event when it is woken
    /// before the next call makes no one else miss their release.
    pub fn release_next(&mut self) -> (r: Option<Waker>)
        requires
            old(self).inner.wf(),
        ensures
            final(self).inner.wf(),
            *final(final(self).inner) == *final(old(self).inner),
            final(self).inner@ == old(self).inner@.after_release(),
            old(self).inner@.waiters.kept(final(self).inner@.waiters, None),
            r == old(self).inner@.next(),
    {
        self.inner.release_next()
    }

    /// Opens the door, releasing all current awaiters, whose wakers are handed out, and allowing
    /// future awaiters to pass through immediately. If the event is already set, this does
    /// nothing.
    pub fn set(&mut self) -> (r: Vec<Waker>)
        requires
            old(self).inner.wf(),
        ensures
            final(self).inner.wf(),
            *final(final(self).inner) == *final(old(self).inner),
            old(self).inner@.is_set ==> r@.len() == 0 && final(self).inner@ == old(self).inner@,
            !old(self).inner@.is_set ==> r@ == old(self).inner@.wakers() && final(self).inner@
                == old(self).inner@.after_set(),
            old(self).inner@.waiters.kept(final(self).inner@.waiters, None),
    {
        self.inner.set()
    }

    /// Closes the door. Whoever was released already stays released.
    pub fn reset(&mut self)
        requires
            old(self).inner.wf(),
        ensures
            final(self).inner.wf(),
            *final(final(self).inner) == *final(old(self).inner),
            final(self).inner@ == old(self).inner@.after_reset(),
    {
        self.inner.reset();
    }

    /// Whether the event is currently set.
    pub fn try_wait(&self) -> (r: bool)
        ensures
            r == old(self.inner)@.is_set,
    {
        self.inner.try_wait()
    }

    /// Returns a future that completes when the event is set.
    pub fn wait(&self) -> (r: EmbeddedLocalManualResetWaitFuture)
        ensures
            r@ is None,
    {
        EmbeddedLocalManualResetWaitFuture { waiter: Waiter::new() }
    }
}

/// Future returned by `EmbeddedLocalManualResetEventRef::wait()`.
pub struct EmbeddedLocalManualResetWaitFuture {
    waiter: Waiter,
}

impl View for EmbeddedLocalManualResetWaitFuture {
    type V = Option<usize>;

    closed spec fn view(&self) -> Option<usize> {
        self.waiter@
    }
}

impl EmbeddedLocalManualResetWaitFuture {
    /// Polls the future, on behalf of the task that `waker` wakes.
    pub fn poll(&mut self, event: &mut EmbeddedLocalManualResetEventRef<'_>, waker: Waker) -> (r: Poll<()>)
        requires
            old(event).inner.wf(),
            old(event).inner@.waiters.owns(old(self)@),
        ensures
            final(event).inner.wf(),
            final(event).inner@.waiters.owns(final(self)@),
            old(event).inner@.waiters.kept(final(event).inner@.waiters, old(self)@),
            *final(final(event).inner) == *final(old(event).inner),
            old(event).inner@.polled_release_first(
                old(self)@,
                waker,
                final(event).inner@,
                final(self)@,
                r,
            ),
    {
        event.inner.poll_wait(&mut self.waiter, waker)
    }

    /// Drops the future, taking its waiter out of the event.
    pub fn drop_wait(self, event: &mut EmbeddedLocalManualResetEventRef<'_>)
        requires
            old(event).inner.wf(),
            old(event).inner@.waiters.owns(self@),
        ensures
            final(event).inner.wf(),
            final(event).inner@ == old(event).inner@.after_drop(self@),
            old(event).inner@.waiters.kept(final(event).inner@.waiters, self@),
            *final(final(event).inner) == *final(old(event).inner),
    {
        let mut waiter = self.waiter;
        event.inner.drop_wait(&mut waiter);
    }
}

} // verus!

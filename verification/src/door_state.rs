//! The state machines of manual-reset events whose waiters stay in the queue until they look
//! again.
use std::task::Waker;
use vstd::prelude::*;

use crate::door_rules::{
    armed, disarmed, first_armed, law_drop, law_poll, law_set_keeps_waiters, law_take_in_order,
    lemma_first_armed, DoorView,
};
use crate::waiters::{lemma_stored, Poll, Waiter, WaiterList};

verus! {

/// The door and its queue; `W` is what is stored for a waiter.
pub struct DoorState<W> {
    is_set: bool,
    waiters: WaiterList<W>,
}

impl<W> View for DoorState<W> {
    type V = DoorView<W>;

    closed spec fn view(&self) -> DoorView<W> {
        DoorView { is_set: self.is_set, waiters: self.waiters@ }
    }
}

impl<W> DoorState<W> {
    /// No waiter is ever released on its own.
    pub closed spec fn wf(self) -> bool {
        self.waiters.wf() && self@.valid()
    }

    /// What well-formedness says of the abstract event.
    pub proof fn lemma_valid(&self)
        requires
            self.wf(),
        ensures
            self@.valid(),
    {
    }

    /// An event in the unset state.
    pub fn new() -> (r: Self)
        ensures
            r.wf(),
            r@ == DoorView::<W>::unset(),
    {
        DoorState { is_set: false, waiters: WaiterList::new() }
    }

    /// Opens the door. The answer is `false` if it was open already.
    pub fn open(&mut self) -> (r: bool)
        requires
            old(self).wf(),
        ensures
            final(self).wf(),
            final(self)@ == old(self)@.after_open(),
            r == !old(self)@.is_set,
    {
        if self.is_set {
            return false;
        }
        self.is_set = true;
        true
    }

    /// Closes the door.
    pub fn reset(&mut self)
        requires
            old(self).wf(),
        ensures
            final(self).wf(),
            final(self)@ == old(self)@.after_reset(),
    {
        self.is_set = false;
    }

    /// Whether the door is open.
    pub fn is_set(&self) -> (r: bool)
        ensures
            r == self@.is_set,
    {
        self.is_set
    }

    /// Polls on behalf of `waiter`, for which `w` is stored while it waits.
    pub fn poll_wait(&mut self, waiter: &mut Waiter, w: W) -> (r: Poll<()>)
        requires
            old(self).wf(),
            old(self)@.waiters.owns(old(waiter)@),
        ensures
            final(self).wf(),
            final(self)@.waiters.owns(final(waiter)@),
            old(self)@.waiters.kept(final(self)@.waiters, old(waiter)@),
            old(self)@.polled(old(waiter)@, w, final(self)@, final(waiter)@, r),
    {
        let ghost pre = *self;
        let ghost key = waiter@;
        let ghost stored = w;
        let r = if self.is_set {
            self.waiters.unregister(waiter);
            Poll::Ready(())
        } else {
            self.waiters.register(waiter, w);
            Poll::Pending
        };
        proof {
            assert(pre@.polled(key, stored, self@, waiter@, r));
            law_poll(pre@, key, stored, self@, waiter@, r);
        }
        r
    }

    /// Drops `waiter`.
    pub fn drop_wait(&mut self, waiter: &mut Waiter)
        requires
            old(self).wf(),
            old(self)@.waiters.owns(old(waiter)@),
        ensures
            final(self).wf(),
            final(waiter)@ is None,
            final(self)@ == old(self)@.after_drop(old(waiter)@),
            old(self)@.waiters.kept(final(self)@.waiters, old(waiter)@),
    {
        proof {
            law_drop(self@, waiter@);
        }
        self.waiters.unregister(waiter);
    }
}

impl DoorState<Waker> {
    /// The wakers of everyone who waits, oldest first. They stay stored.
    pub fn wakers<'a>(&'a self) -> (r: Vec<&'a Waker>)
        ensures
            r@.len() == self@.waiters.waiting.len(),
            forall|i: int| 0 <= i < r@.len() ==> *(#[trigger] r@[i]) == self@.waiters.waiting[i].1,
    {
        let mut wakers: Vec<&'a Waker> = Vec::new();
        let mut i: usize = 0;
        while i < self.waiters.len()
            invariant
                i <= self@.waiters.waiting.len(),
                wakers@.len() == i,
                forall|j: int|
                    0 <= j < i ==> *(#[trigger] wakers@[j]) == self@.waiters.waiting[j].1,
            decreases self@.waiters.waiting.len() - i,
        {
            wakers.push(self.waiters.stored_at(i));
            i += 1;
        }
        wakers
    }

    /// Opens the door and hands out the wakers of everyone who waits, which stay stored; does
    /// nothing if the door is open.
    pub fn set<'a>(&'a mut self) -> (r: Vec<&'a Waker>)
        requires
            old(self).wf(),
        ensures
            final(self).wf(),
            final(self)@ == old(self)@.after_open(),
            old(self)@.is_set ==> r@.len() == 0,
            !old(self)@.is_set ==> r@.len() == old(self)@.waiters.waiting.len(),
            !old(self)@.is_set ==> forall|i: int|
                0 <= i < r@.len() ==> *(#[trigger] r@[i]) == old(self)@.waiters.waiting[i].1,
    {
        if !self.open() {
            return Vec::new();
        }
        self.wakers()
    }
}

impl DoorState<Option<Waker>> {
    /// Takes the waker to wake next: that of the first waiter that has one stored. `None`
    /// once every waker was taken.
    pub fn take_next(&mut self) -> (r: Option<Waker>)
        requires
            old(self).wf(),
        ensures
            final(self).wf(),
            r == old(self)@.next(),
            final(self)@ == old(self)@.after_take(),
            old(self)@.waiters.kept(final(self)@.waiters, None),
    {
        let ghost pre = *self;
        let mut i: usize = 0;
        while i < self.waiters.len()
            invariant
                *self == pre,
                pre == *old(self),
                self.wf(),
                i <= self@.waiters.waiting.len(),
                forall|j: int| 0 <= j < i ==> (#[trigger] self@.waiters.waiting[j]).1 is None,
            decreases self@.waiters.waiting.len() - i,
        {
            if self.waiters.stored_at(i).is_some() {
                proof {
                    lemma_first_armed(pre@.waiters.waiting, i as int);
                    let k = pre@.waiters.waiting[i as int].0;
                    assert(pre@.waiters.is_waiting(k));
                    lemma_stored(pre@.waiters, k, None);
                }
                return self.waiters.replace_at(i, None);
            }
            i += 1;
        }
        proof {
            lemma_first_armed(pre@.waiters.waiting, i as int);
        }
        None
    }

    /// Opens the door and takes every stored waker, in the order of the queue; does nothing
    /// if the door is open.
    pub fn set(&mut self) -> (r: Vec<Waker>)
        requires
            old(self).wf(),
        ensures
            final(self).wf(),
            old(self)@.is_set ==> r@.len() == 0 && final(self)@ == old(self)@,
            !old(self)@.is_set ==> r@ == armed(old(self)@.waiters.waiting) && final(self)@
                == old(self)@.after_set(),
            old(self)@.waiters.kept(final(self)@.waiters, None),
    {
        let ghost pre = *self;
        let mut woken: Vec<Waker> = Vec::new();
        proof {
            law_set_keeps_waiters(pre@);
        }
        if !self.open() {
            return woken;
        }
        proof {
            assert(woken@ + armed(self@.waiters.waiting) =~= armed(pre@.waiters.waiting));
        }
        loop
            invariant_except_break
                self.wf(),
                self@.is_set,
                self@.waiters.notified == pre@.waiters.notified,
                disarmed(self@.waiters.waiting) == disarmed(pre@.waiters.waiting),
                woken@ + armed(self@.waiters.waiting) == armed(pre@.waiters.waiting),
            ensures
                self.wf(),
                self@ == pre@.after_set(),
                woken@ == armed(pre@.waiters.waiting),
            decreases armed(self@.waiters.waiting).len(),
        {
            let ghost q = self@.waiters.waiting;
            proof {
                law_take_in_order(q);
            }
            match self.take_next() {
                Some(w) => {
                    proof {
                        assert(first_armed(q) < q.len());
                        assert(woken@.push(w) + armed(q).drop_first() =~= woken@ + armed(q));
                    }
                    woken.push(w);
                },
                None => {
                    proof {
                        assert(first_armed(q) == q.len());
                        assert(woken@ =~= armed(pre@.waiters.waiting));
                    }
                    break;
                },
            }
        }
        woken
    }
}

} // verus!

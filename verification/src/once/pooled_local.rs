//! Pools of single-threaded one-time events.
//!
//! An event is created in the pool together with its endpoints, and leaves the pool once both
//! of them are gone.
use std::backtrace::Backtrace;
use std::task::Waker;

use pinned_pool::Key;
use vstd::prelude::*;

use crate::disconnected::Disconnected;
use crate::once::local::LocalOnceEvent;
use crate::once::pool_store::PoolStore;
use crate::once::ref_count::WithTwoOwners;
use crate::once::rules::OnceView;
use crate::waiters::Poll;

pub mod by_ptr;
pub mod by_rc;
pub mod by_ref;

verus! {

/// An event in a pool: its state, whether both endpoints still own it, and the backtrace of the
/// receiver's latest look.
pub struct LocalPooledView<T> {
    pub event: OnceView<T>,
    pub both: bool,
    pub backtrace: Option<Backtrace>,
}

impl<T> LocalPooledView<T> {
    /// An event whose endpoints have done nothing yet.
    pub open spec fn bound() -> Self {
        LocalPooledView { event: OnceView::bound(), both: true, backtrace: None }
    }

    /// The item with its event in another state.
    pub open spec fn with_event(self, event: OnceView<T>) -> Self {
        LocalPooledView { event, ..self }
    }

    /// The event has an endpoint, and both endpoints own it while both are attached.
    pub open spec fn valid(self) -> bool {
        &&& self.event.valid()
        &&& self.event.sender || self.event.receiver
        &&& self.both == (self.event.sender && self.event.receiver)
    }

    /// The backtrace of the current awaiter: that of the receiver's latest look, until the receiver
    /// leaves.
    pub open spec fn current_backtrace(self) -> Option<Backtrace> {
        if self.event.receiver {
            self.backtrace
        } else {
            None
        }
    }
}

/// The events in a pool after one owner of the event under `key`, which is now `item`, has
/// released it: the event stays for the other owner, or leaves.
pub open spec fn after_local_release<T>(
    pool: Map<Key, LocalPooledView<T>>,
    key: Key,
    item: LocalPooledView<T>,
) -> Map<Key, LocalPooledView<T>> {
    if item.both {
        pool.insert(key, LocalPooledView { both: false, ..item })
    } else {
        pool.remove(key)
    }
}

/// A pool of reusable one-time events on a single thread.
pub struct LocalOnceEventPool<T> {
    pool: PoolStore<WithTwoOwners<LocalOnceEvent<T>>>,
}

impl<T> View for LocalOnceEventPool<T> {
    type V = Map<Key, LocalPooledView<T>>;

    closed spec fn view(&self) -> Map<Key, LocalPooledView<T>> {
        self.pool@.map_values(|item: WithTwoOwners<LocalOnceEvent<T>>| item_view(item))
    }
}

closed spec fn item_view<T>(item: WithTwoOwners<LocalOnceEvent<T>>) -> LocalPooledView<T> {
    LocalPooledView {
        event: item.value()@,
        both: item.both(),
        backtrace: item.value().backtrace(),
    }
}

impl<T> LocalOnceEventPool<T> {
    /// Every event in the pool is well-formed.
    closed spec fn inv(self) -> bool {
        &&& self.pool.wf()
        &&& forall|key: Key| #[trigger]
            self.pool@.contains_key(key) ==> self.pool@[key].value().inv()
    }

    /// Every event in the pool is well-formed and has an endpoint.
    pub closed spec fn wf(self) -> bool {
        &&& self.inv()
        &&& forall|key: Key| #[trigger] self@.contains_key(key) ==> self@[key].valid()
    }

    /// In a well-formed pool, every event has an endpoint.
    pub proof fn lemma_valid(&self, key: Key)
        requires
            self.wf(),
            self@.contains_key(key),
        ensures
            self@[key].valid(),
    {
    }

    /// How many places for events the pool keeps, filled or vacant.
    pub closed spec fn room(self) -> nat {
        self.pool.room()
    }

    /// The place of the event under a key in use, counted from 0.
    pub closed spec fn place(self, key: Key) -> nat {
        self.pool.place(key)
    }

    /// The pool keeps no vacant places behind the last that is filled. One without events keeps
    /// none at all.
    pub open spec fn is_compact(self) -> bool {
        self.room() > 0 ==> exists|key: Key|
            self@.contains_key(key) && #[trigger] self.place(key) == self.room() - 1
    }

    /// Each event has a place of its own among those that the pool keeps.
    pub proof fn law_places_are_distinct(&self, a: Key, b: Key)
        requires
            self.wf(),
            self@.contains_key(a),
            self@.contains_key(b),
        ensures
            self.place(a) < self.room(),
            a != b ==> self.place(a) != self.place(b),
    {
        assert(self.pool@.contains_key(a));
        assert(self.pool@.contains_key(b));
        self.pool.law_places_are_distinct(a, b);
    }

    /// Creates a new empty event pool.
    pub fn new() -> (r: Self)
        ensures
            r.wf(),
            r@ == Map::<Key, LocalPooledView<T>>::empty(),
            r.room() == 0,
    {
        let r = LocalOnceEventPool { pool: PoolStore::new() };
        proof {
            assert(r@ =~= Map::<Key, LocalPooledView<T>>::empty());
        }
        r
    }

    /// Adds an event that is bound to its endpoints.
    pub(crate) fn bind(&mut self) -> (r: Key)
        requires
            old(self).wf(),
        ensures
            final(self).wf(),
            !old(self)@.contains_key(r),
            final(self)@ == old(self)@.insert(r, LocalPooledView::<T>::bound()),
            final(self).room() == if old(self).room() > old(self)@.dom().len() {
                old(self).room()
            } else {
                old(self).room() + 1
            },
    {
        let ghost pre = *self;
        proof {
            assert(self@.dom() =~= self.pool@.dom());
        }
        let mut storage: Option<LocalOnceEvent<T>> = None;
        LocalOnceEvent::new_in_place_bound(&mut storage);
        match storage {
            Some(event) => {
                let key = self.pool.insert(WithTwoOwners::new(event));
                proof {
                    assert(self@ =~= pre@.insert(key, LocalPooledView::<T>::bound()));
                }
                key
            },
            None => vstd::pervasive::unreached(),
        }
    }

    /// Releases the event under `key` on behalf of one of its owners; the last one takes it out
    /// of the pool.
    fn release(&mut self, key: Key)
        requires
            old(self).inv(),
            old(self)@.contains_key(key),
        ensures
            final(self).inv(),
            final(self)@ == after_local_release(old(self)@, key, old(self)@[key]),
            final(self).room() == old(self).room(),
    {
        let ghost pre = *self;
        if self.pool.get_mut(key).release_one() {
            self.pool.remove(key);
        }
        proof {
            assert(self@ =~= after_local_release(pre@, key, pre@[key]));
        }
    }

    /// Sets the value of the event under `key` and releases the event.
    pub(crate) fn set_and_release(&mut self, key: Key, value: T) -> (r: Option<Waker>)
        requires
            old(self).wf(),
            old(self)@.contains_key(key),
            old(self)@[key].event.sender,
        ensures
            final(self).wf(),
            final(self)@ == after_local_release(
                old(self)@,
                key,
                old(self)@[key].with_event(old(self)@[key].event.after_set(value)),
            ),
            final(self).room() == old(self).room(),
            r == old(self)@[key].event.waiting(),
    {
        let ghost pre = *self;
        proof {
            self.lemma_valid(key);
        }
        let ghost item = pre@[key].with_event(pre@[key].event.after_set(value));
        let (_, waker) = self.pool.get_mut(key).get_mut().set(value);
        proof {
            assert(self@ =~= pre@.insert(key, item));
        }
        self.release(key);
        proof {
            assert(self@ =~= after_local_release(pre@, key, item));
        }
        waker
    }

    /// Disconnects the event under `key` from the sender side and releases the event.
    fn disconnect_and_release(&mut self, key: Key) -> (r: Option<Waker>)
        requires
            old(self).wf(),
            old(self)@.contains_key(key),
            old(self)@[key].event.sender,
        ensures
            final(self).wf(),
            final(self)@ == after_local_release(
                old(self)@,
                key,
                old(self)@[key].with_event(old(self)@[key].event.after_sender_drop()),
            ),
            final(self).room() == old(self).room(),
            r == old(self)@[key].event.waiting(),
    {
        let ghost pre = *self;
        proof {
            self.lemma_valid(key);
        }
        let ghost item = pre@[key].with_event(pre@[key].event.after_sender_drop());
        let (_, waker) = self.pool.get_mut(key).get_mut().sender_dropped_without_set();
        proof {
            assert(self@ =~= pre@.insert(key, item));
        }
        self.release(key);
        proof {
            assert(self@ =~= after_local_release(pre@, key, item));
        }
        waker
    }

    /// Releases the event under `key` on behalf of its sender, which leaves without a word.
    pub(crate) fn leave_sender(&mut self, key: Key)
        requires
            old(self).wf(),
            old(self)@.contains_key(key),
            old(self)@[key].event.sender,
        ensures
            final(self).wf(),
            final(self)@ == after_local_release(
                old(self)@,
                key,
                old(self)@[key].with_event(old(self)@[key].event.after_sender_left()),
            ),
            final(self).room() == old(self).room(),
    {
        let ghost pre = *self;
        let ghost item = pre@[key].with_event(pre@[key].event.after_sender_left());
        proof {
            self.lemma_valid(key);
        }
        self.pool.get_mut(key).get_mut().sender_left();
        proof {
            assert(self@ =~= pre@.insert(key, item));
        }
        self.release(key);
        proof {
            assert(self@ =~= after_local_release(pre@, key, item));
        }
    }

    /// Releases the event under `key` on behalf of its receiver, which leaves without a word.
    pub(crate) fn leave_receiver(&mut self, key: Key)
        requires
            old(self).wf(),
            old(self)@.contains_key(key),
            old(self)@[key].event.receiver,
        ensures
            final(self).wf(),
            final(self)@ == after_local_release(
                old(self)@,
                key,
                old(self)@[key].with_event(old(self)@[key].event.after_receiver_left()),
            ),
            final(self).room() == old(self).room(),
    {
        let ghost pre = *self;
        let ghost item = pre@[key].with_event(pre@[key].event.after_receiver_left());
        proof {
            self.lemma_valid(key);
        }
        self.pool.get_mut(key).get_mut().receiver_left();
        proof {
            assert(self@ =~= pre@.insert(key, item));
        }
        self.release(key);
        proof {
            assert(self@ =~= after_local_release(pre@, key, item));
        }
    }

    /// Polls the event under `key`, and releases it if there is an outcome.
    pub(crate) fn poll_and_release(&mut self, key: Key, waker: Waker) -> (r: Option<
        Result<T, Disconnected>,
    >)
        requires
            old(self).wf(),
            old(self)@.contains_key(key),
            old(self)@[key].event.receiver,
        ensures
            final(self).wf(),
            r == old(self)@[key].event.poll_result(),
            local_polled(old(self)@, key, waker, final(self)@),
            final(self).room() == old(self).room(),
    {
        let ghost pre = *self;
        proof {
            self.lemma_valid(key);
        }
        let outcome = self.pool.get_mut(key).get_mut().poll(waker);
        let ghost backtrace = self.pool@[key].value().backtrace();
        let ghost item = polled_item(pre@[key], waker, backtrace);
        proof {
            assert(self@ =~= pre@.insert(key, item));
        }
        if outcome.is_some() {
            self.release(key);
            proof {
                assert(self@ =~= after_local_release(pre@, key, item));
            }
        }
        outcome
    }

    /// Returns the number of events currently in the pool.
    pub fn len(&self) -> (r: usize)
        requires
            self.wf(),
        ensures
            self@.dom().finite(),
            r == self@.dom().len(),
    {
        proof {
            assert(self@.dom() =~= self.pool@.dom());
        }
        self.pool.len()
    }

    /// Returns whether the pool is empty.
    pub fn is_empty(&self) -> (r: bool)
        requires
            self.wf(),
        ensures
            r == (self@ == Map::<Key, LocalPooledView<T>>::empty()),
    {
        proof {
            assert(self@.dom() =~= self.pool@.dom());
            if self.pool@ == Map::<Key, WithTwoOwners<LocalOnceEvent<T>>>::empty() {
                assert(self@ =~= Map::<Key, LocalPooledView<T>>::empty());
            }
            if self@ == Map::<Key, LocalPooledView<T>>::empty() {
                assert(self.pool@ =~= Map::<Key, WithTwoOwners<LocalOnceEvent<T>>>::empty());
            }
        }
        self.pool.is_empty()
    }

    /// Returns how many events there is room for. More room than for the events that are there is
    /// not promised.
    pub fn capacity(&self) -> (r: usize)
        requires
            self.wf(),
        ensures
            r >= self@.dom().len(),
    {
        proof {
            assert(self@.dom() =~= self.pool@.dom());
        }
        self.pool.capacity()
    }

    /// Shrinks the capacity of the pool to reduce memory usage: the places behind the last that
    /// is filled are given up. Every event stays, and stays in its place.
    pub fn shrink_to_fit(&mut self)
        requires
            old(self).wf(),
        ensures
            final(self).wf(),
            final(self)@ == old(self)@,
            forall|key: Key| #[trigger]
                final(self)@.contains_key(key) ==> final(self).place(key) == old(self).place(key),
            final(self).room() <= old(self).room(),
            final(self).is_compact(),
    {
        let ghost pre = *self;
        self.pool.shrink_to_fit();
        proof {
            assert(self@ =~= pre@);
            assert(self@.dom() =~= self.pool@.dom());
            if self.room() > 0 {
                let key = choose|key: Key|
                    self.pool@.contains_key(key) && #[trigger] self.pool.place(key)
                        == self.pool.room() - 1;
                assert(self@.contains_key(key) && self.place(key) == self.room() - 1);
            }
        }
    }

    /// Returns the backtraces of the current awaiters, that of each event that is being awaited
    /// once, in an order that is not stated.
    pub fn awaiter_backtraces<'a>(&'a self) -> (r: Vec<&'a Backtrace>)
        requires
            self.wf(),
        ensures
            lists_awaiters(r@, self@),
    {
        let events = self.pool.values();
        let ghost keys = choose|keys: Seq<Key>|
            {
                &&& #[trigger] keys.no_duplicates()
                &&& forall|key: Key| keys.contains(key) <==> #[trigger] self.pool@.contains_key(key)
                &&& events@.len() == keys.len()
                &&& forall|i: int|
                    0 <= i < keys.len() ==> *(#[trigger] events@[i]) == self.pool@[keys[i]]
            };
        let mut backtraces: Vec<&'a Backtrace> = Vec::new();
        let ghost mut awaited: Seq<Key> = Seq::empty();
        let mut i: usize = 0;
        while i < events.len()
            invariant
                i <= events.len(),
                keys.no_duplicates(),
                forall|key: Key| keys.contains(key) <==> #[trigger] self.pool@.contains_key(key),
                events@.len() == keys.len(),
                forall|j: int|
                    0 <= j < keys.len() ==> *(#[trigger] events@[j]) == self.pool@[keys[j]],
                awaited.no_duplicates(),
                forall|key: Key| #[trigger]
                    awaited.contains(key) <==> exists|j: int|
                        0 <= j < i && #[trigger] keys[j] == key
                            && self@[key].current_backtrace() is Some,
                backtraces@.len() == awaited.len(),
                forall|j: int|
                    0 <= j < awaited.len() ==> Some(*(#[trigger] backtraces@[j]))
                        == self@[awaited[j]].current_backtrace(),
            decreases events.len() - i,
        {
            let ghost key = keys[i as int];
            let ghost before = awaited;
            proof {
                assert(keys.contains(key));
                assert(self.pool@.contains_key(key));
                assert(self@[key].current_backtrace()
                    == self.pool@[key].value().current_backtrace());
            }
            match events[i].get().awaiter_backtrace() {
                Some(backtrace) => {
                    backtraces.push(backtrace);
                    proof {
                        assert(!before.contains(key)) by {
                            if before.contains(key) {
                                let j = choose|j: int|
                                    0 <= j < i && #[trigger] keys[j] == key
                                        && self@[key].current_backtrace() is Some;
                                assert(keys[j] != keys[i as int]);
                            }
                        }
                        awaited = before.push(key);
                        assert forall|k: Key| #[trigger]
                            awaited.contains(k) <==> before.contains(k) || k == key by {
                            if before.contains(k) {
                                let j = choose|j: int| 0 <= j < before.len() && before[j] == k;
                                assert(awaited[j] == k);
                            }
                            assert(awaited[before.len() as int] == key);
                        }
                        assert(awaited.no_duplicates());
                    }
                },
                None => {},
            }
            proof {
                assert forall|k: Key| #[trigger]
                    awaited.contains(k) <==> exists|j: int|
                        0 <= j < i + 1 && #[trigger] keys[j] == k
                            && self@[k].current_backtrace() is Some by {
                    if awaited.contains(k) && k != key {
                        assert(before.contains(k));
                    }
                    if exists|j: int|
                        0 <= j < i + 1 && #[trigger] keys[j] == k
                            && self@[k].current_backtrace() is Some {
                        let j = choose|j: int|
                            0 <= j < i + 1 && #[trigger] keys[j] == k
                                && self@[k].current_backtrace() is Some;
                        if j < i {
                            assert(before.contains(k));
                        }
                    }
                    assert(keys[i as int] == key);
                }
            }
            i += 1;
        }
        proof {
            assert forall|key: Key|
                awaited.contains(key) <==> #[trigger] self@.contains_key(key)
                    && self@[key].current_backtrace() is Some by {
                if self@.contains_key(key) && self@[key].current_backtrace() is Some {
                    assert(self.pool@.contains_key(key));
                    assert(keys.contains(key));
                    let j = choose|j: int| 0 <= j < keys.len() && keys[j] == key;
                    assert(keys[j] == key);
                }
                if awaited.contains(key) {
                    let j = choose|j: int|
                        0 <= j < i && #[trigger] keys[j] == key
                            && self@[key].current_backtrace() is Some;
                    assert(keys.contains(key));
                    assert(self.pool@.contains_key(key));
                }
            }
        }
        backtraces
    }

    /// Uses the provided closure to inspect the backtrace of the current awaiter of each event in
    /// the pool that is being awaited: those that `awaiter_backtraces` returns, one call each.
    ///
    /// The closure need accept nothing else, so that it is handed nothing else. That it is not
    /// handed one of them twice is not stated: a closure's contract does not count its calls.
    pub fn inspect_awaiters<F: FnMut(&Backtrace)>(&self, f: F)
        requires
            self.wf(),
            forall|key: Key|
                #![trigger self@.contains_key(key)]
                self@.contains_key(key) && self@[key].current_backtrace() is Some ==> call_requires(
                    f,
                    (&self@[key].current_backtrace()->0,),
                ),
        ensures
            forall|key: Key|
                #![trigger self@.contains_key(key)]
                self@.contains_key(key) && self@[key].current_backtrace() is Some ==> call_ensures(
                    f,
                    (&self@[key].current_backtrace()->0,),
                    (),
                ),
    {
        let mut f = f;
        let ghost f0 = f;
        let backtraces = self.awaiter_backtraces();
        let ghost keys = choose|keys: Seq<Key>|
            {
                &&& #[trigger] keys.no_duplicates()
                &&& forall|key: Key|
                    keys.contains(key) <==> #[trigger] self@.contains_key(key)
                        && self@[key].current_backtrace() is Some
                &&& backtraces@.len() == keys.len()
                &&& forall|i: int|
                    0 <= i < keys.len() ==> Some(*(#[trigger] backtraces@[i]))
                        == self@[keys[i]].current_backtrace()
            };
        proof {
            assert forall|j: int| 0 <= j < backtraces@.len() implies call_requires(
                f0,
                (#[trigger] backtraces@[j],),
            ) by {
                assert(keys.contains(keys[j]));
                assert(self@.contains_key(keys[j]));
            }
        }
        let mut i: usize = 0;
        while i < backtraces.len()
            invariant
                i <= backtraces.len(),
                f == f0,
                forall|j: int|
                    0 <= j < backtraces@.len() ==> call_requires(f0, (#[trigger] backtraces@[j],)),
                forall|j: int| 0 <= j < i ==> call_ensures(f0, (#[trigger] backtraces@[j],), ()),
            decreases backtraces.len() - i,
        {
            f(backtraces[i]);
            i += 1;
        }
        proof {
            assert forall|key: Key|
                #![trigger self@.contains_key(key)]
                self@.contains_key(key) && self@[key].current_backtrace() is Some implies call_ensures(
                f0,
                (&self@[key].current_backtrace()->0,),
                (),
            ) by {
                assert(keys.contains(key));
                let j = choose|j: int| 0 <= j < keys.len() && keys[j] == key;
                assert(call_ensures(f0, (backtraces@[j],), ()));
            }
        }
    }

    /// Creates an event and returns both its endpoints, connected by a shared reference to the pool.
    pub fn bind_by_ref(&mut self) -> (r: (
        PooledLocalOnceSender<RefLocalPool>,
        PooledLocalOnceReceiver<RefLocalPool>,
    ))
        requires
            old(self).wf(),
        ensures
            final(self).wf(),
            !old(self)@.contains_key(r.0.key()),
            r.1.key() == r.0.key(),
            r.1.is_live(),
            final(self)@ == old(self)@.insert(r.0.key(), LocalPooledView::<T>::bound()),
            final(self).room() == if old(self).room() > old(self)@.dom().len() {
                old(self).room()
            } else {
                old(self).room() + 1
            },
    {
        let key = self.bind();
        (
            PooledLocalOnceSender { pool_ref: RefLocalPool, key },
            PooledLocalOnceReceiver { live: true, pool_ref: RefLocalPool, key },
        )
    }

    /// Creates an event and returns both its endpoints, connected by an `Rc` to the pool.
    pub fn bind_by_rc(&mut self) -> (r: (
        PooledLocalOnceSender<RcLocalPool>,
        PooledLocalOnceReceiver<RcLocalPool>,
    ))
        requires
            old(self).wf(),
        ensures
            final(self).wf(),
            !old(self)@.contains_key(r.0.key()),
            r.1.key() == r.0.key(),
            r.1.is_live(),
            final(self)@ == old(self)@.insert(r.0.key(), LocalPooledView::<T>::bound()),
            final(self).room() == if old(self).room() > old(self)@.dom().len() {
                old(self).room()
            } else {
                old(self).room() + 1
            },
    {
        let key = self.bind();
        (
            PooledLocalOnceSender { pool_ref: RcLocalPool, key },
            PooledLocalOnceReceiver { live: true, pool_ref: RcLocalPool, key },
        )
    }

    /// Creates an event and returns both its endpoints, connected by a pointer to the pool.
    pub fn bind_by_ptr(&mut self) -> (r: (
        PooledLocalOnceSender<PtrLocalPool>,
        PooledLocalOnceReceiver<PtrLocalPool>,
    ))
        requires
            old(self).wf(),
        ensures
            final(self).wf(),
            !old(self)@.contains_key(r.0.key()),
            r.1.key() == r.0.key(),
            r.1.is_live(),
            final(self)@ == old(self)@.insert(r.0.key(), LocalPooledView::<T>::bound()),
            final(self).room() == if old(self).room() > old(self)@.dom().len() {
                old(self).room()
            } else {
                old(self).room() + 1
            },
    {
        let key = self.bind();
        (
            PooledLocalOnceSender { pool_ref: PtrLocalPool, key },
            PooledLocalOnceReceiver { live: true, pool_ref: PtrLocalPool, key },
        )
    }
}

/// `backtraces` are the backtraces of the current awaiters in a pool, that of each event that is
/// being awaited once.
pub open spec fn lists_awaiters<T>(
    backtraces: Seq<&Backtrace>,
    pool: Map<Key, LocalPooledView<T>>,
) -> bool {
    exists|keys: Seq<Key>|
        {
            &&& #[trigger] keys.no_duplicates()
            &&& forall|key: Key|
                keys.contains(key) <==> #[trigger] pool.contains_key(key)
                    && pool[key].current_backtrace() is Some
            &&& backtraces.len() == keys.len()
            &&& forall|i: int|
                0 <= i < keys.len() ==> Some(*(#[trigger] backtraces[i]))
                    == pool[keys[i]].current_backtrace()
        }
}

/// An item after the receiver looked and left this backtrace.
pub open spec fn polled_item<T>(
    item: LocalPooledView<T>,
    waker: Waker,
    backtrace: Option<Backtrace>,
) -> LocalPooledView<T> {
    LocalPooledView { event: item.event.after_poll(waker), backtrace, ..item }
}

/// The pool `post` is the pool `pre` after the receiver of the event under `key` looked, to be
/// woken by `waker`, which records a backtrace; with an outcome, it has also released the event.
pub open spec fn local_polled<T>(
    pre: Map<Key, LocalPooledView<T>>,
    key: Key,
    waker: Waker,
    post: Map<Key, LocalPooledView<T>>,
) -> bool {
    exists|backtrace: Option<Backtrace>|
        {
            let item = #[trigger] polled_item(pre[key], waker, backtrace);
            &&& backtrace is Some
            &&& post == if pre[key].event.poll_result() is Some {
                after_local_release(pre, key, item)
            } else {
                pre.insert(key, item)
            }
        }
}

impl<T> Default for LocalOnceEventPool<T> {
    fn default() -> (r: Self)
        ensures
            r.wf(),
            r@ == Map::<Key, LocalPooledView<T>>::empty(),
            r.room() == 0,
    {
        Self::new()
    }
}

/// The mechanism by which an endpoint is bound to the pool.
pub trait LocalPoolRef {

}

/// A pool referenced via shared reference.
#[derive(Clone, Copy, Debug)]
pub struct RefLocalPool;

impl LocalPoolRef for RefLocalPool {

}

/// A pool referenced via `Rc`.
#[derive(Clone, Copy, Debug)]
pub struct RcLocalPool;

impl LocalPoolRef for RcLocalPool {

}

/// A pool referenced via pointer.
#[derive(Clone, Copy, Debug)]
pub struct PtrLocalPool;

impl LocalPoolRef for PtrLocalPool {

}

/// A sender that can send a single value through an event in a pool.
///
/// The type parameter is the mechanism by which the endpoint is bound to the pool.
pub struct PooledLocalOnceSender<P: LocalPoolRef> {
    pool_ref: P,
    key: Key,
}

impl<P: LocalPoolRef> PooledLocalOnceSender<P> {
    /// The key of the event.
    pub closed spec fn key(self) -> Key {
        self.key
    }

    /// Sends a value through the event, in the pool that it was created in. Hands out the
    /// waker of the receiver if it is waiting. The event leaves the pool if the receiver has
    /// gone.
    pub fn send<T>(self, pool: &mut LocalOnceEventPool<T>, value: T) -> (r: Option<Waker>)
        requires
            old(pool).wf(),
            old(pool)@.contains_key(self.key()),
            old(pool)@[self.key()].event.sender,
        ensures
            final(pool).wf(),
            final(pool).room() == old(pool).room(),
            final(pool)@ == after_local_release(
                old(pool)@,
                self.key(),
                old(pool)@[self.key()].with_event(old(pool)@[self.key()].event.after_set(value)),
            ),
            r == old(pool)@[self.key()].event.waiting(),
    {
        pool.set_and_release(self.key, value)
    }

    /// Drops the sender without sending a value. Hands out the waker of the receiver if it is
    /// waiting. The event leaves the pool if the receiver has gone.
    pub fn drop_sender<T>(self, pool: &mut LocalOnceEventPool<T>) -> (r: Option<Waker>)
        requires
            old(pool).wf(),
            old(pool)@.contains_key(self.key()),
            old(pool)@[self.key()].event.sender,
        ensures
            final(pool).wf(),
            final(pool).room() == old(pool).room(),
            final(pool)@ == after_local_release(
                old(pool)@,
                self.key(),
                old(pool)@[self.key()].with_event(
                    old(pool)@[self.key()].event.after_sender_drop(),
                ),
            ),
            r == old(pool)@[self.key()].event.waiting(),
    {
        pool.disconnect_and_release(self.key)
    }
}

/// A receiver that can receive a single value through an event in a pool.
///
/// The type parameter is the mechanism by which the endpoint is bound to the pool.
pub struct PooledLocalOnceReceiver<P: LocalPoolRef> {
    live: bool,
    pool_ref: P,
    key: Key,
}

impl<P: LocalPoolRef> PooledLocalOnceReceiver<P> {
    /// The key of the event.
    pub closed spec fn key(self) -> Key {
        self.key
    }

    /// The receiver has not been told the outcome yet.
    pub closed spec fn is_live(self) -> bool {
        self.live
    }

    /// Polls for the outcome, on behalf of the task that `waker` wakes. With an outcome, the
    /// event leaves the pool if the sender has gone.
    pub fn poll<T>(&mut self, pool: &mut LocalOnceEventPool<T>, waker: Waker) -> (r: Poll<
        Result<T, Disconnected>,
    >)
        requires
            old(self).is_live(),
            old(pool).wf(),
            old(pool)@.contains_key(old(self).key()),
            old(pool)@[old(self).key()].event.receiver,
        ensures
            final(pool).wf(),
            final(pool).room() == old(pool).room(),
            final(self).key() == old(self).key(),
            final(self).is_live() == (r is Pending),
            r == match old(pool)@[old(self).key()].event.poll_result() {
                Some(outcome) => Poll::Ready(outcome),
                None => Poll::Pending,
            },
            local_polled(old(pool)@, old(self).key(), waker, final(pool)@),
    {
        match pool.poll_and_release(self.key, waker) {
            Some(outcome) => {
                self.live = false;
                Poll::Ready(outcome)
            },
            None => Poll::Pending,
        }
    }

    /// Releases the event unless the receiver has been told the outcome, which released it.
    fn drop_inner<T>(&mut self, pool: &mut LocalOnceEventPool<T>)
        requires
            old(pool).wf(),
            old(self).is_live() ==> old(pool)@.contains_key(old(self).key()) && old(
                pool,
            )@[old(self).key()].event.receiver,
        ensures
            final(pool).wf(),
            final(pool).room() == old(pool).room(),
            !final(self).is_live(),
            final(self).key() == old(self).key(),
            final(pool)@ == if old(self).is_live() {
                after_local_release(
                    old(pool)@,
                    old(self).key(),
                    old(pool)@[old(self).key()].with_event(
                        old(pool)@[old(self).key()].event.after_receiver_left(),
                    ),
                )
            } else {
                old(pool)@
            },
    {
        if !self.live {
            return;
        }
        self.live = false;
        pool.leave_receiver(self.key);
    }

    /// Drops the receiver. The event leaves the pool if the sender has gone.
    pub fn drop_receiver<T>(self, pool: &mut LocalOnceEventPool<T>)
        requires
            old(pool).wf(),
            self.is_live() ==> old(pool)@.contains_key(self.key()) && old(
                pool,
            )@[self.key()].event.receiver,
        ensures
            final(pool).wf(),
            final(pool).room() == old(pool).room(),
            final(pool)@ == if self.is_live() {
                after_local_release(
                    old(pool)@,
                    self.key(),
                    old(pool)@[self.key()].with_event(
                        old(pool)@[self.key()].event.after_receiver_left(),
                    ),
                )
            } else {
                old(pool)@
            },
    {
        let mut receiver = self;
        receiver.drop_inner(pool);
    }
}

/// An event leaves the pool with the last of its owners and not before, and the others stay as
/// they are: the pool counts the events that still have an owner.
pub proof fn law_event_leaves_with_last_owner<T>(
    pool: Map<Key, LocalPooledView<T>>,
    key: Key,
    item: LocalPooledView<T>,
)
    requires
        pool.dom().finite(),
        pool.contains_key(key),
    ensures
        after_local_release(pool, key, item).contains_key(key) == item.both,
        item.both ==> !after_local_release(pool, key, item)[key].both,
        after_local_release(pool, key, item).dom().len() == pool.dom().len() - if item.both {
            0int
        } else {
            1
        },
        forall|other: Key|
            other != key ==> {
                &&& after_local_release(pool, key, item).contains_key(other)
                    == #[trigger] pool.contains_key(other)
                &&& pool.contains_key(other) ==> after_local_release(pool, key, item)[other]
                    == pool[other]
            },
{
    if item.both {
        assert(after_local_release(pool, key, item).dom() =~= pool.dom());
    } else {
        assert(after_local_release(pool, key, item).dom() =~= pool.dom().remove(key));
    }
}

/// Creating an event adds it to those that the pool counts.
pub proof fn law_bound_event_is_counted<T>(pool: Map<Key, LocalPooledView<T>>, key: Key)
    requires
        pool.dom().finite(),
        !pool.contains_key(key),
    ensures
        pool.insert(key, LocalPooledView::<T>::bound()).dom().len() == pool.dom().len() + 1,
{
    assert(pool.insert(key, LocalPooledView::<T>::bound()).dom() =~= pool.dom().insert(key));
}

/// A new event in a pool has both its endpoints, who both own it, nothing sent and no awaiter.
pub proof fn law_new_event_is_fresh<T>()
    ensures
        LocalPooledView::<T>::bound().event == OnceView::<T>::bound(),
        LocalPooledView::<T>::bound().event.sender && LocalPooledView::<T>::bound().event.receiver,
        LocalPooledView::<T>::bound().event.poll_result() is None,
        LocalPooledView::<T>::bound().both,
        LocalPooledView::<T>::bound().backtrace is None,
        LocalPooledView::<T>::bound().current_backtrace() is None,
{
}

/// An event is being awaited while its receiver is there and has looked: its backtrace is then that of
/// the latest look, and no one's once the receiver has left.
pub proof fn law_awaiter_is_the_receiver_that_looked<T>(item: LocalPooledView<T>)
    ensures
        item.event.receiver ==> item.current_backtrace() == item.backtrace,
        !item.event.receiver ==> item.current_backtrace() is None,
{
}

/// What a sender does reaches the receiver of its own event and no other event: a value that is sent is
/// what that receiver is told when it looks, a sender that is dropped lets it know that nothing will
/// come, and one that leaves without a word leaves it waiting. If the receiver has gone, the event
/// leaves the pool.
pub proof fn law_sender_reaches_its_own_receiver<T>(
    pool: Map<Key, LocalPooledView<T>>,
    key: Key,
    value: T,
)
    requires
        pool.contains_key(key),
        pool[key].valid(),
        pool[key].event.sender,
    ensures
        ({
            let post = after_local_release(
                pool,
                key,
                pool[key].with_event(pool[key].event.after_set(value)),
            );
            &&& post.contains_key(key) <==> pool[key].event.receiver
            &&& post.contains_key(key) ==> {
                &&& post[key].event.receiver && !post[key].event.sender && !post[key].both
                &&& post[key].event.poll_result() == Some(Ok::<T, Disconnected>(value))
                &&& post[key].backtrace == pool[key].backtrace
            }
            &&& forall|other: Key|
                other != key ==> {
                    &&& post.contains_key(other) == #[trigger] pool.contains_key(other)
                    &&& pool.contains_key(other) ==> post[other] == pool[other]
                }
        }),
        ({
            let post = after_local_release(
                pool,
                key,
                pool[key].with_event(pool[key].event.after_sender_drop()),
            );
            &&& post.contains_key(key) <==> pool[key].event.receiver
            &&& post.contains_key(key) ==> {
                &&& post[key].event.receiver && !post[key].event.sender && !post[key].both
                &&& post[key].event.poll_result() == Some(Err::<T, Disconnected>(Disconnected))
                &&& post[key].backtrace == pool[key].backtrace
            }
            &&& forall|other: Key|
                other != key ==> {
                    &&& post.contains_key(other) == #[trigger] pool.contains_key(other)
                    &&& pool.contains_key(other) ==> post[other] == pool[other]
                }
        }),
        ({
            let post = after_local_release(
                pool,
                key,
                pool[key].with_event(pool[key].event.after_sender_left()),
            );
            &&& post.contains_key(key) <==> pool[key].event.receiver
            &&& post.contains_key(key) ==> {
                &&& post[key].event.receiver && !post[key].event.sender && !post[key].both
                &&& post[key].event.poll_result() is None
                &&& post[key].backtrace == pool[key].backtrace
            }
            &&& forall|other: Key|
                other != key ==> {
                    &&& post.contains_key(other) == #[trigger] pool.contains_key(other)
                    &&& pool.contains_key(other) ==> post[other] == pool[other]
                }
        }),
{
}

/// A receiver that looks leaves its backtrace at its own event and touches no other. Told to wait, it
/// stays the owner of the event, which keeps its waker; with an outcome, it gives the event up, which
/// then leaves the pool, as its sender has gone.
pub proof fn law_look_waits_or_takes_the_event_out<T>(
    pool: Map<Key, LocalPooledView<T>>,
    key: Key,
    waker: Waker,
    post: Map<Key, LocalPooledView<T>>,
)
    requires
        pool.contains_key(key),
        pool[key].valid(),
        pool[key].event.receiver,
        local_polled(pool, key, waker, post),
    ensures
        pool[key].event.sender ==> pool[key].event.poll_result() is None,
        post.contains_key(key) <==> pool[key].event.poll_result() is None,
        post.contains_key(key) ==> {
            &&& post[key].event.receiver
            &&& post[key].event.sender == pool[key].event.sender
            &&& post[key].both == pool[key].both
            &&& post[key].event.waiting() == Some(waker)
            &&& post[key].backtrace is Some
        },
        forall|other: Key|
            other != key ==> {
                &&& post.contains_key(other) == #[trigger] pool.contains_key(other)
                &&& pool.contains_key(other) ==> post[other] == pool[other]
            },
{
}

/// A receiver that is dropped touches no other event. The event stays for its sender, no longer awaited
/// by anyone; if the sender has gone, the event leaves the pool.
pub proof fn law_dropped_receiver_leaves_the_event_to_the_sender<T>(
    pool: Map<Key, LocalPooledView<T>>,
    key: Key,
)
    requires
        pool.contains_key(key),
        pool[key].valid(),
        pool[key].event.receiver,
    ensures
        ({
            let post = after_local_release(
                pool,
                key,
                pool[key].with_event(pool[key].event.after_receiver_left()),
            );
            &&& post.contains_key(key) <==> pool[key].event.sender
            &&& post.contains_key(key) ==> {
                &&& post[key].event.sender && !post[key].event.receiver && !post[key].both
                &&& post[key].current_backtrace() is None
            }
            &&& forall|other: Key|
                other != key ==> {
                    &&& post.contains_key(other) == #[trigger] pool.contains_key(other)
                    &&& pool.contains_key(other) ==> post[other] == pool[other]
                }
        }),
{
}

/// What an inspection lists is one entry for each event whose receiver has looked and is still there,
/// and nothing else: the backtrace of that receiver's latest look. The keys of those events can be put
/// in the order of the list.
pub proof fn law_listed_backtraces_are_those_of_awaiters<T>(
    backtraces: Seq<&Backtrace>,
    pool: Map<Key, LocalPooledView<T>>,
) -> (keys: Seq<Key>)
    requires
        lists_awaiters(backtraces, pool),
    ensures
        keys.len() == backtraces.len(),
        forall|i: int, j: int|
            0 <= i < j < keys.len() ==> #[trigger] keys[i] != #[trigger] keys[j],
        forall|i: int|
            0 <= i < keys.len() ==> {
                &&& pool.contains_key(#[trigger] keys[i])
                &&& pool[keys[i]].event.receiver
                &&& pool[keys[i]].backtrace == Some(*backtraces[i])
            },
        forall|key: Key| #[trigger]
            pool.contains_key(key) && pool[key].event.receiver && pool[key].backtrace is Some
                ==> exists|i: int| 0 <= i < keys.len() && keys[i] == key,
{
    assert(exists|keys: Seq<Key>|
        {
            &&& #[trigger] keys.no_duplicates()
            &&& forall|key: Key|
                keys.contains(key) <==> #[trigger] pool.contains_key(key)
                    && pool[key].current_backtrace() is Some
            &&& backtraces.len() == keys.len()
            &&& forall|i: int|
                0 <= i < keys.len() ==> Some(*(#[trigger] backtraces[i]))
                    == pool[keys[i]].current_backtrace()
        });
    let keys = choose|keys: Seq<Key>|
        {
            &&& #[trigger] keys.no_duplicates()
            &&& forall|key: Key|
                keys.contains(key) <==> #[trigger] pool.contains_key(key)
                    && pool[key].current_backtrace() is Some
            &&& backtraces.len() == keys.len()
            &&& forall|i: int|
                0 <= i < keys.len() ==> Some(*(#[trigger] backtraces[i]))
                    == pool[keys[i]].current_backtrace()
        };
    assert forall|i: int| 0 <= i < keys.len() implies {
        &&& pool.contains_key(#[trigger] keys[i])
        &&& pool[keys[i]].event.receiver
        &&& pool[keys[i]].backtrace == Some(*backtraces[i])
    } by {
        assert(keys.contains(keys[i]));
        assert(Some(*backtraces[i]) == pool[keys[i]].current_backtrace());
    }
    assert forall|key: Key| #[trigger]
        pool.contains_key(key) && pool[key].event.receiver
            && pool[key].backtrace is Some implies exists|i: int|
        0 <= i < keys.len() && keys[i] == key by {
        assert(keys.contains(key));
    }
    keys
}

/// A compact pool has an event in its last place, so that one without events keeps no place.
pub proof fn law_compact_pool_ends_with_an_event<T>(pool: LocalOnceEventPool<T>)
    requires
        pool.is_compact(),
    ensures
        pool.room() > 0 ==> exists|key: Key| #[trigger]
            pool@.contains_key(key) && pool.place(key) + 1 == pool.room(),
        pool@ == Map::<Key, LocalPooledView<T>>::empty() ==> pool.room() == 0,
{
    if pool.room() > 0 {
        let key = choose|key: Key|
            pool@.contains_key(key) && #[trigger] pool.place(key) == pool.room() - 1;
        assert(pool@.contains_key(key) && pool.place(key) + 1 == pool.room());
    }
}

} // verus!

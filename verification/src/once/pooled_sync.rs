//! Pools of thread-safe one-time events.
//!
//! An event is created in the pool together with its endpoints. What the event tells an endpoint
//! that leaves says whether it was the last one, which then takes the event out of the pool.
use std::backtrace::Backtrace;
use std::task::Waker;

use pinned_pool::Key;
use vstd::prelude::*;

use crate::disconnected::Disconnected;
use crate::once::pool_store::PoolStore;
use crate::once::rules::{OnceView, Stage};
use crate::once::sync::OnceEvent;
use crate::waiters::Poll;

verus! {

/// An event in a pool: its state, and the backtrace of the receiver's latest look.
pub struct PooledView<T> {
    pub event: OnceView<T>,
    pub backtrace: Option<Backtrace>,
}

impl<T> PooledView<T> {
    /// An event whose endpoints have done nothing yet.
    pub open spec fn bound() -> Self {
        PooledView { event: OnceView::bound(), backtrace: None }
    }

    /// The item with its event in another state.
    pub open spec fn with_event(self, event: OnceView<T>) -> Self {
        PooledView { event, ..self }
    }

    /// The event has an endpoint, and a receiver that has left has said so.
    pub open spec fn valid(self) -> bool {
        &&& self.event.tidy()
        &&& self.event.sender || self.event.receiver
    }
}

/// The events in a pool after the event under `key` became `item`: an event that both endpoints
/// have left leaves the pool.
pub open spec fn after_change<T>(
    pool: Map<Key, PooledView<T>>,
    key: Key,
    item: PooledView<T>,
) -> Map<Key, PooledView<T>> {
    if item.event.is_over() {
        pool.remove(key)
    } else {
        pool.insert(key, item)
    }
}

/// The reference `r` leads to what is recorded, if anything is.
pub open spec fn is_backtrace(r: Option<&Backtrace>, recorded: Option<Backtrace>) -> bool {
    match recorded {
        Some(backtrace) => r == Some(&backtrace),
        None => r is None,
    }
}

/// `backtraces` are the backtraces of the most recent awaiters in a pool, one for each event.
pub open spec fn lists_backtraces<T>(
    backtraces: Seq<Option<&Backtrace>>,
    pool: Map<Key, PooledView<T>>,
) -> bool {
    exists|keys: Seq<Key>|
        {
            &&& #[trigger] keys.no_duplicates()
            &&& forall|key: Key| keys.contains(key) <==> #[trigger] pool.contains_key(key)
            &&& backtraces.len() == keys.len()
            &&& forall|i: int|
                0 <= i < keys.len() ==> is_backtrace(
                    #[trigger] backtraces[i],
                    pool[keys[i]].backtrace,
                )
        }
}

/// An item after the receiver looked and left this backtrace.
pub open spec fn polled_item<T>(
    item: PooledView<T>,
    waker: Waker,
    backtrace: Option<Backtrace>,
) -> PooledView<T> {
    PooledView { event: item.event.after_poll(waker), backtrace }
}

/// The pool `post` is the pool `pre` after the receiver of the event under `key` looked, to be
/// woken by `waker`, which records a backtrace.
pub open spec fn pool_polled<T>(
    pre: Map<Key, PooledView<T>>,
    key: Key,
    waker: Waker,
    post: Map<Key, PooledView<T>>,
) -> bool {
    exists|backtrace: Option<Backtrace>|
        {
            let item = #[trigger] polled_item(pre[key], waker, backtrace);
            &&& backtrace is Some
            &&& post == after_change(pre, key, item)
        }
}

/// A pool of reusable one-time events with thread-safe endpoints.
pub struct OnceEventPool<T: Send> {
    pool: PoolStore<OnceEvent<T>>,
}

closed spec fn item_view<T: Send>(item: OnceEvent<T>) -> PooledView<T> {
    PooledView { event: item@, backtrace: item.backtrace() }
}

impl<T: Send> View for OnceEventPool<T> {
    type V = Map<Key, PooledView<T>>;

    closed spec fn view(&self) -> Map<Key, PooledView<T>> {
        self.pool@.map_values(|item: OnceEvent<T>| item_view(item))
    }
}

impl<T: Send> OnceEventPool<T> {
    /// Every event in the pool is well-formed and has an endpoint.
    pub closed spec fn wf(self) -> bool {
        &&& self.pool.wf()
        &&& forall|key: Key| #[trigger]
            self.pool@.contains_key(key) ==> self.pool@[key].wf() && item_view(
                self.pool@[key],
            ).valid()
    }

    /// In a well-formed pool, every event has an endpoint, and a receiver that has left has said
    /// so.
    pub proof fn lemma_valid(&self, key: Key)
        requires
            self.wf(),
            self@.contains_key(key),
        ensures
            self@[key].valid(),
    {
        assert(self.pool@.contains_key(key));
    }

    /// How many places for events the pool keeps, filled or vacant.
    pub closed spec fn room(self) -> nat {
        self.pool.room()
    }

    /// The place of the event under a key in use, counted from 0.
    pub closed spec fn place(self, key: Key) -> nat {
        self.pool.place(key)
    }

    /// The pool keeps no vacant places behind the last that is filled. One without events keeps
    /// none at all.
    pub open spec fn is_compact(self) -> bool {
        self.room() > 0 ==> exists|key: Key|
            self@.contains_key(key) && #[trigger] self.place(key) == self.room() - 1
    }

    /// Each event has a place of its own among those that the pool keeps.
    pub proof fn law_places_are_distinct(&self, a: Key, b: Key)
        requires
            self.wf(),
            self@.contains_key(a),
            self@.contains_key(b),
        ensures
            self.place(a) < self.room(),
            a != b ==> self.place(a) != self.place(b),
    {
        assert(self.pool@.contains_key(a));
        assert(self.pool@.contains_key(b));
        self.pool.law_places_are_distinct(a, b);
    }

    /// Creates a new empty event pool.
    pub fn new() -> (r: Self)
        ensures
            r.wf(),
            r@ == Map::<Key, PooledView<T>>::empty(),
            r.room() == 0,
    {
        let r = OnceEventPool { pool: PoolStore::new() };
        proof {
            assert(r@ =~= Map::<Key, PooledView<T>>::empty());
        }
        r
    }

    /// Adds an event that is bound to its endpoints.
    fn bind(&mut self) -> (r: Key)
        requires
            old(self).wf(),
        ensures
            final(self).wf(),
            !old(self)@.contains_key(r),
            final(self)@ == old(self)@.insert(r, PooledView::<T>::bound()),
            final(self).room() == if old(self).room() > old(self)@.dom().len() {
                old(self).room()
            } else {
                old(self).room() + 1
            },
    {
        let ghost pre = *self;
        proof {
            assert(self@.dom() =~= self.pool@.dom());
        }
        let key = self.pool.insert(OnceEvent::new_bound());
        proof {
            assert(self@ =~= pre@.insert(key, PooledView::<T>::bound()));
        }
        key
    }

    /// Sets the value of the event under `key`; if its receiver has gone, takes it out.
    fn set_event(&mut self, key: Key, value: T) -> (r: Option<Waker>)
        requires
            old(self).wf(),
            old(self)@.contains_key(key),
            old(self)@[key].event.sender,
        ensures
            final(self).wf(),
            final(self).room() == old(self).room(),
            final(self)@ == after_change(
                old(self)@,
                key,
                old(self)@[key].with_event(old(self)@[key].event.after_set(value)),
            ),
            r == old(self)@[key].event.waiting(),
    {
        let ghost pre = *self;
        let ghost item = pre@[key].with_event(pre@[key].event.after_set(value));
        proof {
            pre.lemma_valid(key);
        }
        let (told, waker) = self.pool.get_mut(key).set(value);
        match told {
            Ok(()) => {},
            Err(Disconnected) => {
                self.pool.remove(key);
            },
        }
        proof {
            assert(self@ =~= after_change(pre@, key, item));
        }
        waker
    }

    /// Disconnects the event under `key` from the sender side; if its receiver has gone, takes it
    /// out.
    fn disconnect_event(&mut self, key: Key) -> (r: Option<Waker>)
        requires
            old(self).wf(),
            old(self)@.contains_key(key),
            old(self)@[key].event.sender,
        ensures
            final(self).wf(),
            final(self).room() == old(self).room(),
            final(self)@ == after_change(
                old(self)@,
                key,
                old(self)@[key].with_event(old(self)@[key].event.after_sender_drop()),
            ),
            r == old(self)@[key].event.waiting(),
    {
        let ghost pre = *self;
        let ghost item = pre@[key].with_event(pre@[key].event.after_sender_drop());
        proof {
            pre.lemma_valid(key);
        }
        let (told, waker) = self.pool.get_mut(key).sender_dropped_without_set();
        match told {
            Ok(()) => {},
            Err(Disconnected) => {
                self.pool.remove(key);
            },
        }
        proof {
            assert(self@ =~= after_change(pre@, key, item));
        }
        waker
    }

    /// Polls the event under `key`; with an outcome, takes it out.
    fn poll_event(&mut self, key: Key, waker: Waker) -> (r: Option<Result<T, Disconnected>>)
        requires
            old(self).wf(),
            old(self)@.contains_key(key),
            old(self)@[key].event.receiver,
        ensures
            final(self).wf(),
            final(self).room() == old(self).room(),
            r == old(self)@[key].event.poll_result(),
            pool_polled(old(self)@, key, waker, final(self)@),
    {
        let ghost pre = *self;
        proof {
            pre.lemma_valid(key);
        }
        let outcome = self.pool.get_mut(key).poll(waker);
        let ghost backtrace = self.pool@[key].backtrace();
        let ghost item = polled_item(pre@[key], waker, backtrace);
        if outcome.is_some() {
            self.pool.remove(key);
        }
        proof {
            assert(self@ =~= after_change(pre@, key, item));
        }
        outcome
    }

    /// Looks at the event under `key` for the last time; unless nothing has come, takes it out.
    fn final_poll_event(&mut self, key: Key) -> (r: Option<T>)
        requires
            old(self).wf(),
            old(self)@.contains_key(key),
            old(self)@[key].event.receiver,
        ensures
            final(self).wf(),
            final(self).room() == old(self).room(),
            r == match old(self)@[key].event.stage {
                Stage::Sent(value) => Some(value),
                _ => None,
            },
            final(self)@ == after_change(
                old(self)@,
                key,
                old(self)@[key].with_event(old(self)@[key].event.after_final_poll()),
            ),
    {
        let ghost pre = *self;
        let ghost item = pre@[key].with_event(pre@[key].event.after_final_poll());
        proof {
            pre.lemma_valid(key);
        }
        let value = match self.pool.get_mut(key).final_poll() {
            Ok(Some(value)) => {
                // The sender has sent a value and gone, so we clean up.
                self.pool.remove(key);
                Some(value)
            },
            Ok(None) => {
                // The sender is still there and will clean up.
                None
            },
            Err(Disconnected) => {
                self.pool.remove(key);
                None
            },
        };
        proof {
            assert(self@ =~= after_change(pre@, key, item));
        }
        value
    }

    /// Returns the number of events currently in the pool.
    pub fn len(&self) -> (r: usize)
        requires
            self.wf(),
        ensures
            self@.dom().finite(),
            r == self@.dom().len(),
    {
        proof {
            assert(self@.dom() =~= self.pool@.dom());
        }
        self.pool.len()
    }

    /// Returns whether the pool is empty.
    pub fn is_empty(&self) -> (r: bool)
        requires
            self.wf(),
        ensures
            r == (self@ == Map::<Key, PooledView<T>>::empty()),
    {
        proof {
            assert(self@.dom() =~= self.pool@.dom());
            if self.pool@ == Map::<Key, OnceEvent<T>>::empty() {
                assert(self@ =~= Map::<Key, PooledView<T>>::empty());
            }
            if self@ == Map::<Key, PooledView<T>>::empty() {
                assert(self.pool@ =~= Map::<Key, OnceEvent<T>>::empty());
            }
        }
        self.pool.is_empty()
    }

    /// Returns how many events there is room for. More room than for the events that are there is
    /// not promised.
    pub fn capacity(&self) -> (r: usize)
        requires
            self.wf(),
        ensures
            r >= self@.dom().len(),
    {
        proof {
            assert(self@.dom() =~= self.pool@.dom());
        }
        self.pool.capacity()
    }

    /// Shrinks the capacity of the pool to reduce memory usage: the places behind the last that
    /// is filled are given up. Every event stays, and stays in its place.
    pub fn shrink_to_fit(&mut self)
        requires
            old(self).wf(),
        ensures
            final(self).wf(),
            final(self)@ == old(self)@,
            forall|key: Key| #[trigger]
                final(self)@.contains_key(key) ==> final(self).place(key) == old(self).place(key),
            final(self).room() <= old(self).room(),
            final(self).is_compact(),
    {
        self.pool.shrink_to_fit();
        proof {
            assert(self@.dom() =~= self.pool@.dom());
            if self.room() > 0 {
                let key = choose|key: Key|
                    self.pool@.contains_key(key) && #[trigger] self.pool.place(key)
                        == self.pool.room() - 1;
                assert(self@.contains_key(key) && self.place(key) == self.room() - 1);
            }
        }
    }

    /// Returns the backtraces of the most recent awaiters, one for each event in the pool, in an
    /// order that is not stated; `None` stands for an event that was never awaited.
    pub fn awaiter_backtraces<'a>(&'a self) -> (r: Vec<Option<&'a Backtrace>>)
        requires
            self.wf(),
        ensures
            lists_backtraces(r@, self@),
    {
        let events = self.pool.values();
        let ghost keys = choose|keys: Seq<Key>|
            {
                &&& #[trigger] keys.no_duplicates()
                &&& forall|key: Key| keys.contains(key) <==> #[trigger] self.pool@.contains_key(key)
                &&& events@.len() == keys.len()
                &&& forall|i: int|
                    0 <= i < keys.len() ==> *(#[trigger] events@[i]) == self.pool@[keys[i]]
            };
        let mut backtraces: Vec<Option<&'a Backtrace>> = Vec::new();
        let mut i: usize = 0;
        while i < events.len()
            invariant
                i <= events.len(),
                forall|key: Key| keys.contains(key) <==> #[trigger] self.pool@.contains_key(key),
                events@.len() == keys.len(),
                forall|j: int|
                    0 <= j < keys.len() ==> *(#[trigger] events@[j]) == self.pool@[keys[j]],
                backtraces@.len() == i,
                forall|j: int|
                    0 <= j < i ==> is_backtrace(
                        #[trigger] backtraces@[j],
                        self@[keys[j]].backtrace,
                    ),
            decreases events.len() - i,
        {
            proof {
                assert(keys.contains(keys[i as int]));
                assert(self.pool@.contains_key(keys[i as int]));
            }
            backtraces.push(events[i].latest_backtrace());
            i += 1;
        }
        proof {
            assert(self@.dom() =~= self.pool@.dom());
            assert forall|key: Key| keys.contains(key) <==> #[trigger] self@.contains_key(key) by {
                assert(keys.contains(key) <==> self.pool@.contains_key(key));
            }
        }
        backtraces
    }

    /// Uses the provided closure to inspect the backtrace of the most recent awaiter of each event
    /// in the pool, or `None` for an event that was never awaited: those that `awaiter_backtraces`
    /// returns, one call each.
    ///
    /// The closure need accept nothing else, so that it is handed nothing else. That it is not
    /// handed one of them twice is not stated: a closure's contract does not count its calls.
    pub fn inspect_awaiters<F: FnMut(Option<&Backtrace>)>(&self, f: F)
        requires
            self.wf(),
            forall|key: Key| #[trigger]
                self@.contains_key(key) ==> match self@[key].backtrace {
                    Some(backtrace) => call_requires(f, (Some(&backtrace),)),
                    None => call_requires(f, (None::<&Backtrace>,)),
                },
        ensures
            forall|key: Key| #[trigger]
                self@.contains_key(key) ==> match self@[key].backtrace {
                    Some(backtrace) => call_ensures(f, (Some(&backtrace),), ()),
                    None => call_ensures(f, (None::<&Backtrace>,), ()),
                },
    {
        let mut f = f;
        let ghost f0 = f;
        let backtraces = self.awaiter_backtraces();
        let ghost keys = choose|keys: Seq<Key>|
            {
                &&& #[trigger] keys.no_duplicates()
                &&& forall|key: Key| keys.contains(key) <==> #[trigger] self@.contains_key(key)
                &&& backtraces@.len() == keys.len()
                &&& forall|i: int|
                    0 <= i < keys.len() ==> is_backtrace(
                        #[trigger] backtraces@[i],
                        self@[keys[i]].backtrace,
                    )
            };
        proof {
            assert forall|j: int| 0 <= j < backtraces@.len() implies call_requires(
                f0,
                (#[trigger] backtraces@[j],),
            ) by {
                assert(keys.contains(keys[j]));
                assert(self@.contains_key(keys[j]));
            }
        }
        let mut i: usize = 0;
        while i < backtraces.len()
            invariant
                i <= backtraces.len(),
                f == f0,
                forall|j: int|
                    0 <= j < backtraces@.len() ==> call_requires(f0, (#[trigger] backtraces@[j],)),
                forall|j: int| 0 <= j < i ==> call_ensures(f0, (#[trigger] backtraces@[j],), ()),
            decreases backtraces.len() - i,
        {
            f(backtraces[i]);
            i += 1;
        }
        proof {
            assert forall|key: Key| #[trigger] self@.contains_key(key) implies (
            match self@[key].backtrace {
                Some(backtrace) => call_ensures(f0, (Some(&backtrace),), ()),
                None => call_ensures(f0, (None::<&Backtrace>,), ()),
            }) by {
                assert(keys.contains(key));
                let j = choose|j: int| 0 <= j < keys.len() && keys[j] == key;
                assert(call_ensures(f0, (backtraces@[j],), ()));
            }
        }
    }

    /// Creates an event and returns both its endpoints, connected by a shared reference to the pool.
    pub fn bind_by_ref(&mut self) -> (r: (
        PooledOnceSender<RefPool>,
        PooledOnceReceiver<RefPool>,
    ))
        requires
            old(self).wf(),
        ensures
            final(self).wf(),
            !old(self)@.contains_key(r.0.key()),
            r.1.key() == r.0.key(),
            r.1.is_live(),
            final(self)@ == old(self)@.insert(r.0.key(), PooledView::<T>::bound()),
            final(self).room() == if old(self).room() > old(self)@.dom().len() {
                old(self).room()
            } else {
                old(self).room() + 1
            },
    {
        let key = self.bind();
        (
            PooledOnceSender { pool_ref: RefPool, key },
            PooledOnceReceiver { live: true, pool_ref: RefPool, key },
        )
    }

    /// Creates an event and returns both its endpoints, connected by an `Arc` to the pool.
    pub fn bind_by_arc(&mut self) -> (r: (
        PooledOnceSender<ArcPool>,
        PooledOnceReceiver<ArcPool>,
    ))
        requires
            old(self).wf(),
        ensures
            final(self).wf(),
            !old(self)@.contains_key(r.0.key()),
            r.1.key() == r.0.key(),
            r.1.is_live(),
            final(self)@ == old(self)@.insert(r.0.key(), PooledView::<T>::bound()),
            final(self).room() == if old(self).room() > old(self)@.dom().len() {
                old(self).room()
            } else {
                old(self).room() + 1
            },
    {
        let key = self.bind();
        (
            PooledOnceSender { pool_ref: ArcPool, key },
            PooledOnceReceiver { live: true, pool_ref: ArcPool, key },
        )
    }

    /// Creates an event and returns both its endpoints, connected by a pointer to the pool.
    pub fn bind_by_ptr(&mut self) -> (r: (
        PooledOnceSender<PtrPool>,
        PooledOnceReceiver<PtrPool>,
    ))
        requires
            old(self).wf(),
        ensures
            final(self).wf(),
            !old(self)@.contains_key(r.0.key()),
            r.1.key() == r.0.key(),
            r.1.is_live(),
            final(self)@ == old(self)@.insert(r.0.key(), PooledView::<T>::bound()),
            final(self).room() == if old(self).room() > old(self)@.dom().len() {
                old(self).room()
            } else {
                old(self).room() + 1
            },
    {
        let key = self.bind();
        (
            PooledOnceSender { pool_ref: PtrPool, key },
            PooledOnceReceiver { live: true, pool_ref: PtrPool, key },
        )
    }
}

impl<T: Send> Default for OnceEventPool<T> {
    fn default() -> (r: Self)
        ensures
            r.wf(),
            r@ == Map::<Key, PooledView<T>>::empty(),
            r.room() == 0,
    {
        Self::new()
    }
}

/// The mechanism by which an endpoint is bound to the pool.
pub trait PoolRef {

}

/// A pool referenced via shared reference.
#[derive(Clone, Copy, Debug)]
pub struct RefPool;

impl PoolRef for RefPool {

}

/// A pool referenced via `Arc`.
#[derive(Clone, Copy, Debug)]
pub struct ArcPool;

impl PoolRef for ArcPool {

}

/// A pool referenced via pointer.
#[derive(Clone, Copy, Debug)]
pub struct PtrPool;

impl PoolRef for PtrPool {

}

/// A sender that can send a single value through an event in a pool.
///
/// The type parameter is the mechanism by which the endpoint is bound to the pool.
pub struct PooledOnceSender<P: PoolRef> {
    pool_ref: P,
    key: Key,
}

impl<P: PoolRef> PooledOnceSender<P> {
    /// The key of the event.
    pub closed spec fn key(self) -> Key {
        self.key
    }

    /// Sends a value through the event, in the pool that it was created in. Hands out the
    /// waker of the receiver if it is waiting. The event leaves the pool if the receiver has
    /// gone.
    pub fn send<T: Send>(self, pool: &mut OnceEventPool<T>, value: T) -> (r: Option<Waker>)
        requires
            old(pool).wf(),
            old(pool)@.contains_key(self.key()),
            old(pool)@[self.key()].event.sender,
        ensures
            final(pool).wf(),
            final(pool).room() == old(pool).room(),
            final(pool)@ == after_change(
                old(pool)@,
                self.key(),
                old(pool)@[self.key()].with_event(old(pool)@[self.key()].event.after_set(value)),
            ),
            r == old(pool)@[self.key()].event.waiting(),
    {
        pool.set_event(self.key, value)
    }

    /// Drops the sender without sending a value. Hands out the waker of the receiver if it is
    /// waiting. The event leaves the pool if the receiver has gone.
    pub fn drop_sender<T: Send>(self, pool: &mut OnceEventPool<T>) -> (r: Option<Waker>)
        requires
            old(pool).wf(),
            old(pool)@.contains_key(self.key()),
            old(pool)@[self.key()].event.sender,
        ensures
            final(pool).wf(),
            final(pool).room() == old(pool).room(),
            final(pool)@ == after_change(
                old(pool)@,
                self.key(),
                old(pool)@[self.key()].with_event(
                    old(pool)@[self.key()].event.after_sender_drop(),
                ),
            ),
            r == old(pool)@[self.key()].event.waiting(),
    {
        pool.disconnect_event(self.key)
    }
}

/// A receiver that can receive a single value through an event in a pool.
///
/// The type parameter is the mechanism by which the endpoint is bound to the pool.
pub struct PooledOnceReceiver<P: PoolRef> {
    live: bool,
    pool_ref: P,
    key: Key,
}

impl<P: PoolRef> PooledOnceReceiver<P> {
    /// The key of the event.
    pub closed spec fn key(self) -> Key {
        self.key
    }

    /// The receiver has not been told the outcome yet.
    pub closed spec fn is_live(self) -> bool {
        self.live
    }

    /// Polls for the outcome, on behalf of the task that `waker` wakes. With an outcome, the
    /// event leaves the pool.
    pub fn poll<T: Send>(&mut self, pool: &mut OnceEventPool<T>, waker: Waker) -> (r: Poll<
        Result<T, Disconnected>,
    >)
        requires
            old(self).is_live(),
            old(pool).wf(),
            old(pool)@.contains_key(old(self).key()),
            old(pool)@[old(self).key()].event.receiver,
        ensures
            final(pool).wf(),
            final(pool).room() == old(pool).room(),
            final(self).key() == old(self).key(),
            final(self).is_live() == (r is Pending),
            r == match old(pool)@[old(self).key()].event.poll_result() {
                Some(outcome) => Poll::Ready(outcome),
                None => Poll::Pending,
            },
            pool_polled(old(pool)@, old(self).key(), waker, final(pool)@),
    {
        match pool.poll_event(self.key, waker) {
            Some(outcome) => {
                self.live = false;
                Poll::Ready(outcome)
            },
            None => Poll::Pending,
        }
    }

    /// Consumes the receiver and transforms it into the received value, if the value is
    /// available. A receiver that has been told the outcome has nothing more to give.
    pub fn into_value<T: Send>(self, pool: &mut OnceEventPool<T>) -> (r: Option<T>)
        requires
            old(pool).wf(),
            self.is_live() ==> old(pool)@.contains_key(self.key()) && old(
                pool,
            )@[self.key()].event.receiver,
        ensures
            final(pool).wf(),
            final(pool).room() == old(pool).room(),
            !self.is_live() ==> r is None && final(pool)@ == old(pool)@,
            self.is_live() ==> r == match old(pool)@[self.key()].event.stage {
                Stage::Sent(value) => Some(value),
                _ => None,
            },
            self.is_live() ==> final(pool)@ == after_change(
                old(pool)@,
                self.key(),
                old(pool)@[self.key()].with_event(
                    old(pool)@[self.key()].event.after_final_poll(),
                ),
            ),
    {
        let mut receiver = self;
        receiver.drop_inner(pool)
    }

    /// Gives up the event unless the receiver has been told the outcome, and hands out the value
    /// if it is available.
    fn drop_inner<T: Send>(&mut self, pool: &mut OnceEventPool<T>) -> (r: Option<T>)
        requires
            old(pool).wf(),
            old(self).is_live() ==> old(pool)@.contains_key(old(self).key()) && old(
                pool,
            )@[old(self).key()].event.receiver,
        ensures
            final(pool).wf(),
            final(pool).room() == old(pool).room(),
            !final(self).is_live(),
            final(self).key() == old(self).key(),
            !old(self).is_live() ==> r is None && final(pool)@ == old(pool)@,
            old(self).is_live() ==> r == match old(pool)@[old(self).key()].event.stage {
                Stage::Sent(value) => Some(value),
                _ => None,
            },
            old(self).is_live() ==> final(pool)@ == after_change(
                old(pool)@,
                old(self).key(),
                old(pool)@[old(self).key()].with_event(
                    old(pool)@[old(self).key()].event.after_final_poll(),
                ),
            ),
    {
        if !self.live {
            return None;
        }
        self.live = false;
        pool.final_poll_event(self.key)
    }

    /// Drops the receiver. The event leaves the pool if the sender has gone.
    pub fn drop_receiver<T: Send>(self, pool: &mut OnceEventPool<T>)
        requires
            old(pool).wf(),
            self.is_live() ==> old(pool)@.contains_key(self.key()) && old(
                pool,
            )@[self.key()].event.receiver,
        ensures
            final(pool).wf(),
            final(pool).room() == old(pool).room(),
            !self.is_live() ==> final(pool)@ == old(pool)@,
            self.is_live() ==> final(pool)@ == after_change(
                old(pool)@,
                self.key(),
                old(pool)@[self.key()].with_event(
                    old(pool)@[self.key()].event.after_final_poll(),
                ),
            ),
    {
        let mut receiver = self;
        let _ = receiver.drop_inner(pool);
    }
}

/// An event leaves the pool with the last of its endpoints and not before, however they leave,
/// and the others stay as they are: the pool counts the events that still have an endpoint.
pub proof fn law_event_leaves_with_last_endpoint<T>(
    pool: Map<Key, PooledView<T>>,
    key: Key,
    value: T,
    waker: Waker,
    backtrace: Option<Backtrace>,
)
    requires
        pool.dom().finite(),
        pool.contains_key(key),
        pool[key].valid(),
    ensures
        pool[key].event.sender ==> {
            let sent = pool[key].with_event(pool[key].event.after_set(value));
            let gone = pool[key].with_event(pool[key].event.after_sender_drop());
            &&& after_change(pool, key, sent).contains_key(key) == pool[key].event.receiver
            &&& after_change(pool, key, gone).contains_key(key) == pool[key].event.receiver
            &&& pool[key].event.receiver ==> sent.valid() && gone.valid()
        },
        pool[key].event.receiver ==> {
            let looked = polled_item(pool[key], waker, backtrace);
            let gone = pool[key].with_event(pool[key].event.after_final_poll());
            &&& after_change(pool, key, looked).contains_key(key) == pool[key].event.sender
            &&& after_change(pool, key, gone).contains_key(key) == pool[key].event.sender
            &&& pool[key].event.sender ==> looked.valid() && gone.valid()
        },
        forall|item: PooledView<T>|
            (#[trigger] after_change(pool, key, item)).dom().len() == pool.dom().len()
                - if item.event.is_over() {
                1int
            } else {
                0
            },
        forall|item: PooledView<T>, other: Key|
            other != key ==> #[trigger] after_change(pool, key, item).contains_key(other)
                == pool.contains_key(other),
{
    assert forall|item: PooledView<T>|
        (#[trigger] after_change(pool, key, item)).dom().len() == pool.dom().len()
            - if item.event.is_over() {
            1int
        } else {
            0
        } by {
        if item.event.is_over() {
            assert(after_change(pool, key, item).dom() =~= pool.dom().remove(key));
        } else {
            assert(after_change(pool, key, item).dom() =~= pool.dom());
        }
    }
}

/// Creating an event adds it to those that the pool counts.
pub proof fn law_bound_event_is_counted<T>(pool: Map<Key, PooledView<T>>, key: Key)
    requires
        pool.dom().finite(),
        !pool.contains_key(key),
    ensures
        PooledView::<T>::bound().valid(),
        pool.insert(key, PooledView::<T>::bound()).dom().len() == pool.dom().len() + 1,
{
    assert(pool.insert(key, PooledView::<T>::bound()).dom() =~= pool.dom().insert(key));
}

/// A new event in a pool has both its endpoints, nothing sent and no awaiter.
pub proof fn law_new_event_is_fresh<T>()
    ensures
        PooledView::<T>::bound().event == OnceView::<T>::bound(),
        PooledView::<T>::bound().event.sender && PooledView::<T>::bound().event.receiver,
        PooledView::<T>::bound().event.poll_result() is None,
        PooledView::<T>::bound().backtrace is None,
{
}

/// What a sender does reaches the receiver of its own event and no other event: a value that is sent is
/// what that receiver is told when it looks, a sender that is dropped lets it know that nothing will
/// come, and if the receiver has gone the event leaves the pool.
pub proof fn law_sender_reaches_its_own_receiver<T>(
    pool: Map<Key, PooledView<T>>,
    key: Key,
    value: T,
)
    requires
        pool.contains_key(key),
        pool[key].valid(),
        pool[key].event.sender,
    ensures
        ({
            let post = after_change(
                pool,
                key,
                pool[key].with_event(pool[key].event.after_set(value)),
            );
            &&& post.contains_key(key) <==> pool[key].event.receiver
            &&& post.contains_key(key) ==> {
                &&& post[key].event.receiver && !post[key].event.sender
                &&& post[key].event.poll_result() == Some(Ok::<T, Disconnected>(value))
                &&& post[key].backtrace == pool[key].backtrace
            }
            &&& forall|other: Key|
                other != key ==> {
                    &&& post.contains_key(other) == #[trigger] pool.contains_key(other)
                    &&& pool.contains_key(other) ==> post[other] == pool[other]
                }
        }),
        ({
            let post = after_change(
                pool,
                key,
                pool[key].with_event(pool[key].event.after_sender_drop()),
            );
            &&& post.contains_key(key) <==> pool[key].event.receiver
            &&& post.contains_key(key) ==> {
                &&& post[key].event.receiver && !post[key].event.sender
                &&& post[key].event.poll_result() == Some(Err::<T, Disconnected>(Disconnected))
                &&& post[key].backtrace == pool[key].backtrace
            }
            &&& forall|other: Key|
                other != key ==> {
                    &&& post.contains_key(other) == #[trigger] pool.contains_key(other)
                    &&& pool.contains_key(other) ==> post[other] == pool[other]
                }
        }),
{
}

/// A receiver that looks leaves its backtrace at its own event and touches no other. While the sender
/// is there, it is told to wait and the event keeps its waker; with an outcome, the event leaves the
/// pool.
pub proof fn law_look_waits_or_takes_the_event_out<T>(
    pool: Map<Key, PooledView<T>>,
    key: Key,
    waker: Waker,
    post: Map<Key, PooledView<T>>,
)
    requires
        pool.contains_key(key),
        pool[key].valid(),
        pool[key].event.receiver,
        pool_polled(pool, key, waker, post),
    ensures
        pool[key].event.poll_result() is None <==> pool[key].event.sender,
        post.contains_key(key) <==> pool[key].event.sender,
        post.contains_key(key) ==> {
            &&& post[key].event.receiver && post[key].event.sender
            &&& post[key].event.waiting() == Some(waker)
            &&& post[key].backtrace is Some
        },
        forall|other: Key|
            other != key ==> {
                &&& post.contains_key(other) == #[trigger] pool.contains_key(other)
                &&& pool.contains_key(other) ==> post[other] == pool[other]
            },
{
}

/// A receiver that looks for the last time touches no other event. The event stays for its sender, who
/// then wakes no one and finds the receiver gone; if the sender has gone, the event leaves the pool.
pub proof fn law_last_look_leaves_the_event_to_the_sender<T>(
    pool: Map<Key, PooledView<T>>,
    key: Key,
)
    requires
        pool.contains_key(key),
        pool[key].valid(),
        pool[key].event.receiver,
    ensures
        ({
            let post = after_change(
                pool,
                key,
                pool[key].with_event(pool[key].event.after_final_poll()),
            );
            &&& post.contains_key(key) <==> pool[key].event.sender
            &&& post.contains_key(key) ==> {
                &&& post[key].event.sender && !post[key].event.receiver
                &&& post[key].event.waiting() is None
                &&& post[key].event.sender_result() is Err
                &&& post[key].backtrace == pool[key].backtrace
            }
            &&& forall|other: Key|
                other != key ==> {
                    &&& post.contains_key(other) == #[trigger] pool.contains_key(other)
                    &&& pool.contains_key(other) ==> post[other] == pool[other]
                }
        }),
{
}

/// What an inspection lists is one entry for each event in the pool and nothing else: the backtrace
/// recorded for that event, or `None` if it was never awaited. The keys can be put in the order of the
/// list.
pub proof fn law_listed_backtraces_are_those_recorded<T>(
    backtraces: Seq<Option<&Backtrace>>,
    pool: Map<Key, PooledView<T>>,
) -> (keys: Seq<Key>)
    requires
        lists_backtraces(backtraces, pool),
    ensures
        keys.len() == backtraces.len(),
        forall|i: int, j: int|
            0 <= i < j < keys.len() ==> #[trigger] keys[i] != #[trigger] keys[j],
        forall|i: int|
            0 <= i < keys.len() ==> {
                &&& pool.contains_key(#[trigger] keys[i])
                &&& (backtraces[i] is Some) == (pool[keys[i]].backtrace is Some)
                &&& backtraces[i] is Some ==> *(backtraces[i]->0) == pool[keys[i]].backtrace->0
            },
        forall|key: Key| #[trigger]
            pool.contains_key(key) ==> exists|i: int| 0 <= i < keys.len() && keys[i] == key,
{
    let keys = choose|keys: Seq<Key>|
        {
            &&& #[trigger] keys.no_duplicates()
            &&& forall|key: Key| keys.contains(key) <==> #[trigger] pool.contains_key(key)
            &&& backtraces.len() == keys.len()
            &&& forall|i: int|
                0 <= i < keys.len() ==> is_backtrace(
                    #[trigger] backtraces[i],
                    pool[keys[i]].backtrace,
                )
        };
    assert forall|i: int| 0 <= i < keys.len() implies {
        &&& pool.contains_key(#[trigger] keys[i])
        &&& (backtraces[i] is Some) == (pool[keys[i]].backtrace is Some)
        &&& backtraces[i] is Some ==> *(backtraces[i]->0) == pool[keys[i]].backtrace->0
    } by {
        assert(keys.contains(keys[i]));
        assert(is_backtrace(backtraces[i], pool[keys[i]].backtrace));
    }
    assert forall|key: Key| #[trigger] pool.contains_key(key) implies exists|i: int|
        0 <= i < keys.len() && keys[i] == key by {
        assert(keys.contains(key));
    }
    keys
}

/// A compact pool has an event in its last place, so that one without events keeps no place.
pub proof fn law_compact_pool_ends_with_an_event<T: Send>(pool: OnceEventPool<T>)
    requires
        pool.is_compact(),
    ensures
        pool.room() > 0 ==> exists|key: Key| #[trigger]
            pool@.contains_key(key) && pool.place(key) + 1 == pool.room(),
        pool@ == Map::<Key, PooledView<T>>::empty() ==> pool.room() == 0,
{
    if pool.room() > 0 {
        let key = choose|key: Key|
            pool@.contains_key(key) && #[trigger] pool.place(key) == pool.room() - 1;
        assert(pool@.contains_key(key) && pool.place(key) + 1 == pool.room());
    }
}

} // verus!

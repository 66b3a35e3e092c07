//! Pools of one-time events that count the references to each event.
//!
//! An event is created in the pool together with its endpoints, which hold a reference to it each,
//! and leaves the pool with the last reference. A sender that is dropped without sending says
//! nothing to the receiver.
use std::task::Waker;

use pinned_pool::Key;
use vstd::prelude::*;

use crate::disconnected::Disconnected;
use crate::once::pool_store::PoolStore;
use crate::once::ref_count::WithRefCount;
use crate::once::rules::OnceView;
use crate::once::sync::OnceEvent;
use crate::waiters::Poll;

verus! {

/// An event in a pool: its state, and how many references to it there are.
pub struct CountedView<T> {
    pub event: OnceView<T>,
    pub refs: usize,
}

impl<T> CountedView<T> {
    /// An event whose endpoints have done nothing yet.
    pub open spec fn bound() -> Self {
        CountedView { event: OnceView::bound(), refs: 2 }
    }

    /// The item with its event in another state.
    pub open spec fn with_event(self, event: OnceView<T>) -> Self {
        CountedView { event, ..self }
    }

    /// Each endpoint that is attached refers to the event, there is one, and none of them has
    /// disconnected the event.
    pub open spec fn valid(self) -> bool {
        &&& self.event.valid()
        &&& !(self.event.stage is Disconnected)
        &&& self.refs == self.event.attached()
        &&& self.refs > 0
    }
}

/// The events in a pool after a reference to the event under `key`, which is now `item`, was given
/// up: the event leaves with the last reference.
pub open spec fn after_deref<T>(
    pool: Map<Key, CountedView<T>>,
    key: Key,
    item: CountedView<T>,
) -> Map<Key, CountedView<T>> {
    if item.refs > 1 {
        pool.insert(key, CountedView { refs: (item.refs - 1) as usize, ..item })
    } else {
        pool.remove(key)
    }
}

/// The events in a pool after the receiver of the event under `key` looked, to be woken by `waker`:
/// with an outcome, it has also given up its reference.
pub open spec fn after_counted_poll<T>(
    pool: Map<Key, CountedView<T>>,
    key: Key,
    waker: Waker,
) -> Map<Key, CountedView<T>> {
    let item = pool[key].with_event(pool[key].event.after_poll(waker));
    if pool[key].event.poll_result() is Some {
        after_deref(pool, key, item)
    } else {
        pool.insert(key, item)
    }
}

/// A pool of one-time events that are cleaned up with the last reference to them.
pub struct EventPool<T: Send> {
    pool: PoolStore<WithRefCount<OnceEvent<T>>>,
}

closed spec fn item_view<T: Send>(item: WithRefCount<OnceEvent<T>>) -> CountedView<T> {
    CountedView { event: item.value()@, refs: item.count() }
}

impl<T: Send> View for EventPool<T> {
    type V = Map<Key, CountedView<T>>;

    closed spec fn view(&self) -> Map<Key, CountedView<T>> {
        self.pool@.map_values(|item: WithRefCount<OnceEvent<T>>| item_view(item))
    }
}

impl<T: Send> EventPool<T> {
    /// Every event in the pool is well-formed.
    closed spec fn inv(self) -> bool {
        &&& self.pool.wf()
        &&& forall|key: Key| #[trigger]
            self.pool@.contains_key(key) ==> self.pool@[key].value().wf()
    }

    /// Every event in the pool is well-formed and referred to by its endpoints.
    pub closed spec fn wf(self) -> bool {
        &&& self.inv()
        &&& forall|key: Key| #[trigger] self@.contains_key(key) ==> self@[key].valid()
    }

    /// In a well-formed pool, every event is referred to by its endpoints and none is
    /// disconnected.
    pub proof fn lemma_valid(&self, key: Key)
        requires
            self.wf(),
            self@.contains_key(key),
        ensures
            self@[key].valid(),
    {
    }

    /// How many places for events the pool keeps, filled or vacant.
    pub closed spec fn room(self) -> nat {
        self.pool.room()
    }

    /// Creates a new empty event pool.
    pub fn new() -> (r: Self)
        ensures
            r.wf(),
            r@ == Map::<Key, CountedView<T>>::empty(),
            r.room() == 0,
    {
        let r = EventPool { pool: PoolStore::new() };
        proof {
            assert(r@ =~= Map::<Key, CountedView<T>>::empty());
        }
        r
    }

    /// Adds an event that both its endpoints refer to.
    fn bind(&mut self) -> (r: Key)
        requires
            old(self).wf(),
        ensures
            final(self).wf(),
            !old(self)@.contains_key(r),
            final(self)@ == old(self)@.insert(r, CountedView::<T>::bound()),
            final(self).room() == if old(self).room() > old(self)@.dom().len() {
                old(self).room()
            } else {
                old(self).room() + 1
            },
    {
        let ghost pre = *self;
        proof {
            assert(self@.dom() =~= self.pool@.dom());
        }
        let mut item = WithRefCount::new(OnceEvent::new_bound());
        item.inc_ref();
        item.inc_ref();
        let key = self.pool.insert(item);
        proof {
            assert(self@ =~= pre@.insert(key, CountedView::<T>::bound()));
        }
        key
    }

    /// Gives up a reference to the event under `key`; with the last one, the event is removed.
    fn dec_ref_and_cleanup(&mut self, key: Key)
        requires
            old(self).inv(),
            old(self)@.contains_key(key),
        ensures
            final(self).inv(),
            final(self).room() == old(self).room(),
            final(self)@ == after_deref(old(self)@, key, old(self)@[key]),
    {
        let ghost pre = *self;
        let item = self.pool.get_mut(key);
        item.dec_ref();
        if !item.is_referenced() {
            self.pool.remove(key);
        }
        proof {
            assert(self@ =~= after_deref(pre@, key, pre@[key]));
        }
    }

    /// Sets the value of the event under `key` and gives up the sender's reference.
    fn send(&mut self, key: Key, value: T) -> (r: Option<Waker>)
        requires
            old(self).wf(),
            old(self)@.contains_key(key),
            old(self)@[key].event.sender,
        ensures
            final(self).wf(),
            final(self).room() == old(self).room(),
            final(self)@ == after_deref(
                old(self)@,
                key,
                old(self)@[key].with_event(old(self)@[key].event.after_set(value)),
            ),
            r == old(self)@[key].event.waiting(),
    {
        let ghost pre = *self;
        let ghost item = pre@[key].with_event(pre@[key].event.after_set(value));
        proof {
            pre.lemma_valid(key);
        }
        let (_, waker) = self.pool.get_mut(key).get_mut().set(value);
        proof {
            assert(self@ =~= pre@.insert(key, item));
        }
        self.dec_ref_and_cleanup(key);
        proof {
            assert(self@ =~= after_deref(pre@, key, item));
        }
        waker
    }

    /// Gives up the sender's reference to the event under `key`, as the sender leaves without a word.
    fn leave_sender(&mut self, key: Key)
        requires
            old(self).wf(),
            old(self)@.contains_key(key),
            old(self)@[key].event.sender,
        ensures
            final(self).wf(),
            final(self).room() == old(self).room(),
            final(self)@ == after_deref(
                old(self)@,
                key,
                old(self)@[key].with_event(old(self)@[key].event.after_sender_left()),
            ),
    {
        let ghost pre = *self;
        let ghost item = pre@[key].with_event(pre@[key].event.after_sender_left());
        proof {
            pre.lemma_valid(key);
        }
        self.pool.get_mut(key).get_mut().sender_left();
        proof {
            assert(self@ =~= pre@.insert(key, item));
        }
        self.dec_ref_and_cleanup(key);
        proof {
            assert(self@ =~= after_deref(pre@, key, item));
        }
    }

    /// Gives up the receiver's reference to the event under `key`, as the receiver leaves without a word.
    fn leave_receiver(&mut self, key: Key)
        requires
            old(self).wf(),
            old(self)@.contains_key(key),
            old(self)@[key].event.receiver,
        ensures
            final(self).wf(),
            final(self).room() == old(self).room(),
            final(self)@ == after_deref(
                old(self)@,
                key,
                old(self)@[key].with_event(old(self)@[key].event.after_receiver_left()),
            ),
    {
        let ghost pre = *self;
        let ghost item = pre@[key].with_event(pre@[key].event.after_receiver_left());
        proof {
            pre.lemma_valid(key);
        }
        self.pool.get_mut(key).get_mut().receiver_left();
        proof {
            assert(self@ =~= pre@.insert(key, item));
        }
        self.dec_ref_and_cleanup(key);
        proof {
            assert(self@ =~= after_deref(pre@, key, item));
        }
    }

    /// Polls the event under `key`, and with the value gives up the receiver's reference.
    fn poll(&mut self, key: Key, waker: Waker) -> (r: Option<T>)
        requires
            old(self).wf(),
            old(self)@.contains_key(key),
            old(self)@[key].event.receiver,
        ensures
            final(self).wf(),
            final(self).room() == old(self).room(),
            old(self)@[key].event.poll_result() == match r {
                Some(value) => Some(Ok::<T, Disconnected>(value)),
                None => None,
            },
            final(self)@ == after_counted_poll(old(self)@, key, waker),
    {
        let ghost pre = *self;
        let ghost item = pre@[key].with_event(pre@[key].event.after_poll(waker));
        proof {
            pre.lemma_valid(key);
        }
        let outcome = self.pool.get_mut(key).get_mut().poll(waker);
        proof {
            assert(self@ =~= pre@.insert(key, item));
        }
        match outcome {
            Some(Ok(value)) => {
                self.dec_ref_and_cleanup(key);
                proof {
                    assert(self@ =~= after_deref(pre@, key, item));
                }
                Some(value)
            },
            _ => None,
        }
    }

    /// Creates an event and returns both its endpoints, connected by a reference to the pool.
    pub fn by_ref(&mut self) -> (r: (ByRefPooledEventSender, ByRefPooledEventReceiver))
        requires
            old(self).wf(),
        ensures
            final(self).wf(),
            !old(self)@.contains_key(r.0.spec_key()),
            r.1.spec_key() == Some(r.0.spec_key()),
            final(self)@ == old(self)@.insert(r.0.spec_key(), CountedView::<T>::bound()),
            final(self).room() == if old(self).room() > old(self)@.dom().len() {
                old(self).room()
            } else {
                old(self).room() + 1
            },
    {
        let key = self.bind();
        (ByRefPooledEventSender { key }, ByRefPooledEventReceiver { key: Some(key) })
    }

    /// Creates an event and returns both its endpoints, connected by an `Rc` to the pool.
    pub fn by_rc(&mut self) -> (r: (ByRcPooledEventSender, ByRcPooledEventReceiver))
        requires
            old(self).wf(),
        ensures
            final(self).wf(),
            !old(self)@.contains_key(r.0.spec_key()),
            r.1.spec_key() == Some(r.0.spec_key()),
            final(self)@ == old(self)@.insert(r.0.spec_key(), CountedView::<T>::bound()),
            final(self).room() == if old(self).room() > old(self)@.dom().len() {
                old(self).room()
            } else {
                old(self).room() + 1
            },
    {
        let key = self.bind();
        (ByRcPooledEventSender { key }, ByRcPooledEventReceiver { key: Some(key) })
    }

    /// Creates an event and returns both its endpoints, connected by an `Arc` to the pool.
    pub fn by_arc(&mut self) -> (r: (ByArcPooledEventSender, ByArcPooledEventReceiver))
        requires
            old(self).wf(),
        ensures
            final(self).wf(),
            !old(self)@.contains_key(r.0.spec_key()),
            r.1.spec_key() == Some(r.0.spec_key()),
            final(self)@ == old(self)@.insert(r.0.spec_key(), CountedView::<T>::bound()),
            final(self).room() == if old(self).room() > old(self)@.dom().len() {
                old(self).room()
            } else {
                old(self).room() + 1
            },
    {
        let key = self.bind();
        (ByArcPooledEventSender { key }, ByArcPooledEventReceiver { key: Some(key) })
    }

    /// Creates an event and returns both its endpoints, connected by a pointer to the pool.
    pub fn by_ptr(&mut self) -> (r: (ByPtrPooledEventSender, ByPtrPooledEventReceiver))
        requires
            old(self).wf(),
        ensures
            final(self).wf(),
            !old(self)@.contains_key(r.0.spec_key()),
            r.1.spec_key() == Some(r.0.spec_key()),
            final(self)@ == old(self)@.insert(r.0.spec_key(), CountedView::<T>::bound()),
            final(self).room() == if old(self).room() > old(self)@.dom().len() {
                old(self).room()
            } else {
                old(self).room() + 1
            },
    {
        let key = self.bind();
        (ByPtrPooledEventSender { key }, ByPtrPooledEventReceiver { key: Some(key) })
    }

    /// Creates an event and returns both its endpoints, connected by a reference to the pool.
    pub fn bind_by_ref(&mut self) -> (r: (ByRefPooledOnceSender, ByRefPooledOnceReceiver))
        requires
            old(self).wf(),
        ensures
            final(self).wf(),
            !old(self)@.contains_key(r.0.spec_key()),
            r.1.spec_key() == Some(r.0.spec_key()),
            final(self)@ == old(self)@.insert(r.0.spec_key(), CountedView::<T>::bound()),
            final(self).room() == if old(self).room() > old(self)@.dom().len() {
                old(self).room()
            } else {
                old(self).room() + 1
            },
    {
        let key = self.bind();
        (ByRefPooledOnceSender { key }, ByRefPooledOnceReceiver { key: Some(key) })
    }

    /// Creates an event and returns both its endpoints, connected by an `Rc` to the pool.
    pub fn bind_by_rc(&mut self) -> (r: (ByRcPooledOnceSender, ByRcPooledOnceReceiver))
        requires
            old(self).wf(),
        ensures
            final(self).wf(),
            !old(self)@.contains_key(r.0.spec_key()),
            r.1.spec_key() == Some(r.0.spec_key()),
            final(self)@ == old(self)@.insert(r.0.spec_key(), CountedView::<T>::bound()),
            final(self).room() == if old(self).room() > old(self)@.dom().len() {
                old(self).room()
            } else {
                old(self).room() + 1
            },
    {
        let key = self.bind();
        (ByRcPooledOnceSender { key }, ByRcPooledOnceReceiver { key: Some(key) })
    }
}

impl<T: Send> Default for EventPool<T> {
    fn default() -> (r: Self)
        ensures
            r.wf(),
            r@ == Map::<Key, CountedView<T>>::empty(),
            r.room() == 0,
    {
        Self::new()
    }
}

/// A sender that can send a value through an event in a pool that it knows by a reference.
pub struct ByRefPooledEventSender {
    key: Key,
}

impl ByRefPooledEventSender {
    /// The key of the event.
    pub closed spec fn spec_key(self) -> Key {
        self.key
    }

    /// Sends a value through the event, in the pool that it was created in. Hands out the waker
    /// of the receiver if it is waiting.
    pub fn send<T: Send>(self, pool: &mut EventPool<T>, value: T) -> (r: Option<Waker>)
        requires
            old(pool).wf(),
            old(pool)@.contains_key(self.spec_key()),
            old(pool)@[self.spec_key()].event.sender,
        ensures
            final(pool).wf(),
            final(pool).room() == old(pool).room(),
            final(pool)@ == after_deref(
                old(pool)@,
                self.spec_key(),
                old(pool)@[self.spec_key()].with_event(
                    old(pool)@[self.spec_key()].event.after_set(value),
                ),
            ),
            r == old(pool)@[self.spec_key()].event.waiting(),
    {
        pool.send(self.key, value)
    }

    /// Drops the sender without sending a value: its reference to the event is given up.
    pub fn drop_sender<T: Send>(self, pool: &mut EventPool<T>)
        requires
            old(pool).wf(),
            old(pool)@.contains_key(self.spec_key()),
            old(pool)@[self.spec_key()].event.sender,
        ensures
            final(pool).wf(),
            final(pool).room() == old(pool).room(),
            final(pool)@ == after_deref(
                old(pool)@,
                self.spec_key(),
                old(pool)@[self.spec_key()].with_event(
                    old(pool)@[self.spec_key()].event.after_sender_left(),
                ),
            ),
    {
        pool.leave_sender(self.key);
    }
}

/// A receiver that can receive a value from an event in a pool that it knows by a reference.
pub struct ByRefPooledEventReceiver {
    key: Option<Key>,
}

impl ByRefPooledEventReceiver {
    /// The key of the event, until the value has been received.
    pub closed spec fn spec_key(self) -> Option<Key> {
        self.key
    }

    /// Polls for the value, on behalf of the task that `waker` wakes. With the value, the
    /// reference to the event is given up.
    pub fn poll<T: Send>(&mut self, pool: &mut EventPool<T>, waker: Waker) -> (r: Poll<T>)
        requires
            old(self).spec_key() is Some,
            old(pool).wf(),
            old(pool)@.contains_key(old(self).spec_key()->0),
            old(pool)@[old(self).spec_key()->0].event.receiver,
        ensures
            final(pool).wf(),
            final(pool).room() == old(pool).room(),
            old(pool)@[old(self).spec_key()->0].event.poll_result() == match r {
                Poll::Ready(value) => Some(Ok::<T, Disconnected>(value)),
                Poll::Pending => None,
            },
            final(pool)@ == after_counted_poll(old(pool)@, old(self).spec_key()->0, waker),
            final(self).spec_key() == if r is Ready {
                None
            } else {
                old(self).spec_key()
            },
    {
        match self.key {
            Some(key) => match pool.poll(key, waker) {
                Some(value) => {
                    self.key = None;
                    Poll::Ready(value)
                },
                None => Poll::Pending,
            },
            None => vstd::pervasive::unreached(),
        }
    }

    /// Drops the receiver: unless the value has been received, its reference to the event is
    /// given up.
    pub fn drop_receiver<T: Send>(self, pool: &mut EventPool<T>)
        requires
            old(pool).wf(),
            self.spec_key() is Some ==> old(pool)@.contains_key(self.spec_key()->0) && old(
                pool,
            )@[self.spec_key()->0].event.receiver,
        ensures
            final(pool).wf(),
            final(pool).room() == old(pool).room(),
            final(pool)@ == match self.spec_key() {
                Some(key) => after_deref(
                    old(pool)@,
                    key,
                    old(pool)@[key].with_event(old(pool)@[key].event.after_receiver_left()),
                ),
                None => old(pool)@,
            },
    {
        match self.key {
            Some(key) => pool.leave_receiver(key),
            None => {},
        }
    }
}

/// A sender that can send a value through an event in a pool that it knows by an `Rc`.
pub struct ByRcPooledEventSender {
    key: Key,
}

impl ByRcPooledEventSender {
    /// The key of the event.
    pub closed spec fn spec_key(self) -> Key {
        self.key
    }

    /// Sends a value through the event, in the pool that it was created in. Hands out the waker
    /// of the receiver if it is waiting.
    pub fn send<T: Send>(self, pool: &mut EventPool<T>, value: T) -> (r: Option<Waker>)
        requires
            old(pool).wf(),
            old(pool)@.contains_key(self.spec_key()),
            old(pool)@[self.spec_key()].event.sender,
        ensures
            final(pool).wf(),
            final(pool).room() == old(pool).room(),
            final(pool)@ == after_deref(
                old(pool)@,
                self.spec_key(),
                old(pool)@[self.spec_key()].with_event(
                    old(pool)@[self.spec_key()].event.after_set(value),
                ),
            ),
            r == old(pool)@[self.spec_key()].event.waiting(),
    {
        pool.send(self.key, value)
    }

    /// Drops the sender without sending a value: its reference to the event is given up.
    pub fn drop_sender<T: Send>(self, pool: &mut EventPool<T>)
        requires
            old(pool).wf(),
            old(pool)@.contains_key(self.spec_key()),
            old(pool)@[self.spec_key()].event.sender,
        ensures
            final(pool).wf(),
            final(pool).room() == old(pool).room(),
            final(pool)@ == after_deref(
                old(pool)@,
                self.spec_key(),
                old(pool)@[self.spec_key()].with_event(
                    old(pool)@[self.spec_key()].event.after_sender_left(),
                ),
            ),
    {
        pool.leave_sender(self.key);
    }
}

/// A receiver that can receive a value from an event in a pool that it knows by an `Rc`.
pub struct ByRcPooledEventReceiver {
    key: Option<Key>,
}

impl ByRcPooledEventReceiver {
    /// The key of the event, until the value has been received.
    pub closed spec fn spec_key(self) -> Option<Key> {
        self.key
    }

    /// Polls for the value, on behalf of the task that `waker` wakes. With the value, the
    /// reference to the event is given up.
    pub fn poll<T: Send>(&mut self, pool: &mut EventPool<T>, waker: Waker) -> (r: Poll<T>)
        requires
            old(self).spec_key() is Some,
            old(pool).wf(),
            old(pool)@.contains_key(old(self).spec_key()->0),
            old(pool)@[old(self).spec_key()->0].event.receiver,
        ensures
            final(pool).wf(),
            final(pool).room() == old(pool).room(),
            old(pool)@[old(self).spec_key()->0].event.poll_result() == match r {
                Poll::Ready(value) => Some(Ok::<T, Disconnected>(value)),
                Poll::Pending => None,
            },
            final(pool)@ == after_counted_poll(old(pool)@, old(self).spec_key()->0, waker),
            final(self).spec_key() == if r is Ready {
                None
            } else {
                old(self).spec_key()
            },
    {
        match self.key {
            Some(key) => match pool.poll(key, waker) {
                Some(value) => {
                    self.key = None;
                    Poll::Ready(value)
                },
                None => Poll::Pending,
            },
            None => vstd::pervasive::unreached(),
        }
    }

    /// Drops the receiver: unless the value has been received, its reference to the event is
    /// given up.
    pub fn drop_receiver<T: Send>(self, pool: &mut EventPool<T>)
        requires
            old(pool).wf(),
            self.spec_key() is Some ==> old(pool)@.contains_key(self.spec_key()->0) && old(
                pool,
            )@[self.spec_key()->0].event.receiver,
        ensures
            final(pool).wf(),
            final(pool).room() == old(pool).room(),
            final(pool)@ == match self.spec_key() {
                Some(key) => after_deref(
                    old(pool)@,
                    key,
                    old(pool)@[key].with_event(old(pool)@[key].event.after_receiver_left()),
                ),
                None => old(pool)@,
            },
    {
        match self.key {
            Some(key) => pool.leave_receiver(key),
            None => {},
        }
    }
}

/// A sender that can send a value through an event in a pool that it knows by an `Arc`.
pub struct ByArcPooledEventSender {
    key: Key,
}

impl ByArcPooledEventSender {
    /// The key of the event.
    pub closed spec fn spec_key(self) -> Key {
        self.key
    }

    /// Sends a value through the event, in the pool that it was created in. Hands out the waker
    /// of the receiver if it is waiting.
    pub fn send<T: Send>(self, pool: &mut EventPool<T>, value: T) -> (r: Option<Waker>)
        requires
            old(pool).wf(),
            old(pool)@.contains_key(self.spec_key()),
            old(pool)@[self.spec_key()].event.sender,
        ensures
            final(pool).wf(),
            final(pool).room() == old(pool).room(),
            final(pool)@ == after_deref(
                old(pool)@,
                self.spec_key(),
                old(pool)@[self.spec_key()].with_event(
                    old(pool)@[self.spec_key()].event.after_set(value),
                ),
            ),
            r == old(pool)@[self.spec_key()].event.waiting(),
    {
        pool.send(self.key, value)
    }

    /// Drops the sender without sending a value: its reference to the event is given up.
    pub fn drop_sender<T: Send>(self, pool: &mut EventPool<T>)
        requires
            old(pool).wf(),
            old(pool)@.contains_key(self.spec_key()),
            old(pool)@[self.spec_key()].event.sender,
        ensures
            final(pool).wf(),
            final(pool).room() == old(pool).room(),
            final(pool)@ == after_deref(
                old(pool)@,
                self.spec_key(),
                old(pool)@[self.spec_key()].with_event(
                    old(pool)@[self.spec_key()].event.after_sender_left(),
                ),
            ),
    {
        pool.leave_sender(self.key);
    }
}

/// A receiver that can receive a value from an event in a pool that it knows by an `Arc`.
pub struct ByArcPooledEventReceiver {
    key: Option<Key>,
}

impl ByArcPooledEventReceiver {
    /// The key of the event, until the value has been received.
    pub closed spec fn spec_key(self) -> Option<Key> {
        self.key
    }

    /// Polls for the value, on behalf of the task that `waker` wakes. With the value, the
    /// reference to the event is given up.
    pub fn poll<T: Send>(&mut self, pool: &mut EventPool<T>, waker: Waker) -> (r: Poll<T>)
        requires
            old(self).spec_key() is Some,
            old(pool).wf(),
            old(pool)@.contains_key(old(self).spec_key()->0),
            old(pool)@[old(self).spec_key()->0].event.receiver,
        ensures
            final(pool).wf(),
            final(pool).room() == old(pool).room(),
            old(pool)@[old(self).spec_key()->0].event.poll_result() == match r {
                Poll::Ready(value) => Some(Ok::<T, Disconnected>(value)),
                Poll::Pending => None,
            },
            final(pool)@ == after_counted_poll(old(pool)@, old(self).spec_key()->0, waker),
            final(self).spec_key() == if r is Ready {
                None
            } else {
                old(self).spec_key()
            },
    {
        match self.key {
            Some(key) => match pool.poll(key, waker) {
                Some(value) => {
                    self.key = None;
                    Poll::Ready(value)
                },
                None => Poll::Pending,
            },
            None => vstd::pervasive::unreached(),
        }
    }

    /// Drops the receiver: unless the value has been received, its reference to the event is
    /// given up.
    pub fn drop_receiver<T: Send>(self, pool: &mut EventPool<T>)
        requires
            old(pool).wf(),
            self.spec_key() is Some ==> old(pool)@.contains_key(self.spec_key()->0) && old(
                pool,
            )@[self.spec_key()->0].event.receiver,
        ensures
            final(pool).wf(),
            final(pool).room() == old(pool).room(),
            final(pool)@ == match self.spec_key() {
                Some(key) => after_deref(
                    old(pool)@,
                    key,
                    old(pool)@[key].with_event(old(pool)@[key].event.after_receiver_left()),
                ),
                None => old(pool)@,
            },
    {
        match self.key {
            Some(key) => pool.leave_receiver(key),
            None => {},
        }
    }
}

/// A sender that can send a value through an event in a pool that it knows by a pointer.
pub struct ByPtrPooledEventSender {
    key: Key,
}

impl ByPtrPooledEventSender {
    /// The key of the event.
    pub closed spec fn spec_key(self) -> Key {
        self.key
    }

    /// Sends a value through the event, in the pool that it was created in. Hands out the waker
    /// of the receiver if it is waiting.
    pub fn send<T: Send>(self, pool: &mut EventPool<T>, value: T) -> (r: Option<Waker>)
        requires
            old(pool).wf(),
            old(pool)@.contains_key(self.spec_key()),
            old(pool)@[self.spec_key()].event.sender,
        ensures
            final(pool).wf(),
            final(pool).room() == old(pool).room(),
            final(pool)@ == after_deref(
                old(pool)@,
                self.spec_key(),
                old(pool)@[self.spec_key()].with_event(
                    old(pool)@[self.spec_key()].event.after_set(value),
                ),
            ),
            r == old(pool)@[self.spec_key()].event.waiting(),
    {
        pool.send(self.key, value)
    }

    /// Drops the sender without sending a value: its reference to the event is given up.
    pub fn drop_sender<T: Send>(self, pool: &mut EventPool<T>)
        requires
            old(pool).wf(),
            old(pool)@.contains_key(self.spec_key()),
            old(pool)@[self.spec_key()].event.sender,
        ensures
            final(pool).wf(),
            final(pool).room() == old(pool).room(),
            final(pool)@ == after_deref(
                old(pool)@,
                self.spec_key(),
                old(pool)@[self.spec_key()].with_event(
                    old(pool)@[self.spec_key()].event.after_sender_left(),
                ),
            ),
    {
        pool.leave_sender(self.key);
    }
}

/// A receiver that can receive a value from an event in a pool that it knows by a pointer.
pub struct ByPtrPooledEventReceiver {
    key: Option<Key>,
}

impl ByPtrPooledEventReceiver {
    /// The key of the event, until the value has been received.
    pub closed spec fn spec_key(self) -> Option<Key> {
        self.key
    }

    /// Polls for the value, on behalf of the task that `waker` wakes. With the value, the
    /// reference to the event is given up.
    pub fn poll<T: Send>(&mut self, pool: &mut EventPool<T>, waker: Waker) -> (r: Poll<T>)
        requires
            old(self).spec_key() is Some,
            old(pool).wf(),
            old(pool)@.contains_key(old(self).spec_key()->0),
            old(pool)@[old(self).spec_key()->0].event.receiver,
        ensures
            final(pool).wf(),
            final(pool).room() == old(pool).room(),
            old(pool)@[old(self).spec_key()->0].event.poll_result() == match r {
                Poll::Ready(value) => Some(Ok::<T, Disconnected>(value)),
                Poll::Pending => None,
            },
            final(pool)@ == after_counted_poll(old(pool)@, old(self).spec_key()->0, waker),
            final(self).spec_key() == if r is Ready {
                None
            } else {
                old(self).spec_key()
            },
    {
        match self.key {
            Some(key) => match pool.poll(key, waker) {
                Some(value) => {
                    self.key = None;
                    Poll::Ready(value)
                },
                None => Poll::Pending,
            },
            None => vstd::pervasive::unreached(),
        }
    }

    /// Drops the receiver: unless the value has been received, its reference to the event is
    /// given up.
    pub fn drop_receiver<T: Send>(self, pool: &mut EventPool<T>)
        requires
            old(pool).wf(),
            self.spec_key() is Some ==> old(pool)@.contains_key(self.spec_key()->0) && old(
                pool,
            )@[self.spec_key()->0].event.receiver,
        ensures
            final(pool).wf(),
            final(pool).room() == old(pool).room(),
            final(pool)@ == match self.spec_key() {
                Some(key) => after_deref(
                    old(pool)@,
                    key,
                    old(pool)@[key].with_event(old(pool)@[key].event.after_receiver_left()),
                ),
                None => old(pool)@,
            },
    {
        match self.key {
            Some(key) => pool.leave_receiver(key),
            None => {},
        }
    }
}

/// A sender that can send a value through an event in a pool that it knows by a reference. The
/// receiver gets the value as a `Result`.
pub struct ByRefPooledOnceSender {
    key: Key,
}

impl ByRefPooledOnceSender {
    /// The key of the event.
    pub closed spec fn spec_key(self) -> Key {
        self.key
    }

    /// Returns the key of the event in the pool.
    pub fn key(&self) -> (r: Key)
        ensures
            r == self.spec_key(),
    {
        self.key
    }

    /// Sends a value through the event, in the pool that it was created in. Hands out the waker
    /// of the receiver if it is waiting.
    pub fn send<T: Send>(self, pool: &mut EventPool<T>, value: T) -> (r: Option<Waker>)
        requires
            old(pool).wf(),
            old(pool)@.contains_key(self.spec_key()),
            old(pool)@[self.spec_key()].event.sender,
        ensures
            final(pool).wf(),
            final(pool).room() == old(pool).room(),
            final(pool)@ == after_deref(
                old(pool)@,
                self.spec_key(),
                old(pool)@[self.spec_key()].with_event(
                    old(pool)@[self.spec_key()].event.after_set(value),
                ),
            ),
            r == old(pool)@[self.spec_key()].event.waiting(),
    {
        pool.send(self.key, value)
    }

    /// Drops the sender without sending a value: its reference to the event is given up.
    pub fn drop_sender<T: Send>(self, pool: &mut EventPool<T>)
        requires
            old(pool).wf(),
            old(pool)@.contains_key(self.spec_key()),
            old(pool)@[self.spec_key()].event.sender,
        ensures
            final(pool).wf(),
            final(pool).room() == old(pool).room(),
            final(pool)@ == after_deref(
                old(pool)@,
                self.spec_key(),
                old(pool)@[self.spec_key()].with_event(
                    old(pool)@[self.spec_key()].event.after_sender_left(),
                ),
            ),
    {
        pool.leave_sender(self.key);
    }
}

/// A receiver that can receive a value from an event in a pool that it knows by a reference.
pub struct ByRefPooledOnceReceiver {
    key: Option<Key>,
}

impl ByRefPooledOnceReceiver {
    /// The key of the event, until the value has been received.
    pub closed spec fn spec_key(self) -> Option<Key> {
        self.key
    }

    /// Polls for the value, on behalf of the task that `waker` wakes. With the value, the
    /// reference to the event is given up.
    pub fn poll<T: Send>(&mut self, pool: &mut EventPool<T>, waker: Waker) -> (r: Poll<Result<T, Disconnected>>)
        requires
            old(self).spec_key() is Some,
            old(pool).wf(),
            old(pool)@.contains_key(old(self).spec_key()->0),
            old(pool)@[old(self).spec_key()->0].event.receiver,
        ensures
            final(pool).wf(),
            final(pool).room() == old(pool).room(),
            old(pool)@[old(self).spec_key()->0].event.poll_result() == match r {
                Poll::Ready(value) => Some(value),
                Poll::Pending => None,
            },
            final(pool)@ == after_counted_poll(old(pool)@, old(self).spec_key()->0, waker),
            final(self).spec_key() == if r is Ready {
                None
            } else {
                old(self).spec_key()
            },
    {
        match self.key {
            Some(key) => match pool.poll(key, waker) {
                Some(value) => {
                    self.key = None;
                    Poll::Ready(Ok(value))
                },
                None => Poll::Pending,
            },
            None => vstd::pervasive::unreached(),
        }
    }

    /// Drops the receiver: unless the value has been received, its reference to the event is
    /// given up.
    pub fn drop_receiver<T: Send>(self, pool: &mut EventPool<T>)
        requires
            old(pool).wf(),
            self.spec_key() is Some ==> old(pool)@.contains_key(self.spec_key()->0) && old(
                pool,
            )@[self.spec_key()->0].event.receiver,
        ensures
            final(pool).wf(),
            final(pool).room() == old(pool).room(),
            final(pool)@ == match self.spec_key() {
                Some(key) => after_deref(
                    old(pool)@,
                    key,
                    old(pool)@[key].with_event(old(pool)@[key].event.after_receiver_left()),
                ),
                None => old(pool)@,
            },
    {
        match self.key {
            Some(key) => pool.leave_receiver(key),
            None => {},
        }
    }
}

/// A sender that can send a value through an event in a pool that it knows by an `Rc`. The
/// receiver gets the value as a `Result`.
pub struct ByRcPooledOnceSender {
    key: Key,
}

impl ByRcPooledOnceSender {
    /// The key of the event.
    pub closed spec fn spec_key(self) -> Key {
        self.key
    }

    /// Sends a value through the event, in the pool that it was created in. Hands out the waker
    /// of the receiver if it is waiting.
    pub fn send<T: Send>(self, pool: &mut EventPool<T>, value: T) -> (r: Option<Waker>)
        requires
            old(pool).wf(),
            old(pool)@.contains_key(self.spec_key()),
            old(pool)@[self.spec_key()].event.sender,
        ensures
            final(pool).wf(),
            final(pool).room() == old(pool).room(),
            final(pool)@ == after_deref(
                old(pool)@,
                self.spec_key(),
                old(pool)@[self.spec_key()].with_event(
                    old(pool)@[self.spec_key()].event.after_set(value),
                ),
            ),
            r == old(pool)@[self.spec_key()].event.waiting(),
    {
        pool.send(self.key, value)
    }

    /// Drops the sender without sending a value: its reference to the event is given up.
    pub fn drop_sender<T: Send>(self, pool: &mut EventPool<T>)
        requires
            old(pool).wf(),
            old(pool)@.contains_key(self.spec_key()),
            old(pool)@[self.spec_key()].event.sender,
        ensures
            final(pool).wf(),
            final(pool).room() == old(pool).room(),
            final(pool)@ == after_deref(
                old(pool)@,
                self.spec_key(),
                old(pool)@[self.spec_key()].with_event(
                    old(pool)@[self.spec_key()].event.after_sender_left(),
                ),
            ),
    {
        pool.leave_sender(self.key);
    }
}

/// A receiver that can receive a value from an event in a pool that it knows by an `Rc`.
pub struct ByRcPooledOnceReceiver {
    key: Option<Key>,
}

impl ByRcPooledOnceReceiver {
    /// The key of the event, until the value has been received.
    pub closed spec fn spec_key(self) -> Option<Key> {
        self.key
    }

    /// Polls for the value, on behalf of the task that `waker` wakes. With the value, the
    /// reference to the event is given up.
    pub fn poll<T: Send>(&mut self, pool: &mut EventPool<T>, waker: Waker) -> (r: Poll<Result<T, Disconnected>>)
        requires
            old(self).spec_key() is Some,
            old(pool).wf(),
            old(pool)@.contains_key(old(self).spec_key()->0),
            old(pool)@[old(self).spec_key()->0].event.receiver,
        ensures
            final(pool).wf(),
            final(pool).room() == old(pool).room(),
            old(pool)@[old(self).spec_key()->0].event.poll_result() == match r {
                Poll::Ready(value) => Some(value),
                Poll::Pending => None,
            },
            final(pool)@ == after_counted_poll(old(pool)@, old(self).spec_key()->0, waker),
            final(self).spec_key() == if r is Ready {
                None
            } else {
                old(self).spec_key()
            },
    {
        match self.key {
            Some(key) => match pool.poll(key, waker) {
                Some(value) => {
                    self.key = None;
                    Poll::Ready(Ok(value))
                },
                None => Poll::Pending,
            },
            None => vstd::pervasive::unreached(),
        }
    }

    /// Drops the receiver: unless the value has been received, its reference to the event is
    /// given up.
    pub fn drop_receiver<T: Send>(self, pool: &mut EventPool<T>)
        requires
            old(pool).wf(),
            self.spec_key() is Some ==> old(pool)@.contains_key(self.spec_key()->0) && old(
                pool,
            )@[self.spec_key()->0].event.receiver,
        ensures
            final(pool).wf(),
            final(pool).room() == old(pool).room(),
            final(pool)@ == match self.spec_key() {
                Some(key) => after_deref(
                    old(pool)@,
                    key,
                    old(pool)@[key].with_event(old(pool)@[key].event.after_receiver_left()),
                ),
                None => old(pool)@,
            },
    {
        match self.key {
            Some(key) => pool.leave_receiver(key),
            None => {},
        }
    }
}

/// An event leaves the pool with the last reference to it and not before, and the others stay as
/// they are.
pub proof fn law_event_leaves_with_last_reference<T>(
    pool: Map<Key, CountedView<T>>,
    key: Key,
    item: CountedView<T>,
)
    requires
        pool.contains_key(key),
        item.refs > 0,
    ensures
        after_deref(pool, key, item).contains_key(key) == (item.refs > 1),
        item.refs > 1 ==> after_deref(pool, key, item)[key].refs == item.refs - 1,
        forall|other: Key|
            other != key ==> {
                &&& after_deref(pool, key, item).contains_key(other)
                    == #[trigger] pool.contains_key(other)
                &&& pool.contains_key(other) ==> after_deref(pool, key, item)[other]
                    == pool[other]
            },
{
}

/// A new event in a pool has both its endpoints, which refer to it, and nothing sent.
pub proof fn law_new_event_is_fresh<T>()
    ensures
        CountedView::<T>::bound().event == OnceView::<T>::bound(),
        CountedView::<T>::bound().event.sender && CountedView::<T>::bound().event.receiver,
        CountedView::<T>::bound().event.poll_result() is None,
        CountedView::<T>::bound().refs == 2,
{
}

/// What a sender does reaches the receiver of its own event and no other event: a value that is sent is
/// what that receiver is told when it looks, and a sender that is dropped leaves it waiting. If the
/// receiver has gone, the event leaves the pool.
pub proof fn law_sender_reaches_its_own_receiver<T>(
    pool: Map<Key, CountedView<T>>,
    key: Key,
    value: T,
)
    requires
        pool.contains_key(key),
        pool[key].valid(),
        pool[key].event.sender,
    ensures
        ({
            let post = after_deref(
                pool,
                key,
                pool[key].with_event(pool[key].event.after_set(value)),
            );
            &&& post.contains_key(key) <==> pool[key].event.receiver
            &&& post.contains_key(key) ==> {
                &&& post[key].event.receiver && !post[key].event.sender && post[key].refs == 1
                &&& post[key].event.poll_result() == Some(Ok::<T, Disconnected>(value))
            }
            &&& forall|other: Key|
                other != key ==> {
                    &&& post.contains_key(other) == #[trigger] pool.contains_key(other)
                    &&& pool.contains_key(other) ==> post[other] == pool[other]
                }
        }),
        ({
            let post = after_deref(
                pool,
                key,
                pool[key].with_event(pool[key].event.after_sender_left()),
            );
            &&& post.contains_key(key) <==> pool[key].event.receiver
            &&& post.contains_key(key) ==> {
                &&& post[key].event.receiver && !post[key].event.sender && post[key].refs == 1
                &&& post[key].event.poll_result() is None
            }
            &&& forall|other: Key|
                other != key ==> {
                    &&& post.contains_key(other) == #[trigger] pool.contains_key(other)
                    &&& pool.contains_key(other) ==> post[other] == pool[other]
                }
        }),
{
}

/// A receiver that looks touches no other event. Told to wait, it keeps its reference to the event,
/// which keeps its waker; with the value, the event leaves the pool, as its sender has gone. One that is
/// dropped leaves the event to its sender, or takes it out of the pool if the sender has gone.
pub proof fn law_receiver_waits_or_gives_the_event_up<T>(
    pool: Map<Key, CountedView<T>>,
    key: Key,
    waker: Waker,
)
    requires
        pool.contains_key(key),
        pool[key].valid(),
        pool[key].event.receiver,
    ensures
        pool[key].event.sender ==> pool[key].event.poll_result() is None,
        pool[key].event.poll_result() != Some(Err::<T, Disconnected>(Disconnected)),
        ({
            let post = after_counted_poll(pool, key, waker);
            &&& post.contains_key(key) <==> pool[key].event.poll_result() is None
            &&& post.contains_key(key) ==> {
                &&& post[key].event.receiver
                &&& post[key].event.sender == pool[key].event.sender
                &&& post[key].refs == pool[key].refs
                &&& post[key].event.waiting() == Some(waker)
            }
            &&& forall|other: Key|
                other != key ==> {
                    &&& post.contains_key(other) == #[trigger] pool.contains_key(other)
                    &&& pool.contains_key(other) ==> post[other] == pool[other]
                }
        }),
        ({
            let post = after_deref(
                pool,
                key,
                pool[key].with_event(pool[key].event.after_receiver_left()),
            );
            &&& post.contains_key(key) <==> pool[key].event.sender
            &&& post.contains_key(key) ==> {
                &&& post[key].event.sender && !post[key].event.receiver && post[key].refs == 1
            }
            &&& forall|other: Key|
                other != key ==> {
                    &&& post.contains_key(other) == #[trigger] pool.contains_key(other)
                    &&& pool.contains_key(other) ==> post[other] == pool[other]
                }
        }),
{
}

} // verus!

//! What a first-come-first-served lock is, and what its operations do to it.
//!
//! Unlocking passes the lock on to the oldest waiter, if there is one: the lock then stays
//! locked, granted to that waiter, until the waiter takes it up or is cancelled.
use std::task::Waker;
use vstd::prelude::*;

use crate::waiters::{
    law_empty, law_leaving_disturbs_no_one, law_oldest_is_released, law_registered_keeps_places,
    lemma_popped, lemma_pushed, lemma_stored, lemma_without, Poll, WaitersView,
};

verus! {

/// The state of a lock.
#[verifier::ext_equal]
pub struct LockView {
    pub locked: bool,
    pub waiters: WaitersView<Waker>,
}

impl LockView {
    /// A lock that was never taken.
    pub open spec fn unlocked() -> Self {
        LockView { locked: false, waiters: WaitersView::empty() }
    }

    /// Waiters wait only for a lock that is locked, and it is granted to one of them at most.
    pub open spec fn valid(self) -> bool {
        &&& self.waiters.valid()
        &&& !self.locked ==> self.waiters.waiting.len() == 0 && self.waiters.notified.len() == 0
        &&& self.waiters.notified.len() <= 1
    }

    /// Someone holds the lock: it is locked and not merely granted.
    pub open spec fn is_held(self) -> bool {
        self.locked && self.waiters.notified.len() == 0
    }

    /// The lock was granted to the waiter that recorded `key`.
    pub open spec fn is_granted(self, key: Option<usize>) -> bool {
        key is Some && self.waiters.is_notified(key->0)
    }

    /// The lock after someone took it who did not wait.
    pub open spec fn after_lock(self) -> Self {
        LockView { locked: true, ..self }
    }

    /// The waker of the waiter that unlocking grants the lock to.
    pub open spec fn next(self) -> Option<Waker> {
        if self.waiters.waiting.len() > 0 {
            Some(self.waiters.waiting[0].1)
        } else {
            None
        }
    }

    /// The lock after its holder gave it up: it is granted to the oldest waiter, or unlocked.
    pub open spec fn after_unlock(self) -> Self {
        if self.waiters.waiting.len() > 0 {
            LockView { waiters: self.waiters.popped(), ..self }
        } else {
            LockView { locked: false, ..self }
        }
    }

    /// The lock after a waiter left it, its grant included.
    pub open spec fn without(self, key: Option<usize>) -> Self {
        LockView { waiters: self.waiters.without(key->0), ..self }
    }

    /// What polling does: a waiter takes up the lock that was granted to it, or an unlocked
    /// lock; otherwise it waits.
    pub open spec fn polled(
        self,
        key: Option<usize>,
        waker: Waker,
        post: Self,
        new_key: Option<usize>,
        r: Poll<()>,
    ) -> bool {
        if self.is_granted(key) {
            r == Poll::Ready(()) && post == self.without(key) && new_key is None
        } else if !self.locked {
            r == Poll::Ready(()) && post == self.after_lock() && new_key == key
        } else {
            &&& r == Poll::<()>::Pending
            &&& post.locked == self.locked
            &&& self.waiters.registered(key, waker, post.waiters, new_key)
        }
    }

    /// The lock after a waiter was dropped: one that the lock was granted to passes it on,
    /// another leaves the queue.
    pub open spec fn after_drop(self, key: Option<usize>) -> Self {
        if key is None {
            self
        } else if self.is_granted(key) {
            self.without(key).after_unlock()
        } else {
            self.without(key)
        }
    }

    /// The waker to wake after a waiter was dropped.
    pub open spec fn woken_by_drop(self, key: Option<usize>) -> Option<Waker> {
        if self.is_granted(key) {
            self.next()
        } else {
            None
        }
    }
}

proof fn lemma_sole_grant(v: LockView, k: usize)
    requires
        v.valid(),
        v.waiters.is_notified(k),
    ensures
        !v.waiters.is_waiting(k),
        v.waiters.without(k).waiting == v.waiters.waiting,
        v.waiters.without(k).notified.len() == 0,
        v.waiters.notified.len() == 1,
        v.locked,
{
    if v.waiters.is_waiting(k) {
        let i = v.waiters.position(k);
        assert(!v.waiters.notified.contains(v.waiters.waiting[i].0));
    }
    if v.waiters.notified.len() == 0 {
        assert(v.waiters.notified =~= Set::empty());
    }
}

/// Mutual exclusion, and service in order. Unlocking a lock that is held leaves it held by
/// no one: it is granted to the oldest waiter, and those behind keep their order, or it is
/// unlocked.
pub proof fn law_unlock_serves_the_oldest(v: LockView)
    requires
        v.valid(),
        v.is_held(),
    ensures
        v.after_unlock().valid(),
        !v.after_unlock().is_held(),
        v.waiters.waiting.len() == 0 ==> !v.after_unlock().locked,
        v.waiters.waiting.len() > 0 ==> {
            &&& v.after_unlock().locked
            &&& v.after_unlock().is_granted(Some(v.waiters.waiting[0].0))
            &&& v.after_unlock().waiters.waiting == v.waiters.waiting.drop_first()
        },
        forall|k: usize| v.after_unlock().waiters.has(k) == v.waiters.has(k),
{
    if v.waiters.waiting.len() > 0 {
        lemma_popped(v.waiters);
    }
}

/// Mutual exclusion. A poll completes only if no one holds the lock and it was granted to
/// no one else, and the lock is then held; a poll that does not complete changes nothing
/// about who holds the lock.
pub proof fn law_poll_excludes(
    v: LockView,
    key: Option<usize>,
    waker: Waker,
    post: LockView,
    new_key: Option<usize>,
    r: Poll<()>,
)
    requires
        v.valid(),
        v.waiters.owns(key),
        v.polled(key, waker, post, new_key, r),
    ensures
        post.valid(),
        post.waiters.owns(new_key),
        r == Poll::Ready(()) ==> {
            &&& !v.is_held()
            &&& post.is_held()
            &&& new_key is None
            &&& forall|j: usize| v.is_granted(Some(j)) ==> Some(j) == key
        },
        r == Poll::<()>::Pending ==> {
            &&& post.is_held() == v.is_held()
            &&& new_key is Some
            &&& post.waiters.is_waiting(new_key->0)
        },
        forall|k: usize|
            Some(k) != key && Some(k) != new_key ==> #[trigger] post.waiters.has(k)
                == v.waiters.has(k),
{
    if v.is_granted(key) {
        lemma_without(v.waiters, key->0);
        lemma_sole_grant(v, key->0);
        assert forall|j: usize| v.is_granted(Some(j)) implies Some(j) == key by {
            if j != key->0 {
                assert(v.waiters.without(key->0).notified.contains(j));
                assert(v.waiters.without(key->0).notified.len() > 0);
            }
        }
    } else if !v.locked {
        assert(v.waiters.notified =~= Set::empty());
        if key is Some {
            assert(v.waiters.has(key->0));
        }
    } else {
        match key {
            None => lemma_pushed(v.waiters, new_key->0, waker),
            Some(k) => lemma_stored(v.waiters, k, waker),
        }
    }
}

/// No acquisition is lost to cancellation. A waiter that the lock was granted to and that
/// is dropped gives the lock up as a holder would once it has gone: the next waiter is
/// granted it, or it is unlocked.
pub proof fn law_cancelled_grant_is_passed_on(v: LockView, k: usize)
    requires
        v.valid(),
        v.is_granted(Some(k)),
    ensures
        v.after_drop(Some(k)) == v.without(Some(k)).after_unlock(),
        v.woken_by_drop(Some(k)) == v.without(Some(k)).next(),
        v.waiters.waiting.len() > 0 ==> v.after_drop(Some(k)).is_granted(
            Some(v.waiters.waiting[0].0),
        ),
        v.waiters.waiting.len() == 0 ==> !v.after_drop(Some(k)).locked,
{
    lemma_sole_grant(v, k);
    lemma_without(v.waiters, k);
    if v.waiters.waiting.len() > 0 {
        lemma_popped(v.without(Some(k)).waiters);
    }
}

/// Dropping a waiter keeps the lock valid, makes no one its holder, and keeps every other
/// waiter.
pub proof fn law_drop_keeps_valid(v: LockView, key: Option<usize>)
    requires
        v.valid(),
        v.waiters.owns(key),
    ensures
        v.after_drop(key).valid(),
        v.after_drop(key).is_held() == v.is_held(),
        forall|k: usize|
            v.after_drop(key).waiters.has(k) == (v.waiters.has(k) && Some(k) != key),
{
    if key is Some {
        let k = key->0;
        lemma_without(v.waiters, k);
        if v.is_granted(key) {
            lemma_sole_grant(v, k);
            if v.waiters.waiting.len() > 0 {
                lemma_popped(v.without(key).waiters);
            }
        }
    }
}

/// The state of a mutex: a lock and the value it protects. The value is absent while
/// someone holds the lock, who then has it.
#[verifier::ext_equal]
pub struct MutexView<T> {
    pub lock: LockView,
    pub value: Option<T>,
}

impl<T> MutexView<T> {
    /// The value is in exactly one place: with the holder of the lock, or in the mutex.
    pub open spec fn valid(self) -> bool {
        self.lock.valid() && (self.value is None <==> self.lock.is_held())
    }

    /// Someone holds the lock, and the value.
    pub open spec fn is_held(self) -> bool {
        self.value is None
    }

    /// A mutex around `value` that was never locked.
    pub open spec fn unlocked(value: T) -> Self {
        MutexView { lock: LockView::unlocked(), value: Some(value) }
    }

    /// The mutex after someone took the lock who did not wait.
    pub open spec fn after_lock(self) -> Self {
        MutexView { lock: self.lock.after_lock(), value: None }
    }

    /// The mutex after its holder gave up the lock and the value.
    pub open spec fn after_unlock(self, value: T) -> Self {
        MutexView { lock: self.lock.after_unlock(), value: Some(value) }
    }

    /// The mutex after a waiter was dropped.
    pub open spec fn after_drop(self, key: Option<usize>) -> Self {
        MutexView { lock: self.lock.after_drop(key), ..self }
    }

    /// What polling does: the lock decides, and whoever gets it gets the value, `got`.
    pub open spec fn polled(
        self,
        key: Option<usize>,
        waker: Waker,
        post: Self,
        new_key: Option<usize>,
        got: Option<T>,
    ) -> bool {
        &&& self.lock.polled(
            key,
            waker,
            post.lock,
            new_key,
            if got is Some {
                Poll::Ready(())
            } else {
                Poll::Pending
            },
        )
        &&& got is Some ==> got == self.value && post.value is None
        &&& got is None ==> post.value == self.value
    }
}

/// What a holder leaves in the mutex is what the next one gets: after the value was given
/// back, whoever takes the lock next, at once or after waiting for it, gets that value.
pub proof fn law_value_is_handed_on<T>(v: MutexView<T>, value: T)
    requires
        v.valid(),
        v.is_held(),
    ensures
        v.after_unlock(value).valid(),
        !v.after_unlock(value).is_held(),
        forall|key: Option<usize>, waker: Waker, post: MutexView<T>, new_key: Option<usize>, got:
            Option<T>| #[trigger]
            v.after_unlock(value).polled(key, waker, post, new_key, got) && got is Some ==> got
                == Some(value),
{
    law_unlock_serves_the_oldest(v.lock);
}

/// A mutex that no one has used is unlocked, holds its value and has no one who waits.
pub proof fn law_starts_unlocked<T>(value: T)
    ensures
        MutexView::unlocked(value).value == Some(value),
        !MutexView::unlocked(value).lock.locked,
        MutexView::unlocked(value).lock.waiters.waiting.len() == 0,
        forall|k: usize| !(#[trigger] MutexView::unlocked(value).lock.waiters.notified.contains(k)),
        !LockView::unlocked().locked,
        LockView::unlocked().waiters.waiting.len() == 0,
        forall|k: usize| !(#[trigger] LockView::unlocked().waiters.notified.contains(k)),
{
    law_empty::<Waker>();
}

/// Whoever takes the lock without waiting leaves it locked and the value absent, and touches no
/// waiter.
pub proof fn law_lock_is_taken<T>(v: MutexView<T>)
    ensures
        v.after_lock().lock.locked,
        v.after_lock().value is None,
        v.after_lock().lock.waiters.waiting == v.lock.waiters.waiting,
        v.after_lock().lock.waiters.notified == v.lock.waiters.notified,
        v.lock.after_lock().locked,
        v.lock.after_lock().waiters.waiting == v.lock.waiters.waiting,
        v.lock.after_lock().waiters.notified == v.lock.waiters.notified,
{
}

/// Whoever is granted the lock is woken. If anyone waits for a lock that is held, unlocking it hands
/// out the waker stored for the very waiter that the lock is granted to, which is the one that has
/// waited longest; the others keep their turn. With no one waiting, the lock is unlocked.
pub proof fn law_unlock_wakes_whom_it_grants(v: LockView)
    requires
        v.valid(),
        v.locked,
        v.waiters.notified.len() == 0,
    ensures
        v.is_held(),
        v.next() is Some <==> v.waiters.waiting.len() > 0,
        forall|k: usize|
            #![trigger v.after_unlock().waiters.notified.contains(k)]
            v.after_unlock().waiters.notified.contains(k) <==> v.waiters.waiting.len() > 0
                && v.waiters.waiting[0] == (k, v.next()->0),
        v.next() is Some ==> {
            &&& v.after_unlock().locked
            &&& v.after_unlock().waiters.waiting.len() == v.waiters.waiting.len() - 1
            &&& forall|i: int|
                0 <= i < v.waiters.waiting.len() - 1 ==> #[trigger]
                    v.after_unlock().waiters.waiting[i] == v.waiters.waiting[i + 1]
        },
        v.next() is None ==> !v.after_unlock().locked && v.after_unlock().waiters.waiting.len()
            == 0,
{
    assert(v.waiters.notified =~= Set::empty());
    if v.waiters.waiting.len() > 0 {
        law_oldest_is_released(v.waiters);
    }
}

/// A poll has to wait if and only if the lock is locked and was not granted to the waiter. One that
/// completes takes the grant or the unlocked lock, which is then held by no one else, takes no one's
/// place, and leaves the waiter out of the list.
pub proof fn law_poll_takes_grant_or_lock(
    v: LockView,
    key: Option<usize>,
    waker: Waker,
    post: LockView,
    new_key: Option<usize>,
    r: Poll<()>,
)
    requires
        v.valid(),
        v.waiters.owns(key),
        v.polled(key, waker, post, new_key, r),
    ensures
        r is Pending <==> v.locked && !(key is Some && v.waiters.notified.contains(key->0)),
        r is Ready ==> {
            &&& new_key is None
            &&& post.locked
            &&& post.waiters.waiting == v.waiters.waiting
            &&& forall|k: usize| !(#[trigger] post.waiters.notified.contains(k))
        },
{
    if key is Some {
        law_leaving_disturbs_no_one(v.waiters, key->0);
    }
    law_poll_excludes(v, key, waker, post, new_key, r);
    if r is Ready {
        assert(post.waiters.notified =~= Set::empty());
        if !v.locked {
            assert(v.waiters.notified =~= Set::empty());
        }
    }
}

/// A poll that has to wait stores the waker that it was handed, whether or not the waiter waited
/// before; a waiter that waited keeps its place, another comes behind all who wait, and no one else is
/// touched.
pub proof fn law_pending_poll_keeps_places(
    v: LockView,
    key: Option<usize>,
    waker: Waker,
    post: LockView,
    new_key: Option<usize>,
    r: Poll<()>,
)
    requires
        v.valid(),
        v.waiters.owns(key),
        v.polled(key, waker, post, new_key, r),
        r is Pending,
    ensures
        post.locked,
        new_key is Some && post.waiters.notified == v.waiters.notified,
        (key is Some ==> new_key == key && post.waiters.waiting.len() == v.waiters.waiting.len()),
        (key is None ==> {
            &&& post.waiters.waiting.len() == v.waiters.waiting.len() + 1
            &&& post.waiters.waiting.last().0 == new_key->0
            &&& !v.waiters.notified.contains(new_key->0)
            &&& forall|i: int|
                0 <= i < v.waiters.waiting.len() ==> (#[trigger] v.waiters.waiting[i]).0 != new_key->0
        }),
        (forall|i: int|
            0 <= i < v.waiters.waiting.len() ==> (#[trigger] post.waiters.waiting[i]).0 == v.waiters.waiting[i].0),
        (exists|i: int|
            0 <= i < post.waiters.waiting.len() && (#[trigger] post.waiters.waiting[i]).0 == new_key->0),
        (forall|i: int|
            0 <= i < post.waiters.waiting.len() && (#[trigger] post.waiters.waiting[i]).0 == new_key->0
                ==> post.waiters.waiting[i].1 == waker),
        (forall|i: int|
            0 <= i < v.waiters.waiting.len() && (#[trigger] post.waiters.waiting[i]).0 != new_key->0
                ==> post.waiters.waiting[i] == v.waiters.waiting[i]),
{
    law_registered_keeps_places(v.waiters, key, waker, post.waiters, new_key);
}

/// A waiter that is dropped takes no one's place. One that the lock was granted to passes it on to
/// whoever has waited longest, whose waker is handed out, or leaves it unlocked; one that only waited
/// wakes no one and changes nothing about who has the lock.
pub proof fn law_drop_wakes_whom_it_grants(v: LockView, key: Option<usize>)
    requires
        v.valid(),
        v.waiters.owns(key),
    ensures
        key is None ==> v.after_drop(key) == v && v.woken_by_drop(key) is None,
        key is Some && !v.waiters.notified.contains(key->0) ==> {
            &&& v.woken_by_drop(key) is None
            &&& v.after_drop(key).locked == v.locked
            &&& v.after_drop(key).waiters.notified == v.waiters.notified
            &&& exists|i: int|
                {
                    &&& 0 <= i < v.waiters.waiting.len()
                    &&& (#[trigger] v.waiters.waiting[i]).0 == key->0
                    &&& v.after_drop(key).waiters.waiting == v.waiters.waiting.remove(i)
                }
        },
        key is Some && v.waiters.notified.contains(key->0) && v.waiters.waiting.len() > 0 ==> {
            &&& v.woken_by_drop(key) == Some(v.waiters.waiting[0].1)
            &&& v.after_drop(key).locked
            &&& v.after_drop(key).waiters.notified == v.waiters.notified.remove(key->0).insert(
                v.waiters.waiting[0].0,
            )
            &&& v.after_drop(key).waiters.waiting == v.waiters.waiting.remove(0)
        },
        key is Some && v.waiters.notified.contains(key->0) && v.waiters.waiting.len() == 0 ==> {
            &&& v.woken_by_drop(key) is None
            &&& !v.after_drop(key).locked
            &&& v.after_drop(key).waiters.notified == v.waiters.notified.remove(key->0)
            &&& v.after_drop(key).waiters.waiting.len() == 0
        },
{
    if key is Some {
        let k = key->0;
        law_leaving_disturbs_no_one(v.waiters, k);
        lemma_without(v.waiters, k);
        if v.waiters.notified.contains(k) {
            lemma_sole_grant(v, k);
            if v.waiters.waiting.len() > 0 {
                law_oldest_is_released(v.without(key).waiters);
                assert(v.after_drop(key).waiters.waiting =~= v.waiters.waiting.remove(0));
            }
        } else {
            let i = v.waiters.position(k);
            assert(v.waiters.waiting[i].0 == k);
        }
    }
}

/// The value goes with the lock. Whoever gets the lock by a poll gets the value that was in the mutex
/// and leaves none there; a poll that has to wait, and a waiter that is dropped, leave the value where
/// it is; and who gives the lock up puts its value in.
pub proof fn law_value_goes_with_the_lock<T>(
    v: MutexView<T>,
    key: Option<usize>,
    waker: Waker,
    post: MutexView<T>,
    new_key: Option<usize>,
    got: Option<T>,
    value: T,
)
    requires
        v.valid(),
        v.lock.waiters.owns(key),
        v.polled(key, waker, post, new_key, got),
    ensures
        got is Some <==> !v.lock.locked || key is Some && v.lock.waiters.notified.contains(key->0),
        got is Some ==> v.value == got && post.value is None,
        got is None ==> post.value == v.value,
        v.lock.polled(
            key,
            waker,
            post.lock,
            new_key,
            if got is Some {
                Poll::Ready(())
            } else {
                Poll::Pending
            },
        ),
        v.after_drop(key).value == v.value,
        v.after_drop(key).lock == v.lock.after_drop(key),
        v.after_unlock(value).value == Some(value),
        v.after_unlock(value).lock == v.lock.after_unlock(),
        v.is_held() <==> v.lock.locked && v.lock.waiters.notified.len() == 0,
{
    law_poll_takes_grant_or_lock(
        v.lock,
        key,
        waker,
        post.lock,
        new_key,
        if got is Some {
            Poll::Ready(())
        } else {
            Poll::Pending
        },
    );
}

/// An operation on a lock, with what the caller puts in and gets out.
pub enum LockOp {
    /// Someone takes the lock, which is unlocked.
    TryLock,
    /// The holder gives the lock up.
    Unlock,
    /// A waiter that recorded `key` is polled, and from then on records `new_key`.
    PollLock { key: Option<usize>, waker: Waker, new_key: Option<usize>, r: Poll<()> },
    /// A waiter that recorded `key` is dropped.
    DropWait { key: Option<usize> },
}

impl LockOp {
    /// The operation leads from `pre` to `post`.
    pub open spec fn leads(self, pre: LockView, post: LockView) -> bool {
        match self {
            LockOp::TryLock => !pre.locked && post == pre.after_lock(),
            LockOp::Unlock => pre.is_held() && post == pre.after_unlock(),
            LockOp::PollLock { key, waker, new_key, r } => pre.waiters.owns(key) && pre.polled(
                key,
                waker,
                post,
                new_key,
                r,
            ),
            LockOp::DropWait { key } => pre.waiters.owns(key) && post == pre.after_drop(key),
        }
    }

    /// By how much the operation changes the number of holders.
    pub open spec fn gained(self) -> int {
        match self {
            LockOp::TryLock => 1,
            LockOp::Unlock => -1,
            LockOp::PollLock { key, waker, new_key, r } => if r == Poll::Ready(()) {
                1
            } else {
                0
            },
            LockOp::DropWait { key } => 0,
        }
    }
}

/// The operations `ops` lead through `states`, of a lock that starts unlocked.
pub open spec fn lock_history(states: Seq<LockView>, ops: Seq<LockOp>) -> bool {
    &&& states.len() == ops.len() + 1
    &&& states[0] == LockView::unlocked()
    &&& forall|i: int| 0 <= i < ops.len() ==> (#[trigger] ops[i]).leads(states[i], states[i + 1])
}

/// How many hold the lock after the first `n` operations of a history.
pub open spec fn holders(ops: Seq<LockOp>, n: nat) -> int
    decreases n,
{
    if n == 0 {
        0
    } else {
        holders(ops, (n - 1) as nat) + ops[n - 1].gained()
    }
}

/// Mutual exclusion: whatever happens to a lock, in whatever order, it has one holder when it
/// is held and none otherwise.
pub proof fn law_at_most_one_holder(states: Seq<LockView>, ops: Seq<LockOp>, n: nat)
    requires
        lock_history(states, ops),
        n <= ops.len(),
    ensures
        states[n as int].valid(),
        holders(ops, n) == if states[n as int].is_held() {
            1int
        } else {
            0
        },
    decreases n,
{
    if n > 0 {
        law_at_most_one_holder(states, ops, (n - 1) as nat);
        let pre = states[n - 1];
        let post = states[n as int];
        assert(ops[n - 1].leads(pre, post));
        match ops[n - 1] {
            LockOp::TryLock => {},
            LockOp::Unlock => {
                law_unlock_serves_the_oldest(pre);
            },
            LockOp::PollLock { key, waker, new_key, r } => {
                law_poll_excludes(pre, key, waker, post, new_key, r);
            },
            LockOp::DropWait { key } => {
                law_drop_keeps_valid(pre, key);
            },
        }
    }
}

impl LockView {
    /// The lock after it was handed over `n` times: its holder gives it up, and the waiter that
    /// it is granted to takes it up.
    pub open spec fn after_handovers(self, n: nat) -> Self
        decreases n,
    {
        if n == 0 {
            self
        } else {
            self.after_unlock().without(Some(self.waiters.waiting[0].0)).after_handovers(
                (n - 1) as nat,
            )
        }
    }
}

/// Waiters are served in the order in which they came: after `n` handovers of a lock, the first
/// `n` waiters have had it in turn and the others wait in their old order.
pub proof fn law_served_in_order(v: LockView, n: nat)
    requires
        v.valid(),
        v.is_held(),
        n <= v.waiters.waiting.len(),
    ensures
        v.after_handovers(n).valid(),
        v.after_handovers(n).is_held(),
        v.after_handovers(n).waiters.waiting == v.waiters.waiting.subrange(
            n as int,
            v.waiters.waiting.len() as int,
        ),
    decreases n,
{
    let len = v.waiters.waiting.len() as int;
    if n > 0 {
        law_unlock_serves_the_oldest(v);
        let granted = v.after_unlock();
        let k = v.waiters.waiting[0].0;
        lemma_sole_grant(granted, k);
        lemma_without(granted.waiters, k);
        let one = granted.without(Some(k));
        assert(one.waiters.waiting =~= v.waiters.waiting.subrange(1, len));
        law_served_in_order(one, (n - 1) as nat);
        assert(one.waiters.waiting.subrange(n - 1, len - 1) =~= v.waiters.waiting.subrange(
            n as int,
            len,
        ));
    } else {
        assert(v.waiters.waiting =~= v.waiters.waiting.subrange(0, len));
    }
}

} // verus!

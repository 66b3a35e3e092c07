//! What a manual-reset event is, and what its operations do to it.
//!
//! A manual-reset event is a door. Setting it releases every waiter and lets later waits
//! through until the event is reset. The released waiters are woken one at a time, and
//! between two of them anything can happen to the event: a waker may reset it, set it
//! again, drop another waiter or register a new one.
use std::task::Waker;
use vstd::prelude::*;

use crate::waiters::{
    law_empty, law_leaving_disturbs_no_one, law_oldest_is_released, law_registered_keeps_places,
    lemma_popped, lemma_position, lemma_pushed, lemma_stored, lemma_without, Poll, WaitersView,
};

verus! {

/// The state of a manual-reset event.
///
/// The first `owed` waiters in the queue were there when the event was last set and have
/// yet to be released.
#[verifier::ext_equal]
pub struct ManualView {
    pub is_set: bool,
    pub waiters: WaitersView<Waker>,
    pub owed: nat,
}

impl ManualView {
    /// An event that was never set and never waited for.
    pub open spec fn unset() -> Self {
        ManualView { is_set: false, waiters: WaitersView::empty(), owed: 0 }
    }

    /// Only waiters are owed a release; while the event is set, every waiter is.
    pub open spec fn valid(self) -> bool {
        &&& self.waiters.valid()
        &&& self.owed <= self.waiters.waiting.len()
        &&& self.is_set ==> self.owed == self.waiters.waiting.len()
    }

    /// The waiter with key `k` is owed a release.
    pub open spec fn is_owed(self, k: usize) -> bool {
        exists|i: int| 0 <= i < self.owed && (#[trigger] self.waiters.waiting[i]).0 == k
    }

    /// The event after the door was opened: every waiter is owed a release.
    pub open spec fn after_open(self) -> Self {
        ManualView { is_set: true, owed: self.waiters.waiting.len(), ..self }
    }

    /// The waker of the next waiter to release.
    pub open spec fn next(self) -> Option<Waker> {
        if self.owed > 0 {
            Some(self.waiters.waiting[0].1)
        } else {
            None
        }
    }

    /// The event after the next waiter that is owed a release got it.
    pub open spec fn after_release(self) -> Self {
        if self.owed > 0 {
            ManualView { waiters: self.waiters.popped(), owed: (self.owed - 1) as nat, ..self }
        } else {
            self
        }
    }

    /// The event after everyone who is owed a release got it.
    pub open spec fn after_releases(self) -> Self
        decreases self.owed,
    {
        if self.owed > 0 {
            self.after_release().after_releases()
        } else {
            self
        }
    }

    /// The event after it was set: the door is open, and everyone who waited was released.
    pub open spec fn after_set(self) -> Self {
        ManualView {
            is_set: true,
            owed: 0,
            waiters: WaitersView { waiting: Seq::empty(), notified: self.waiters.keys() },
        }
    }

    /// The wakers of everyone who is waiting, oldest first.
    pub open spec fn wakers(self) -> Seq<Waker> {
        self.waiters.waiting.map_values(|e: (usize, Waker)| e.1)
    }

    /// The event after the door was closed.
    pub open spec fn after_reset(self) -> Self {
        ManualView { is_set: false, ..self }
    }

    /// The waiter that recorded `key` was released and has not noticed yet.
    pub open spec fn is_released(self, key: Option<usize>) -> bool {
        key is Some && self.waiters.is_notified(key->0)
    }

    /// The event after a waiter left it.
    pub open spec fn after_drop(self, key: Option<usize>) -> Self {
        match key {
            None => self,
            Some(k) => ManualView {
                waiters: self.waiters.without(k),
                owed: if self.is_owed(k) {
                    (self.owed - 1) as nat
                } else {
                    self.owed
                },
                ..self
            },
        }
    }

    /// A poll that neither a release nor an open door completes registers the waiter.
    pub open spec fn pending(
        self,
        key: Option<usize>,
        waker: Waker,
        post: Self,
        new_key: Option<usize>,
    ) -> bool {
        &&& post.is_set == self.is_set
        &&& post.owed == self.owed
        &&& self.waiters.registered(key, waker, post.waiters, new_key)
    }

    /// What polling does where the waiter first looks whether it was released, then whether
    /// the door is open.
    pub open spec fn polled_release_first(
        self,
        key: Option<usize>,
        waker: Waker,
        post: Self,
        new_key: Option<usize>,
        r: Poll<()>,
    ) -> bool {
        if self.is_released(key) {
            r == Poll::Ready(()) && post == self.after_drop(key) && new_key is None
        } else if self.is_set {
            r == Poll::Ready(()) && post == self && new_key == key
        } else {
            r == Poll::<()>::Pending && self.pending(key, waker, post, new_key)
        }
    }

    /// What polling does where the waiter first looks whether the door is open, then whether
    /// it was released.
    pub open spec fn polled_door_first(
        self,
        key: Option<usize>,
        waker: Waker,
        post: Self,
        new_key: Option<usize>,
        r: Poll<()>,
    ) -> bool {
        if self.is_set {
            r == Poll::Ready(()) && post == self && new_key == key
        } else if self.is_released(key) {
            r == Poll::Ready(()) && post == self.after_drop(key) && new_key is None
        } else {
            r == Poll::<()>::Pending && self.pending(key, waker, post, new_key)
        }
    }
}

/// Opening the door owes a release to every waiter, and to no one else; when it is open
/// already, nothing changes.
pub proof fn law_open_owes_everyone(v: ManualView)
    requires
        v.valid(),
    ensures
        v.after_open().valid(),
        forall|k: usize| v.after_open().is_owed(k) == v.waiters.is_waiting(k),
        v.is_set ==> v.after_open() == v,
{
    assert forall|k: usize| v.after_open().is_owed(k) == v.waiters.is_waiting(k) by {
        if v.waiters.is_waiting(k) {
            let i = v.waiters.position(k);
            assert(v.after_open().waiters.waiting[i].0 == k);
        }
    }
}

/// A release reaches a waiter that is owed it, who has then been notified; everyone else
/// stays as they were. There is one as long as anyone is owed.
pub proof fn law_release_reaches_the_owed(v: ManualView)
    requires
        v.valid(),
    ensures
        v.after_release().valid(),
        v.next() is None ==> forall|k: usize| !v.is_owed(k),
        v.next() is Some ==> {
            let k = v.waiters.waiting[0].0;
            &&& v.is_owed(k)
            &&& v.after_release().waiters.is_notified(k)
            &&& forall|j: usize|
                v.after_release().is_owed(j) == (v.is_owed(j) && j != k)
            &&& forall|j: usize|
                j != k ==> v.after_release().waiters.is_notified(j) == v.waiters.is_notified(j)
        },
        forall|k: usize| v.after_release().waiters.has(k) == v.waiters.has(k),
{
    if v.owed > 0 {
        lemma_popped(v.waiters);
        let k = v.waiters.waiting[0].0;
        let p = v.after_release();
        assert(v.waiters.waiting[0].0 == k);
        assert forall|j: usize| p.is_owed(j) == (v.is_owed(j) && j != k) by {
            if p.is_owed(j) {
                let i = choose|i: int|
                    0 <= i < p.owed && (#[trigger] p.waiters.waiting[i]).0 == j;
                assert(p.waiters.waiting[i] == v.waiters.waiting[i + 1]);
                assert(v.waiters.waiting[0].0 != v.waiters.waiting[i + 1].0);
            }
            if v.is_owed(j) && j != k {
                let i = choose|i: int|
                    0 <= i < v.owed && (#[trigger] v.waiters.waiting[i]).0 == j;
                assert(p.waiters.waiting[i - 1] == v.waiters.waiting[i]);
            }
        }
    }
}

/// Closing the door takes back no release: whoever is owed one still is, and whoever got
/// one keeps it.
pub proof fn law_reset_takes_nothing_back(v: ManualView)
    requires
        v.valid(),
    ensures
        v.after_reset().valid(),
        !v.after_reset().is_set,
        v.after_reset().waiters == v.waiters,
        forall|k: usize| v.after_reset().is_owed(k) == v.is_owed(k),
{
}

/// A waiter that leaves takes its own claim with it and no one else's.
pub proof fn law_drop_skips_no_one(v: ManualView, key: Option<usize>)
    requires
        v.valid(),
        v.waiters.owns(key),
    ensures
        v.after_drop(key).valid(),
        forall|j: usize| v.after_drop(key).is_owed(j) == (v.is_owed(j) && Some(j) != key),
        forall|j: usize|
            v.after_drop(key).waiters.has(j) == (v.waiters.has(j) && Some(j) != key),
        forall|j: usize|
            v.after_drop(key).waiters.is_waiting(j) == (v.waiters.is_waiting(j) && Some(j)
                != key),
{
    if key is Some {
        let k = key->0;
        lemma_without(v.waiters, k);
        let p = v.after_drop(key);
        if v.waiters.is_waiting(k) {
            let at = v.waiters.position(k);
            assert(p.waiters.waiting =~= v.waiters.waiting.remove(at));
            assert(v.is_owed(k) == (at < v.owed)) by {
                if v.is_owed(k) {
                    let i = choose|i: int|
                        0 <= i < v.owed && (#[trigger] v.waiters.waiting[i]).0 == k;
                    lemma_position(v.waiters, k, i);
                }
                if at < v.owed {
                    assert(v.waiters.waiting[at].0 == k);
                }
            }
            assert forall|j: usize| p.is_owed(j) == (v.is_owed(j) && j != k) by {
                if p.is_owed(j) {
                    let i = choose|i: int|
                        0 <= i < p.owed && (#[trigger] p.waiters.waiting[i]).0 == j;
                    let i2 = if i < at { i } else { i + 1 };
                    assert(v.waiters.waiting[i2].0 == j);
                    if j == k {
                        lemma_position(v.waiters, k, i2);
                    }
                }
                if v.is_owed(j) && j != k {
                    let i = choose|i: int|
                        0 <= i < v.owed && (#[trigger] v.waiters.waiting[i]).0 == j;
                    let i2 = if i < at { i } else { i - 1 };
                    assert(i != at);
                    assert(p.waiters.waiting[i2].0 == j);
                }
            }
        } else {
            assert(p.waiters.waiting == v.waiters.waiting);
            assert forall|j: usize| p.is_owed(j) == (v.is_owed(j) && j != k) by {
                if v.is_owed(k) {
                    let i = choose|i: int|
                        0 <= i < v.owed && (#[trigger] v.waiters.waiting[i]).0 == k;
                    assert(v.waiters.is_waiting(k));
                }
                if v.is_owed(j) {
                    let i = choose|i: int|
                        0 <= i < v.owed && (#[trigger] v.waiters.waiting[i]).0 == j;
                    assert(p.waiters.waiting[i].0 == j);
                }
                if p.is_owed(j) {
                    let i = choose|i: int|
                        0 <= i < p.owed && (#[trigger] p.waiters.waiting[i]).0 == j;
                    assert(v.waiters.waiting[i].0 == j);
                }
            }
        }
    }
}

/// A poll completes if and only if the door is open or the waiter was released, whatever
/// became of the door since; otherwise it leaves the waiter registered. It makes no
/// difference to what anyone is owed: a waiter that registers while an earlier set is
/// still releasing is not released by it.
pub proof fn law_poll(
    v: ManualView,
    key: Option<usize>,
    waker: Waker,
    post: ManualView,
    new_key: Option<usize>,
    r: Poll<()>,
)
    requires
        v.valid(),
        v.waiters.owns(key),
        v.polled_release_first(key, waker, post, new_key, r) || v.polled_door_first(
            key,
            waker,
            post,
            new_key,
            r,
        ),
    ensures
        post.valid(),
        post.waiters.owns(new_key),
        r == Poll::Ready(()) <==> (v.is_set || v.is_released(key)),
        r == Poll::<()>::Pending ==> new_key is Some && post.waiters.is_waiting(new_key->0),
        post.is_set == v.is_set,
        forall|j: usize| post.is_owed(j) == v.is_owed(j),
        key is None && new_key is Some ==> !post.is_owed(new_key->0),
        forall|k: usize|
            Some(k) != key && Some(k) != new_key ==> #[trigger] post.waiters.has(k)
                == v.waiters.has(k),
{
    if r == Poll::<()>::Pending {
        match key {
            None => {
                lemma_pushed(v.waiters, new_key->0, waker);
                assert forall|j: usize| post.is_owed(j) == v.is_owed(j) by {
                    if post.is_owed(j) {
                        let i = choose|i: int|
                            0 <= i < post.owed && (#[trigger] post.waiters.waiting[i]).0 == j;
                        assert(v.waiters.waiting[i].0 == j);
                    }
                    if v.is_owed(j) {
                        let i = choose|i: int|
                            0 <= i < v.owed && (#[trigger] v.waiters.waiting[i]).0 == j;
                        assert(post.waiters.waiting[i].0 == j);
                    }
                }
                if v.is_owed(new_key->0) {
                    assert(v.waiters.is_waiting(new_key->0));
                }
            },
            Some(k) => {
                lemma_stored(v.waiters, k, waker);
                assert forall|j: usize| post.is_owed(j) == v.is_owed(j) by {
                    if post.is_owed(j) {
                        let i = choose|i: int|
                            0 <= i < post.owed && (#[trigger] post.waiters.waiting[i]).0 == j;
                        assert(v.waiters.waiting[i].0 == j);
                    }
                    if v.is_owed(j) {
                        let i = choose|i: int|
                            0 <= i < v.owed && (#[trigger] v.waiters.waiting[i]).0 == j;
                        assert(post.waiters.waiting[i].0 == j);
                    }
                }
            },
        }
    } else if post != v {
        law_drop_skips_no_one(v, key);
        let k = key->0;
        if v.is_owed(k) {
            let i = choose|i: int|
                0 <= i < v.owed && (#[trigger] v.waiters.waiting[i]).0 == k;
            assert(!v.waiters.notified.contains(v.waiters.waiting[i].0));
        }
    }
}

/// Releasing everyone who is owed a release takes them out of the queue in order and
/// notifies each; nothing else changes.
pub proof fn lemma_releases(v: ManualView)
    requires
        v.valid(),
    ensures
        v.after_releases().valid(),
        v.after_releases().owed == 0,
        v.after_releases().is_set == v.is_set,
        v.after_releases().waiters.waiting == v.waiters.waiting.subrange(
            v.owed as int,
            v.waiters.waiting.len() as int,
        ),
        forall|k: usize| #[trigger]
            v.after_releases().waiters.notified.contains(k) == (v.waiters.is_notified(k)
                || v.is_owed(k)),
        forall|k: usize| v.after_releases().waiters.has(k) == v.waiters.has(k),
    decreases v.owed,
{
    let len = v.waiters.waiting.len() as int;
    if v.owed > 0 {
        law_release_reaches_the_owed(v);
        let one = v.after_release();
        lemma_releases(one);
        assert(v.after_releases() == one.after_releases());
        assert(one.waiters.waiting =~= v.waiters.waiting.subrange(1, len));
        assert(one.waiters.waiting.subrange(one.owed as int, len - 1)
            =~= v.waiters.waiting.subrange(v.owed as int, len));
        assert forall|k: usize| #[trigger]
            v.after_releases().waiters.notified.contains(k) == (v.waiters.is_notified(k)
                || v.is_owed(k)) by {
            assert(one.is_owed(k) == (v.is_owed(k) && k != v.waiters.waiting[0].0));
            assert(one.after_releases().waiters.is_notified(k) == (one.waiters.is_notified(k)
                || one.is_owed(k)));
        }
        assert forall|k: usize| v.after_releases().waiters.has(k) == v.waiters.has(k) by {
            assert(one.waiters.has(k) == v.waiters.has(k));
        }
    } else {
        assert(v.after_releases() == v);
        assert(v.waiters.waiting =~= v.waiters.waiting.subrange(0, len));
    }
}

/// Setting the event is to open the door and to release everyone who is then owed a release, one
/// after the other.
pub proof fn law_set_opens_and_releases(v: ManualView)
    requires
        v.valid(),
    ensures
        v.after_open().after_releases() == v.after_set(),
{
    law_open_owes_everyone(v);
    lemma_releases(v.after_open());
    let p = v.after_open().after_releases();
    assert forall|k: usize| #[trigger] p.waiters.notified.contains(k) == v.waiters.keys().contains(
        k,
    ) by {
        assert(v.after_open().is_owed(k) == v.waiters.is_waiting(k));
    }
    assert(p.waiters.notified =~= v.waiters.keys());
    assert(p.waiters.waiting =~= Seq::empty());
}

/// Setting the event releases everyone who waits: no one is left in the queue, each of
/// them has been notified, and the door is open.
pub proof fn law_set_releases_everyone(v: ManualView)
    requires
        v.valid(),
    ensures
        v.after_set().valid(),
        v.after_set().is_set,
        v.after_set().waiters.waiting.len() == 0,
        forall|k: usize| v.after_set().waiters.is_notified(k) == v.waiters.has(k),
{
    law_open_owes_everyone(v);
    lemma_releases(v.after_open());
    law_set_opens_and_releases(v);
}

/// The door stays open until it is closed: setting an event that is set and has no one to
/// release changes nothing.
pub proof fn law_set_twice(v: ManualView)
    requires
        v.valid(),
    ensures
        v.after_set().after_set() == v.after_set(),
{
    law_set_releases_everyone(v);
    let s = v.after_set();
    assert(s.waiters.keys() =~= s.waiters.notified) by {
        assert forall|k: usize| s.waiters.keys().contains(k) == s.waiters.notified.contains(k) by {
            assert(!s.waiters.is_waiting(k));
        }
    }
    assert(s.after_set() =~= s);
}

/// An event that no one has used is closed, and has no one who waits, was released or is owed a
/// release.
pub proof fn law_starts_unset()
    ensures
        !ManualView::unset().is_set,
        ManualView::unset().owed == 0,
        ManualView::unset().waiters.waiting.len() == 0,
        forall|k: usize| !(#[trigger] ManualView::unset().waiters.notified.contains(k)),
{
    law_empty::<Waker>();
}

/// Opening and closing the door moves no one: opening owes a release to everyone in the queue, and
/// closing takes nothing back.
pub proof fn law_door_moves_no_one(v: ManualView)
    ensures
        v.after_open().is_set,
        v.after_open().owed == v.waiters.waiting.len(),
        v.after_open().waiters.waiting == v.waiters.waiting,
        v.after_open().waiters.notified == v.waiters.notified,
        !v.after_reset().is_set,
        v.after_reset().owed == v.owed,
        v.after_reset().waiters.waiting == v.waiters.waiting,
        v.after_reset().waiters.notified == v.waiters.notified,
{
}

/// Whoever is released is woken. As long as anyone is owed a release, the next one goes to whoever
/// has waited longest, whose stored waker is handed out; nothing is handed out only if no one is owed
/// and no one is released.
pub proof fn law_release_wakes_whom_it_releases(v: ManualView)
    requires
        v.valid(),
    ensures
        v.next() is Some <==> v.owed > 0,
        forall|k: usize|
            #![trigger v.after_release().waiters.notified.contains(k)]
            v.after_release().waiters.notified.contains(k) <==> v.waiters.notified.contains(k)
                || v.owed > 0 && v.waiters.waiting[0] == (k, v.next()->0),
        v.owed > 0 ==> {
            &&& v.after_release().owed == v.owed - 1
            &&& v.after_release().is_set == v.is_set
            &&& v.after_release().waiters.waiting.len() == v.waiters.waiting.len() - 1
            &&& forall|i: int|
                0 <= i < v.waiters.waiting.len() - 1 ==> #[trigger]
                    v.after_release().waiters.waiting[i] == v.waiters.waiting[i + 1]
        },
        v.owed == 0 ==> v.after_release() == v,
{
    if v.owed > 0 {
        law_oldest_is_released(v.waiters);
    }
}

/// Setting a closed event wakes everyone it releases, and releases everyone: it hands out one waker
/// for each waiter in the queue, the one stored for that waiter, oldest first, and whoever waited is
/// released.
pub proof fn law_set_wakes_everyone(v: ManualView)
    requires
        v.valid(),
    ensures
        v.wakers().len() == v.waiters.waiting.len(),
        forall|i: int|
            0 <= i < v.waiters.waiting.len() ==> #[trigger] v.wakers()[i]
                == v.waiters.waiting[i].1,
        v.after_set().is_set,
        v.after_set().owed == 0,
        v.after_set().waiters.waiting.len() == 0,
        forall|i: int|
            #![trigger v.waiters.waiting[i]]
            0 <= i < v.waiters.waiting.len() ==> v.after_set().waiters.notified.contains(
                v.waiters.waiting[i].0,
            ),
        forall|k: usize|
            #![trigger v.waiters.notified.contains(k)]
            v.waiters.notified.contains(k) ==> v.after_set().waiters.notified.contains(k),
        forall|k: usize| #[trigger]
            v.after_set().waiters.notified.contains(k) ==> v.waiters.notified.contains(k)
                || exists|i: int|
                0 <= i < v.waiters.waiting.len() && (#[trigger] v.waiters.waiting[i]).0 == k,
{
    assert forall|i: int|
        #![trigger v.waiters.waiting[i]]
        0 <= i < v.waiters.waiting.len() implies v.after_set().waiters.notified.contains(
        v.waiters.waiting[i].0,
    ) by {
        assert(v.waiters.is_waiting(v.waiters.waiting[i].0));
    }
}

/// What setting the event hands out at once is what releasing one waiter after the other hands out:
/// the first waker is that of the next release, and the others are those of the releases after it.
pub proof fn law_set_hands_out_what_releases_do(v: ManualView)
    requires
        v.valid(),
        v.owed == v.waiters.waiting.len(),
    ensures
        v.next() is None <==> v.wakers().len() == 0,
        v.next() is Some ==> {
            &&& v.wakers()[0] == v.next()->0
            &&& v.after_release().wakers() == v.wakers().drop_first()
            &&& v.after_release().owed == v.after_release().waiters.waiting.len()
        },
{
    if v.owed > 0 {
        assert(v.after_release().wakers() =~= v.wakers().drop_first());
    }
}

/// A waiter that is dropped takes no one's place, no one's release and no one's claim to one.
pub proof fn law_drop_disturbs_no_one(v: ManualView, key: Option<usize>)
    requires
        v.valid(),
        v.waiters.owns(key),
    ensures
        key is None ==> v.after_drop(key) == v,
        v.after_drop(key).is_set == v.is_set,
        key is Some && v.waiters.notified.contains(key->0) ==> {
            &&& v.after_drop(key).waiters.notified == v.waiters.notified.remove(key->0)
            &&& v.after_drop(key).waiters.waiting == v.waiters.waiting
            &&& v.after_drop(key).owed == v.owed
        },
        key is Some && !v.waiters.notified.contains(key->0) ==> {
            &&& v.after_drop(key).waiters.notified == v.waiters.notified
            &&& exists|i: int|
                {
                    &&& 0 <= i < v.waiters.waiting.len()
                    &&& (#[trigger] v.waiters.waiting[i]).0 == key->0
                    &&& v.after_drop(key).waiters.waiting == v.waiters.waiting.remove(i)
                    &&& v.after_drop(key).owed == if i < v.owed {
                        v.owed - 1
                    } else {
                        v.owed as int
                    }
                }
        },
{
    if key is Some {
        let k = key->0;
        law_leaving_disturbs_no_one(v.waiters, k);
        if v.waiters.notified.contains(k) {
            if v.is_owed(k) {
                let i = choose|i: int|
                    0 <= i < v.owed && (#[trigger] v.waiters.waiting[i]).0 == k;
                assert(!v.waiters.notified.contains(v.waiters.waiting[i].0));
            }
        } else {
            let i = v.waiters.position(k);
            assert(v.waiters.waiting[i].0 == k);
            if v.is_owed(k) {
                let j = choose|j: int|
                    0 <= j < v.owed && (#[trigger] v.waiters.waiting[j]).0 == k;
                lemma_position(v.waiters, k, j);
            }
        }
    }
}

/// A poll has to wait if and only if the door is closed and the waiter was not released. One that
/// completes touches no one else: either the waiter notices its release, which is then gone, or the
/// door was open and all stays as it is.
pub proof fn law_poll_passes_door_or_release(
    v: ManualView,
    key: Option<usize>,
    waker: Waker,
    post: ManualView,
    new_key: Option<usize>,
    r: Poll<()>,
)
    requires
        v.valid(),
        v.waiters.owns(key),
        v.polled_release_first(key, waker, post, new_key, r) || v.polled_door_first(
            key,
            waker,
            post,
            new_key,
            r,
        ),
    ensures
        r is Pending <==> !v.is_set && !(key is Some && v.waiters.notified.contains(key->0)),
        post.is_set == v.is_set,
        post.owed == v.owed,
        r is Ready ==> post.waiters.waiting == v.waiters.waiting,
        r is Ready ==> {
            ||| new_key == key && post.waiters.notified == v.waiters.notified && v.is_set
            ||| {
                &&& key is Some && v.waiters.notified.contains(key->0)
                &&& new_key is None
                &&& post.waiters.notified == v.waiters.notified.remove(key->0)
            }
        },
        r is Ready && !v.is_set ==> new_key is None,
        v.polled_release_first(key, waker, post, new_key, r) && key is Some
            && v.waiters.notified.contains(key->0) ==> new_key is None,
{
    law_drop_disturbs_no_one(v, key);
}

/// A poll that has to wait stores the waker that it was handed, whether or not the waiter waited
/// before; a waiter that waited keeps its place, another comes behind all who wait, and no one else is
/// touched.
pub proof fn law_pending_poll_keeps_places(
    v: ManualView,
    key: Option<usize>,
    waker: Waker,
    post: ManualView,
    new_key: Option<usize>,
    r: Poll<()>,
)
    requires
        v.valid(),
        v.waiters.owns(key),
        v.polled_release_first(key, waker, post, new_key, r) || v.polled_door_first(
            key,
            waker,
            post,
            new_key,
            r,
        ),
        r is Pending,
    ensures
        !post.is_set,
        post.owed == v.owed,
        new_key is Some && post.waiters.notified == v.waiters.notified,
        (key is Some ==> new_key == key && post.waiters.waiting.len() == v.waiters.waiting.len()),
        (key is None ==> {
            &&& post.waiters.waiting.len() == v.waiters.waiting.len() + 1
            &&& post.waiters.waiting.last().0 == new_key->0
            &&& !v.waiters.notified.contains(new_key->0)
            &&& forall|i: int|
                0 <= i < v.waiters.waiting.len() ==> (#[trigger] v.waiters.waiting[i]).0 != new_key->0
        }),
        (forall|i: int|
            0 <= i < v.waiters.waiting.len() ==> (#[trigger] post.waiters.waiting[i]).0 == v.waiters.waiting[i].0),
        (exists|i: int|
            0 <= i < post.waiters.waiting.len() && (#[trigger] post.waiters.waiting[i]).0 == new_key->0),
        (forall|i: int|
            0 <= i < post.waiters.waiting.len() && (#[trigger] post.waiters.waiting[i]).0 == new_key->0
                ==> post.waiters.waiting[i].1 == waker),
        (forall|i: int|
            0 <= i < v.waiters.waiting.len() && (#[trigger] post.waiters.waiting[i]).0 != new_key->0
                ==> post.waiters.waiting[i] == v.waiters.waiting[i]),
{
    law_registered_keeps_places(v.waiters, key, waker, post.waiters, new_key);
}

/// An operation on a manual-reset event, with what the caller puts in and gets out.
pub enum ManualOp {
    /// The door is opened.
    Open,
    /// One waiter that is owed a release gets it.
    Release,
    /// The door is closed.
    Reset,
    /// A waiter that recorded `key` is polled, and from then on records `new_key`.
    PollWait { key: Option<usize>, waker: Waker, new_key: Option<usize>, r: Poll<()> },
    /// A waiter that recorded `key` is dropped.
    DropWait { key: Option<usize> },
}

impl ManualOp {
    /// The operation leads from `pre` to `post`.
    pub open spec fn leads(self, pre: ManualView, post: ManualView) -> bool {
        match self {
            ManualOp::Open => post == pre.after_open(),
            ManualOp::Release => post == pre.after_release(),
            ManualOp::Reset => post == pre.after_reset(),
            ManualOp::PollWait { key, waker, new_key, r } => pre.waiters.owns(key) && (
            pre.polled_release_first(key, waker, post, new_key, r) || pre.polled_door_first(
                key,
                waker,
                post,
                new_key,
                r,
            )),
            ManualOp::DropWait { key } => pre.waiters.owns(key) && post == pre.after_drop(key),
        }
    }

    /// The operation drops the waiter with key `k`.
    pub open spec fn drops(self, k: usize) -> bool {
        self == (ManualOp::DropWait { key: Some(k) })
    }
}

/// A waiter that is owed a release stays so until it gets it or is dropped, whatever else is
/// done to the event. A waiter that is not owed a release comes to be owed one only when the
/// door is opened, and no release reaches it before.
pub proof fn law_operation_skips_no_one(pre: ManualView, op: ManualOp, post: ManualView, k: usize)
    requires
        pre.valid(),
        op.leads(pre, post),
    ensures
        post.valid(),
        pre.is_owed(k) ==> post.is_owed(k) || post.waiters.is_notified(k) || op.drops(k),
        pre.is_owed(k) && !post.is_owed(k) && !op.drops(k) ==> op is Release,
        !pre.is_owed(k) && !(op is Open) ==> !post.is_owed(k),
        !pre.is_owed(k) && post.waiters.is_notified(k) ==> pre.waiters.is_notified(k),
{
    match op {
        ManualOp::Open => {
            law_open_owes_everyone(pre);
            if pre.is_owed(k) {
                let i = choose|i: int|
                    0 <= i < pre.owed && (#[trigger] pre.waiters.waiting[i]).0 == k;
                assert(pre.waiters.is_waiting(k));
            }
        },
        ManualOp::Release => {
            law_release_reaches_the_owed(pre);
        },
        ManualOp::Reset => {
            law_reset_takes_nothing_back(pre);
        },
        ManualOp::PollWait { key, waker, new_key, r } => {
            law_poll(pre, key, waker, post, new_key, r);
        },
        ManualOp::DropWait { key } => {
            law_drop_skips_no_one(pre, key);
        },
    }
}

/// The operations `ops` lead through `states`, of an event that starts unset.
pub open spec fn manual_history(states: Seq<ManualView>, ops: Seq<ManualOp>) -> bool {
    &&& states.len() == ops.len() + 1
    &&& states[0] == ManualView::unset()
    &&& forall|i: int| 0 <= i < ops.len() ==> (#[trigger] ops[i]).leads(states[i], states[i + 1])
}

/// Every state that an event can come to is valid.
pub proof fn law_history_is_valid(states: Seq<ManualView>, ops: Seq<ManualOp>, n: nat)
    requires
        manual_history(states, ops),
        n <= ops.len(),
    ensures
        states[n as int].valid(),
    decreases n,
{
    if n > 0 {
        law_history_is_valid(states, ops, (n - 1) as nat);
        assert(ops[n - 1].leads(states[n - 1], states[n as int]));
        law_operation_skips_no_one(states[n - 1], ops[n - 1], states[n as int], 0);
    }
}

/// Setting the event reaches everyone who was waiting, whatever wakers do to the event while it
/// is being set: whoever waits when the door is opened at `from` has been released, or was
/// dropped, by the time `to` at which there is no one left to release.
pub proof fn law_set_reaches_everyone(
    states: Seq<ManualView>,
    ops: Seq<ManualOp>,
    from: int,
    to: int,
    k: usize,
)
    requires
        manual_history(states, ops),
        0 <= from < to <= ops.len(),
        ops[from] is Open,
        states[from].waiters.is_waiting(k),
        states[to].next() is None,
    ensures
        exists|i: int| from < i <= to && #[trigger] states[i].waiters.is_notified(k)
            || from < i < to && ops[i].drops(k),
{
    law_history_is_valid(states, ops, from as nat);
    law_open_owes_everyone(states[from]);
    assert(ops[from].leads(states[from], states[from + 1]));
    assert(states[from + 1].is_owed(k));
    if !(exists|i: int|
        from < i <= to && #[trigger] states[i].waiters.is_notified(k) || from < i < to
            && ops[i].drops(k)) {
        assert forall|i: int| from < i < to implies !ops[i].drops(k) by {
            assert(!states[i].waiters.is_notified(k));
        }
        lemma_owed_until(states, ops, from + 1, to, k);
        law_history_is_valid(states, ops, to as nat);
        law_release_reaches_the_owed(states[to]);
    }
}

proof fn lemma_owed_until(
    states: Seq<ManualView>,
    ops: Seq<ManualOp>,
    from: int,
    to: int,
    k: usize,
)
    requires
        manual_history(states, ops),
        0 <= from <= to <= ops.len(),
        states[from].is_owed(k),
        forall|i: int| from <= i <= to ==> !#[trigger] states[i].waiters.is_notified(k),
        forall|i: int| from <= i < to ==> !#[trigger] ops[i].drops(k),
    ensures
        states[to].is_owed(k),
    decreases to - from,
{
    if from < to {
        law_history_is_valid(states, ops, from as nat);
        assert(ops[from].leads(states[from], states[from + 1]));
        law_operation_skips_no_one(states[from], ops[from], states[from + 1], k);
        assert(!states[from + 1].waiters.is_notified(k));
        assert(!ops[from].drops(k));
        lemma_owed_until(states, ops, from + 1, to, k);
    }
}

} // verus!

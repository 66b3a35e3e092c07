//! What a manual-reset event is whose waiters stay in the queue until they look again.
//!
//! Setting such an event wakes its waiters but releases none of them: a woken waiter that
//! looks again finds the door as it is by then. If the event was reset in between, the
//! waiter goes back to waiting.
use std::task::Waker;
use vstd::prelude::*;

use crate::waiters::{
    law_empty, law_leaving_disturbs_no_one, law_registered_keeps_places, lemma_pushed,
    lemma_stored, lemma_without, Poll, WaitersView,
};

verus! {

/// The state of the event; `W` is what is stored for a waiter.
#[verifier::ext_equal]
pub struct DoorView<W> {
    pub is_set: bool,
    pub waiters: WaitersView<W>,
}

impl<W> DoorView<W> {
    /// An event that was never set and never waited for.
    pub open spec fn unset() -> Self {
        DoorView { is_set: false, waiters: WaitersView::empty() }
    }

    /// No waiter is ever released on its own.
    pub open spec fn valid(self) -> bool {
        self.waiters.valid() && self.waiters.notified.len() == 0
    }

    /// The event after the door was opened.
    pub open spec fn after_open(self) -> Self {
        DoorView { is_set: true, ..self }
    }

    /// The event after the door was closed.
    pub open spec fn after_reset(self) -> Self {
        DoorView { is_set: false, ..self }
    }

    /// The event after a waiter left it.
    pub open spec fn after_drop(self, key: Option<usize>) -> Self {
        match key {
            None => self,
            Some(k) => DoorView { waiters: self.waiters.without(k), ..self },
        }
    }

    /// What polling does: an open door lets the waiter leave, a closed one has it wait with
    /// `w` stored.
    pub open spec fn polled(
        self,
        key: Option<usize>,
        w: W,
        post: Self,
        new_key: Option<usize>,
        r: Poll<()>,
    ) -> bool {
        if self.is_set {
            r == Poll::Ready(()) && post == self.after_drop(key) && new_key is None
        } else {
            &&& r == Poll::<()>::Pending
            &&& post.is_set == self.is_set
            &&& self.waiters.registered(key, w, post.waiters, new_key)
        }
    }
}

/// Polling keeps the event valid, keeps the waiter's record fitting, and keeps every other
/// waiter. It completes if and only if the door is open at that time; a waiter that was
/// woken but finds the door closed again waits on.
pub proof fn law_poll<W>(
    v: DoorView<W>,
    key: Option<usize>,
    w: W,
    post: DoorView<W>,
    new_key: Option<usize>,
    r: Poll<()>,
)
    requires
        v.valid(),
        v.waiters.owns(key),
        v.polled(key, w, post, new_key, r),
    ensures
        post.valid(),
        post.waiters.owns(new_key),
        post.is_set == v.is_set,
        r == Poll::Ready(()) <==> v.is_set,
        r == Poll::<()>::Pending ==> new_key is Some && post.waiters.is_waiting(new_key->0),
        forall|k: usize|
            Some(k) != key && Some(k) != new_key ==> #[trigger] post.waiters.has(k)
                == v.waiters.has(k),
{
    if r == Poll::<()>::Pending {
        match key {
            None => lemma_pushed(v.waiters, new_key->0, w),
            Some(k) => lemma_stored(v.waiters, k, w),
        }
    } else {
        law_drop(v, key);
    }
}

/// A waiter that leaves keeps the event valid and every other waiter in it.
pub proof fn law_drop<W>(v: DoorView<W>, key: Option<usize>)
    requires
        v.valid(),
        v.waiters.owns(key),
    ensures
        v.after_drop(key).valid(),
        forall|k: usize|
            v.after_drop(key).waiters.has(k) == (v.waiters.has(k) && Some(k) != key),
{
    if key is Some {
        lemma_without(v.waiters, key->0);
    }
}

/// The wakers that are stored in a queue, oldest first.
pub open spec fn armed(q: Seq<(usize, Option<Waker>)>) -> Seq<Waker>
    decreases q.len(),
{
    if q.len() == 0 {
        Seq::empty()
    } else {
        match q[0].1 {
            Some(w) => seq![w] + armed(q.drop_first()),
            None => armed(q.drop_first()),
        }
    }
}

/// The place of the first waiter in a queue that has a waker stored; the length of the
/// queue if there is none.
pub open spec fn first_armed(q: Seq<(usize, Option<Waker>)>) -> int
    decreases q.len(),
{
    if q.len() == 0 {
        0
    } else if q[0].1 is Some {
        0
    } else {
        1 + first_armed(q.drop_first())
    }
}

/// The queue after every stored waker was taken.
pub open spec fn disarmed(q: Seq<(usize, Option<Waker>)>) -> Seq<(usize, Option<Waker>)> {
    q.map_values(|e: (usize, Option<Waker>)| (e.0, None::<Waker>))
}

impl DoorView<Option<Waker>> {
    /// The waker to wake next: that of the first waiter that has one stored.
    pub open spec fn next(self) -> Option<Waker> {
        let q = self.waiters.waiting;
        if first_armed(q) < q.len() {
            q[first_armed(q)].1
        } else {
            None
        }
    }

    /// The event after the waker to wake next was taken.
    pub open spec fn after_take(self) -> Self {
        let q = self.waiters.waiting;
        let i = first_armed(q);
        if i < q.len() {
            DoorView {
                waiters: WaitersView { waiting: q.update(i, (q[i].0, None)), ..self.waiters },
                ..self
            }
        } else {
            self
        }
    }

    /// The event after it was set and every stored waker was taken.
    pub open spec fn after_set(self) -> Self {
        DoorView {
            is_set: true,
            waiters: WaitersView { waiting: disarmed(self.waiters.waiting), ..self.waiters },
        }
    }
}

/// A place up to which no waker is stored and where one is is the first such place.
pub proof fn lemma_first_armed(q: Seq<(usize, Option<Waker>)>, i: int)
    requires
        0 <= i <= q.len(),
        forall|j: int| 0 <= j < i ==> (#[trigger] q[j]).1 is None,
        i < q.len() ==> q[i].1 is Some,
    ensures
        first_armed(q) == i,
    decreases q.len(),
{
    if i > 0 {
        assert(q[0].1 is None);
        assert forall|j: int| 0 <= j < i - 1 implies (#[trigger] q.drop_first()[j]).1 is None by {
            assert(q.drop_first()[j] == q[j + 1]);
        }
        lemma_first_armed(q.drop_first(), i - 1);
    }
}

/// Waking in the order of the queue, one waiter at a time, wakes each waiter that has a
/// waker stored once: taking the next waker takes the first of those that are stored and
/// leaves the others.
pub proof fn law_take_in_order(q: Seq<(usize, Option<Waker>)>)
    ensures
        0 <= first_armed(q) <= q.len(),
        armed(q).len() == 0 <==> first_armed(q) == q.len(),
        first_armed(q) < q.len() ==> {
            let i = first_armed(q);
            &&& q[i].1 == Some(armed(q)[0])
            &&& armed(q.update(i, (q[i].0, None))) == armed(q).drop_first()
            &&& disarmed(q.update(i, (q[i].0, None))) == disarmed(q)
        },
        first_armed(q) == q.len() ==> disarmed(q) == q,
    decreases q.len(),
{
    if q.len() > 0 {
        let rest = q.drop_first();
        law_take_in_order(rest);
        let i = first_armed(q);
        if q[0].1 is Some {
            let u = q.update(0, (q[0].0, None));
            assert(u.drop_first() =~= rest);
            assert(armed(q).drop_first() =~= armed(rest));
            assert(disarmed(u) =~= disarmed(q));
        } else if i < q.len() {
            let u = q.update(i, (q[i].0, None));
            assert(u.drop_first() =~= rest.update(i - 1, (rest[i - 1].0, None)));
            assert(u[0] == q[0]);
            assert(disarmed(u) =~= disarmed(q));
        } else {
            assert forall|j: int| 0 <= j < q.len() implies disarmed(q)[j] == q[j] by {
                if j > 0 {
                    assert(disarmed(rest)[j - 1] == rest[j - 1]);
                    assert(rest[j - 1] == q[j]);
                }
            }
            assert(disarmed(q) =~= q);
        }
    } else {
        assert(disarmed(q) =~= q);
    }
}

/// Setting the event opens the door, keeps every waiter in its place and leaves no waker
/// to wake.
pub proof fn law_set_keeps_waiters(v: DoorView<Option<Waker>>)
    requires
        v.valid(),
    ensures
        v.after_set().valid(),
        v.after_set().is_set,
        forall|k: usize| v.after_set().waiters.has(k) == v.waiters.has(k),
        v.after_set().next() is None,
{
    let q = v.waiters.waiting;
    let p = v.after_set();
    assert forall|i: int| 0 <= i < q.len() implies (#[trigger] p.waiters.waiting[i]).0
        == q[i].0 by {}
    assert forall|i: int, j: int| 0 <= i < j < p.waiters.waiting.len() implies (
    #[trigger] p.waiters.waiting[i]).0 != (#[trigger] p.waiters.waiting[j]).0 by {
        assert(q[i].0 != q[j].0);
    }
    assert forall|k: usize| p.waiters.has(k) == v.waiters.has(k) by {
        if v.waiters.is_waiting(k) {
            let i = v.waiters.position(k);
            assert(p.waiters.waiting[i].0 == k);
        }
        if p.waiters.is_waiting(k) {
            let i = p.waiters.position(k);
            assert(q[i].0 == k);
        }
    }
    lemma_first_armed(p.waiters.waiting, q.len() as int);
}

/// Resetting and dropping keep the event valid.
pub proof fn law_reset<W>(v: DoorView<W>)
    requires
        v.valid(),
    ensures
        v.after_reset().valid(),
        v.after_reset().waiters == v.waiters,
        !v.after_reset().is_set,
        v.after_open().valid(),
{
}

/// An event that no one has used is closed and has no one who waits.
pub proof fn law_starts_unset<W>()
    ensures
        !DoorView::<W>::unset().is_set,
        DoorView::<W>::unset().waiters.waiting.len() == 0,
        forall|k: usize| !(#[trigger] DoorView::<W>::unset().waiters.notified.contains(k)),
{
    law_empty::<W>();
}

/// Opening and closing the door moves no one, and changes nothing that is stored.
pub proof fn law_door_moves_no_one<W>(v: DoorView<W>)
    ensures
        v.after_open().is_set,
        v.after_open().waiters.waiting == v.waiters.waiting,
        v.after_open().waiters.notified == v.waiters.notified,
        !v.after_reset().is_set,
        v.after_reset().waiters.waiting == v.waiters.waiting,
        v.after_reset().waiters.notified == v.waiters.notified,
{
}

/// A waiter that is dropped takes no one's place.
pub proof fn law_drop_disturbs_no_one<W>(v: DoorView<W>, key: Option<usize>)
    requires
        v.valid(),
        v.waiters.owns(key),
    ensures
        key is None ==> v.after_drop(key) == v,
        v.after_drop(key).is_set == v.is_set,
        v.after_drop(key).waiters.notified == v.waiters.notified,
        key is Some ==> exists|i: int|
            {
                &&& 0 <= i < v.waiters.waiting.len()
                &&& (#[trigger] v.waiters.waiting[i]).0 == key->0
                &&& v.after_drop(key).waiters.waiting == v.waiters.waiting.remove(i)
            },
{
    assert(v.waiters.notified =~= Set::empty());
    if key is Some {
        law_leaving_disturbs_no_one(v.waiters, key->0);
        let i = v.waiters.position(key->0);
        assert(v.waiters.waiting[i].0 == key->0);
    }
}

/// A poll has to wait if and only if the door is closed. One that gets through leaves the list, and
/// the door as it is.
pub proof fn law_poll_passes_open_door<W>(
    v: DoorView<W>,
    key: Option<usize>,
    w: W,
    post: DoorView<W>,
    new_key: Option<usize>,
    r: Poll<()>,
)
    requires
        v.valid(),
        v.waiters.owns(key),
        v.polled(key, w, post, new_key, r),
    ensures
        r is Pending <==> !v.is_set,
        post.is_set == v.is_set,
        r is Ready ==> {
            &&& new_key is None
            &&& post.waiters.notified == v.waiters.notified
            &&& key is None ==> post.waiters.waiting == v.waiters.waiting
            &&& key is Some ==> exists|i: int|
                {
                    &&& 0 <= i < v.waiters.waiting.len()
                    &&& (#[trigger] v.waiters.waiting[i]).0 == key->0
                    &&& post.waiters.waiting == v.waiters.waiting.remove(i)
                }
        },
{
    law_drop_disturbs_no_one(v, key);
}

/// A poll that has to wait stores what it was handed, whether or not the waiter waited before; a
/// waiter that waited keeps its place, another comes behind all who wait, and no one else is touched.
pub proof fn law_pending_poll_keeps_places<W>(
    v: DoorView<W>,
    key: Option<usize>,
    w: W,
    post: DoorView<W>,
    new_key: Option<usize>,
    r: Poll<()>,
)
    requires
        v.valid(),
        v.waiters.owns(key),
        v.polled(key, w, post, new_key, r),
        r is Pending,
    ensures
        !post.is_set,
        new_key is Some && post.waiters.notified == v.waiters.notified,
        (key is Some ==> new_key == key && post.waiters.waiting.len() == v.waiters.waiting.len()),
        (key is None ==> {
            &&& post.waiters.waiting.len() == v.waiters.waiting.len() + 1
            &&& post.waiters.waiting.last().0 == new_key->0
            &&& !v.waiters.notified.contains(new_key->0)
            &&& forall|i: int|
                0 <= i < v.waiters.waiting.len() ==> (#[trigger] v.waiters.waiting[i]).0 != new_key->0
        }),
        (forall|i: int|
            0 <= i < v.waiters.waiting.len() ==> (#[trigger] post.waiters.waiting[i]).0 == v.waiters.waiting[i].0),
        (exists|i: int|
            0 <= i < post.waiters.waiting.len() && (#[trigger] post.waiters.waiting[i]).0 == new_key->0),
        (forall|i: int|
            0 <= i < post.waiters.waiting.len() && (#[trigger] post.waiters.waiting[i]).0 == new_key->0
                ==> post.waiters.waiting[i].1 == w),
        (forall|i: int|
            0 <= i < v.waiters.waiting.len() && (#[trigger] post.waiters.waiting[i]).0 != new_key->0
                ==> post.waiters.waiting[i] == v.waiters.waiting[i]),
{
    assert(v.waiters.notified =~= Set::empty());
    law_registered_keeps_places(v.waiters, key, w, post.waiters, new_key);
}

/// Whoever has a waker stored is woken, oldest first. The next waker that is taken is that of the
/// first waiter with one stored, and from then on none is stored for that waiter; nothing is handed out
/// only if none is stored for anyone.
pub proof fn law_next_is_the_first_stored(v: DoorView<Option<Waker>>)
    ensures
        v.after_take().is_set == v.is_set,
        v.after_take().waiters.notified == v.waiters.notified,
        v.next() is None ==> {
            &&& v.after_take() == v
            &&& forall|i: int|
                0 <= i < v.waiters.waiting.len() ==> (#[trigger] v.waiters.waiting[i]).1 is None
        },
        v.next() is Some ==> exists|i: int|
            {
                &&& 0 <= i < v.waiters.waiting.len()
                &&& (#[trigger] v.waiters.waiting[i]).1 == v.next()
                &&& forall|j: int| 0 <= j < i ==> (#[trigger] v.waiters.waiting[j]).1 is None
                &&& v.after_take().waiters.waiting == v.waiters.waiting.update(
                    i,
                    (v.waiters.waiting[i].0, None),
                )
            },
{
    let q = v.waiters.waiting;
    lemma_before_first_armed(q);
    law_take_in_order(q);
    if first_armed(q) < q.len() {
        assert(q[first_armed(q)].1 == v.next());
    }
}

proof fn lemma_before_first_armed(q: Seq<(usize, Option<Waker>)>)
    ensures
        0 <= first_armed(q) <= q.len(),
        forall|j: int| 0 <= j < first_armed(q) ==> (#[trigger] q[j]).1 is None,
        first_armed(q) < q.len() ==> q[first_armed(q)].1 is Some,
    decreases q.len(),
{
    if q.len() > 0 && q[0].1 is None {
        let rest = q.drop_first();
        lemma_before_first_armed(rest);
        assert forall|j: int| 0 <= j < first_armed(q) implies (#[trigger] q[j]).1 is None by {
            if j > 0 {
                assert(rest[j - 1] == q[j]);
            }
        }
    }
}

/// Setting a closed event opens the door and wakes everyone who has a waker stored: the wakers that
/// are handed out are those in the queue, each of them once and in the order of the queue, and from
/// then on none is stored for anyone. No one is moved.
pub proof fn law_set_wakes_everyone(v: DoorView<Option<Waker>>)
    ensures
        v.after_set().is_set,
        v.after_set().waiters.notified == v.waiters.notified,
        v.after_set().waiters.waiting.len() == v.waiters.waiting.len(),
        forall|i: int|
            0 <= i < v.waiters.waiting.len() ==> (#[trigger] v.after_set().waiters.waiting[i]) == (
                v.waiters.waiting[i].0,
                None::<Waker>,
            ),
        exists|places: Seq<int>|
            {
                &&& #[trigger] places.len() == armed(v.waiters.waiting).len()
                &&& forall|j: int|
                    0 <= j < places.len() ==> 0 <= #[trigger] places[j] < v.waiters.waiting.len()
                        && v.waiters.waiting[places[j]].1 == Some(armed(v.waiters.waiting)[j])
                &&& forall|j: int, l: int|
                    0 <= j < l < places.len() ==> #[trigger] places[j] < #[trigger] places[l]
                &&& forall|i: int|
                    0 <= i < v.waiters.waiting.len() && (#[trigger] v.waiters.waiting[i]).1 is Some
                        ==> places.contains(i)
            },
{
    let places = lemma_armed_places(v.waiters.waiting);
}

proof fn lemma_armed_places(q: Seq<(usize, Option<Waker>)>) -> (places: Seq<int>)
    ensures
        places.len() == armed(q).len(),
        forall|j: int|
            0 <= j < places.len() ==> 0 <= #[trigger] places[j] < q.len() && q[places[j]].1 == Some(
                armed(q)[j],
            ),
        forall|j: int, l: int|
            0 <= j < l < places.len() ==> #[trigger] places[j] < #[trigger] places[l],
        forall|i: int| 0 <= i < q.len() && (#[trigger] q[i]).1 is Some ==> places.contains(i),
    decreases q.len(),
{
    if q.len() == 0 {
        Seq::empty()
    } else {
        let rest = q.drop_first();
        let behind = lemma_armed_places(rest);
        let moved = Seq::new(behind.len(), |j: int| behind[j] + 1);
        let places = if q[0].1 is Some {
            seq![0int] + moved
        } else {
            moved
        };
        let first: int = if q[0].1 is Some {
            1
        } else {
            0
        };
        assert forall|j: int| 0 <= j < places.len() implies 0 <= #[trigger] places[j] < q.len()
            && q[places[j]].1 == Some(armed(q)[j]) by {
            if j >= first {
                assert(places[j] == behind[j - first] + 1);
                assert(rest[behind[j - first]] == q[places[j]]);
                assert(armed(q)[j] == armed(rest)[j - first]);
            }
        }
        assert forall|j: int, l: int| 0 <= j < l < places.len() implies #[trigger] places[j]
            < #[trigger] places[l] by {
            assert(places[l] == behind[l - first] + 1);
            if j >= first {
                assert(places[j] == behind[j - first] + 1);
            }
        }
        assert forall|i: int| 0 <= i < q.len() && (
        #[trigger] q[i]).1 is Some implies places.contains(i) by {
            if i == 0 {
                assert(places[0] == 0);
            } else {
                assert(rest[i - 1] == q[i]);
                assert(behind.contains(i - 1));
                let j = choose|j: int| 0 <= j < behind.len() && behind[j] == i - 1;
                assert(places[j + first] == i);
            }
        }
        places
    }
}

} // verus!

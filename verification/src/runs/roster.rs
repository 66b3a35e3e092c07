//! A list of waiters together with the futures that wait.
use vstd::prelude::*;

use crate::waiters::{
    lemma_popped, lemma_position, lemma_pushed, lemma_stored, lemma_without, WaitersView,
};

verus! {

/// A list of waiters, and the key that each future has recorded.
#[verifier::ext_equal]
pub struct Roster<W> {
    pub waiters: WaitersView<W>,
    pub futures: Map<nat, Option<usize>>,
}

impl<W> Roster<W> {
    /// Every future has a key of its own, if any, that is in use.
    pub open spec fn valid(self) -> bool {
        &&& self.waiters.valid()
        &&& forall|f: nat| #[trigger]
            self.futures.contains_key(f) ==> self.waiters.owns(self.futures[f])
        &&& forall|f: nat, g: nat|
            #![trigger self.futures[f], self.futures[g]]
            self.futures.contains_key(f) && self.futures.contains_key(g) && self.futures[f] is Some
                && self.futures[f] == self.futures[g] ==> f == g
    }

    /// The future `f` waits at place `i` of the queue.
    pub open spec fn waits_at(self, f: nat, i: int) -> bool {
        &&& self.futures.contains_key(f)
        &&& 0 <= i < self.waiters.waiting.len()
        &&& self.futures[f] == Some(self.waiters.waiting[i].0)
    }

    /// The future `f` was released and has not noticed yet.
    pub open spec fn is_notified(self, f: nat) -> bool {
        &&& self.futures.contains_key(f)
        &&& self.futures[f] is Some
        &&& self.waiters.is_notified(self.futures[f]->0)
    }

    /// The same futures wait in the same places, with the same stored for them, and the same were
    /// released: only the keys may differ.
    pub open spec fn alike(self, other: Self) -> bool {
        &&& self.waiters.waiting.len() == other.waiters.waiting.len()
        &&& forall|i: int|
            0 <= i < self.waiters.waiting.len() ==> (#[trigger] self.waiters.waiting[i]).1
                == other.waiters.waiting[i].1
        &&& self.futures.dom() == other.futures.dom()
        &&& forall|f: nat| #[trigger]
            self.futures.contains_key(f) ==> (self.futures[f] is Some) == (
            other.futures[f] is Some)
        &&& forall|f: nat, i: int| #[trigger] self.waits_at(f, i) == other.waits_at(f, i)
        &&& forall|f: nat| #[trigger] self.is_notified(f) == other.is_notified(f)
    }

    /// The roster after the future `f`, which was in the list, left it.
    pub open spec fn without(self, f: nat) -> Self {
        Roster {
            waiters: self.waiters.without(self.futures[f]->0),
            futures: self.futures.insert(f, None),
        }
    }

    /// The roster after the oldest waiter was released.
    pub open spec fn popped(self) -> Self {
        Roster { waiters: self.waiters.popped(), ..self }
    }

    /// The roster after every waiter was released.
    pub open spec fn emptied(self) -> Self {
        Roster {
            waiters: WaitersView { waiting: Seq::empty(), notified: self.waiters.keys() },
            ..self
        }
    }

    /// The roster after the future `f`, which was not in the list, joined the queue.
    pub open spec fn joined(self, f: nat, key: usize, w: W) -> Self {
        Roster {
            waiters: self.waiters.pushed(key, w),
            futures: self.futures.insert(f, Some(key)),
        }
    }

    /// The roster after what is stored for the waiting future `f` became `w`.
    pub open spec fn stored(self, f: nat, w: W) -> Self {
        Roster { waiters: self.waiters.stored(self.futures[f]->0, w), ..self }
    }

    /// The roster after a future was made that is not in the list.
    pub open spec fn made(self, f: nat) -> Self {
        Roster { futures: self.futures.insert(f, None), ..self }
    }

    /// The roster after the future `f`, which is not in the list, was forgotten.
    pub open spec fn forgotten(self, f: nat) -> Self {
        Roster { futures: self.futures.remove(f), ..self }
    }

    /// In `post` the same futures are in the same places under the same keys.
    pub open spec fn moved_no_one(self, post: Self) -> bool {
        &&& post.futures == self.futures
        &&& post.waiters.notified == self.waiters.notified
        &&& post.waiters.waiting.len() == self.waiters.waiting.len()
        &&& forall|i: int|
            0 <= i < self.waiters.waiting.len() ==> (#[trigger] post.waiters.waiting[i]).0
                == self.waiters.waiting[i].0
    }

    /// `post` is the roster after the future `f` was registered with `w`.
    pub open spec fn registered(self, f: nat, w: W, post: Self) -> bool {
        &&& self.futures.contains_key(f)
        &&& post.futures == self.futures.insert(f, post.futures[f])
        &&& self.waiters.registered(self.futures[f], w, post.waiters, post.futures[f])
    }
}

/// A future with a key was released, or waits in one place.
pub proof fn lemma_place<W>(s: Roster<W>, f: nat) -> (i: int)
    requires
        s.valid(),
        s.futures.contains_key(f),
        s.futures[f] is Some,
    ensures
        s.is_notified(f) ==> {
            &&& !s.waiters.is_waiting(s.futures[f]->0)
            &&& forall|j: int| !s.waits_at(f, j)
        },
        !s.is_notified(f) ==> {
            &&& s.waiters.is_waiting(s.futures[f]->0)
            &&& i == s.waiters.position(s.futures[f]->0)
            &&& s.waits_at(f, i)
            &&& forall|j: int| s.waits_at(f, j) ==> j == i
        },
{
    let k = s.futures[f]->0;
    assert(s.waiters.owns(s.futures[f]));
    if s.is_notified(f) {
        if s.waiters.is_waiting(k) {
            let j = s.waiters.position(k);
            assert(!s.waiters.notified.contains(s.waiters.waiting[j].0));
        }
        assert forall|j: int| !s.waits_at(f, j) by {
            if s.waits_at(f, j) {
                assert(!s.waiters.notified.contains(s.waiters.waiting[j].0));
            }
        }
        0
    } else {
        let i = s.waiters.position(k);
        assert forall|j: int| s.waits_at(f, j) implies j == i by {
            lemma_position(s.waiters, k, j);
        }
        i
    }
}

/// A future that was released and notices leaves the queue as it is.
pub proof fn lemma_notice_leaves_the_queue<W>(s: Roster<W>, f: nat)
    requires
        s.valid(),
        s.is_notified(f),
    ensures
        s.without(f).waiters.waiting == s.waiters.waiting,
{
    let i = lemma_place(s, f);
}

/// In rosters that are alike, a future waits in the same place.
pub proof fn lemma_same_place<W>(a: Roster<W>, b: Roster<W>, f: nat) -> (i: int)
    requires
        a.valid(),
        b.valid(),
        a.alike(b),
        a.futures.contains_key(f),
        a.futures[f] is Some,
        !a.is_notified(f),
    ensures
        a.waits_at(f, i),
        b.waits_at(f, i),
        a.waiters.position(a.futures[f]->0) == i,
        b.waiters.position(b.futures[f]->0) == i,
        a.waiters.is_waiting(a.futures[f]->0),
        b.waiters.is_waiting(b.futures[f]->0),
{
    let i = lemma_place(a, f);
    assert(b.futures.contains_key(f));
    assert(a.is_notified(f) == b.is_notified(f));
    let j = lemma_place(b, f);
    assert(a.waits_at(f, i) == b.waits_at(f, i));
    i
}

pub proof fn lemma_without_valid<W>(s: Roster<W>, f: nat)
    requires
        s.valid(),
        s.futures.contains_key(f),
        s.futures[f] is Some,
    ensures
        s.without(f).valid(),
        forall|g: nat| #[trigger]
            s.without(f).is_notified(g) == (s.is_notified(g) && g != f),
{
    let k = s.futures[f]->0;
    assert(s.waiters.owns(s.futures[f]));
    lemma_without(s.waiters, k);
    let i = lemma_place(s, f);
    let t = s.without(f);
    assert forall|g: nat| #[trigger] t.futures.contains_key(g) implies t.waiters.owns(
        t.futures[g],
    ) by {
        if g != f {
            assert(s.futures.contains_key(g));
            assert(s.waiters.owns(s.futures[g]));
            if s.futures[g] is Some {
                assert(s.futures[g] != s.futures[f]);
            }
        }
    }
    assert forall|g: nat| #[trigger] t.is_notified(g) == (s.is_notified(g) && g != f) by {
        if s.futures.contains_key(g) && g != f && s.futures[g] is Some {
            assert(s.futures[g] != s.futures[f]);
        }
    }
}

/// Rosters that are alike stay so when the same future leaves their lists.
pub proof fn lemma_without_alike<W>(a: Roster<W>, b: Roster<W>, f: nat)
    requires
        a.valid(),
        b.valid(),
        a.alike(b),
        a.futures.contains_key(f),
        a.futures[f] is Some,
    ensures
        a.without(f).valid(),
        b.without(f).valid(),
        a.without(f).alike(b.without(f)),
{
    lemma_without_valid(a, f);
    lemma_without_valid(b, f);
    let i = lemma_place(a, f);
    let j = lemma_place(b, f);
    assert(a.is_notified(f) == b.is_notified(f));
    if !a.is_notified(f) {
        assert(a.waits_at(f, i) == b.waits_at(f, i));
        assert(i == j);
    }
    let (a2, b2) = (a.without(f), b.without(f));
    assert(a2.futures.dom() =~= b2.futures.dom());
    assert forall|g: nat, p: int| #[trigger] a2.waits_at(g, p) == b2.waits_at(g, p) by {
        let q = if !a.is_notified(f) && p >= i {
            p + 1
        } else {
            p
        };
        assert(a.waits_at(g, q) == b.waits_at(g, q));
        assert(a.waits_at(f, q) == b.waits_at(f, q));
    }
    assert forall|g: nat| #[trigger] a2.is_notified(g) == b2.is_notified(g) by {
        assert(a.is_notified(g) == b.is_notified(g));
    }
}

pub proof fn lemma_popped_valid<W>(s: Roster<W>)
    requires
        s.valid(),
        s.waiters.waiting.len() > 0,
    ensures
        s.popped().valid(),
        forall|g: nat| #[trigger]
            s.popped().is_notified(g) == (s.is_notified(g) || s.waits_at(g, 0)),
{
    let t = s.popped();
    lemma_popped(s.waiters);
    assert forall|g: nat| #[trigger] t.futures.contains_key(g) implies t.waiters.owns(
        t.futures[g],
    ) by {
        assert(s.waiters.owns(s.futures[g]));
    }
}

/// Rosters that are alike stay so when their oldest waiters are released.
pub proof fn lemma_popped_alike<W>(a: Roster<W>, b: Roster<W>)
    requires
        a.valid(),
        b.valid(),
        a.alike(b),
        a.waiters.waiting.len() > 0,
    ensures
        a.popped().valid(),
        b.popped().valid(),
        a.popped().alike(b.popped()),
        a.waiters.waiting[0].1 == b.waiters.waiting[0].1,
{
    let (a2, b2) = (a.popped(), b.popped());
    lemma_popped_valid(a);
    lemma_popped_valid(b);
    assert(a.waiters.waiting[0].1 == b.waiters.waiting[0].1);
    assert forall|i: int| 0 <= i < a2.waiters.waiting.len() implies (
    #[trigger] a2.waiters.waiting[i]).1 == b2.waiters.waiting[i].1 by {
        assert(a.waiters.waiting[i + 1].1 == b.waiters.waiting[i + 1].1);
    }
    assert forall|g: nat, p: int| #[trigger] a2.waits_at(g, p) == b2.waits_at(g, p) by {
        assert(a.waits_at(g, p + 1) == b.waits_at(g, p + 1));
    }
    assert forall|g: nat| #[trigger] a2.is_notified(g) == b2.is_notified(g) by {
        assert(a.is_notified(g) == b.is_notified(g));
        assert(a.waits_at(g, 0) == b.waits_at(g, 0));
    }
}

pub proof fn lemma_emptied_valid<W>(s: Roster<W>)
    requires
        s.valid(),
        s.emptied().waiters.valid(),
    ensures
        s.emptied().valid(),
        forall|g: nat| #[trigger]
            s.emptied().is_notified(g) == (s.futures.contains_key(g) && s.futures[g] is Some),
{
    let t = s.emptied();
    assert forall|g: nat| #[trigger] t.is_notified(g) == (s.futures.contains_key(g)
        && s.futures[g] is Some) by {
        if s.futures.contains_key(g) {
            assert(s.waiters.owns(s.futures[g]));
        }
    }
    assert forall|g: nat| #[trigger] t.futures.contains_key(g) implies t.waiters.owns(
        t.futures[g],
    ) by {
        assert(t.is_notified(g) == (t.futures[g] is Some));
    }
}

/// Rosters that are alike stay so when all their waiters are released.
pub proof fn lemma_emptied_alike<W>(a: Roster<W>, b: Roster<W>)
    requires
        a.valid(),
        b.valid(),
        a.alike(b),
        a.emptied().waiters.valid(),
        b.emptied().waiters.valid(),
    ensures
        a.emptied().valid(),
        b.emptied().valid(),
        a.emptied().alike(b.emptied()),
{
    lemma_emptied_valid(a);
    lemma_emptied_valid(b);
    assert forall|g: nat| #[trigger] a.emptied().is_notified(g) == b.emptied().is_notified(g) by {
        assert(a.futures.contains_key(g) == b.futures.contains_key(g));
    }
}

pub proof fn lemma_joined_valid<W>(s: Roster<W>, f: nat, key: usize, w: W)
    requires
        s.valid(),
        s.futures.contains_key(f),
        s.futures[f] is None,
        !s.waiters.has(key),
    ensures
        s.joined(f, key, w).valid(),
        forall|g: nat, p: int| #[trigger]
            s.joined(f, key, w).waits_at(g, p) == (s.waits_at(g, p) || (g == f && p
                == s.waiters.waiting.len())),
        forall|g: nat| #[trigger] s.joined(f, key, w).is_notified(g) == s.is_notified(g),
{
    let t = s.joined(f, key, w);
    lemma_pushed(s.waiters, key, w);
    assert forall|g: nat| #[trigger] s.futures.contains_key(g) implies s.futures[g] != Some(
        key,
    ) by {
        assert(s.waiters.owns(s.futures[g]));
    }
    assert forall|g: nat| #[trigger] t.futures.contains_key(g) implies t.waiters.owns(
        t.futures[g],
    ) by {
        assert(s.futures.contains_key(g));
        assert(s.waiters.owns(s.futures[g]));
    }
    assert forall|g: nat, h: nat|
        #![trigger t.futures[g], t.futures[h]]
        t.futures.contains_key(g) && t.futures.contains_key(h) && t.futures[g] is Some
            && t.futures[g] == t.futures[h] implies g == h by {
        assert(s.futures.contains_key(g) && s.futures.contains_key(h));
        if g != f && h != f {
            assert(t.futures[g] == s.futures[g] && t.futures[h] == s.futures[h]);
        }
    }
    assert forall|g: nat, p: int| #[trigger]
        t.waits_at(g, p) == (s.waits_at(g, p) || (g == f && p == s.waiters.waiting.len())) by {
        assert(t.futures.contains_key(g) == s.futures.contains_key(g));
        if 0 <= p < s.waiters.waiting.len() {
            assert(t.waiters.waiting[p] == s.waiters.waiting[p]);
            if s.waiters.waiting[p].0 == key {
                assert(s.waiters.is_waiting(key));
            }
        }
    }
    assert forall|g: nat| #[trigger] t.is_notified(g) == s.is_notified(g) by {
        assert(t.futures.contains_key(g) == s.futures.contains_key(g));
    }
}

pub proof fn lemma_stored_valid<W>(s: Roster<W>, f: nat, w: W)
    requires
        s.valid(),
        s.futures.contains_key(f),
        s.futures[f] is Some,
        !s.is_notified(f),
    ensures
        s.stored(f, w).valid(),
        forall|g: nat, p: int| #[trigger] s.stored(f, w).waits_at(g, p) == s.waits_at(g, p),
        forall|g: nat| #[trigger] s.stored(f, w).is_notified(g) == s.is_notified(g),
{
    let t = s.stored(f, w);
    let i = lemma_place(s, f);
    lemma_stored(s.waiters, s.futures[f]->0, w);
    assert forall|g: nat| #[trigger] t.futures.contains_key(g) implies t.waiters.owns(
        t.futures[g],
    ) by {
        assert(s.waiters.owns(s.futures[g]));
    }
}

/// Who is registered is not released by that, and no one else is.
pub proof fn lemma_registered_releases_no_one<W>(s: Roster<W>, t: Roster<W>, f: nat, w: W)
    requires
        s.valid(),
        !s.is_notified(f),
        s.registered(f, w, t),
    ensures
        forall|g: nat| #[trigger] t.is_notified(g) == s.is_notified(g),
{
    if s.futures[f] is None {
        let key = t.futures[f]->0;
        assert(t =~= s.joined(f, key, w));
        lemma_joined_valid(s, f, key, w);
    } else {
        assert(t.futures =~= s.futures);
        assert(t =~= s.stored(f, w));
        lemma_stored_valid(s, f, w);
    }
}

/// Rosters that are alike stay so when the same future is registered in both.
pub proof fn lemma_registered_alike<W>(
    a: Roster<W>,
    a2: Roster<W>,
    b: Roster<W>,
    b2: Roster<W>,
    f: nat,
    w: W,
)
    requires
        a.valid(),
        b.valid(),
        a.alike(b),
        !a.is_notified(f),
        a.registered(f, w, a2),
        b.registered(f, w, b2),
    ensures
        a2.valid(),
        b2.valid(),
        a2.alike(b2),
{
    assert(a.is_notified(f) == b.is_notified(f));
    assert(b.futures.contains_key(f));
    let len = a.waiters.waiting.len() as int;
    if a.futures[f] is None {
        let (key_a, key_b) = (a2.futures[f]->0, b2.futures[f]->0);
        assert(a2 =~= a.joined(f, key_a, w));
        assert(b2 =~= b.joined(f, key_b, w));
        lemma_joined_valid(a, f, key_a, w);
        lemma_joined_valid(b, f, key_b, w);
        assert forall|i: int| 0 <= i < a2.waiters.waiting.len() implies (
        #[trigger] a2.waiters.waiting[i]).1 == b2.waiters.waiting[i].1 by {
            if i < len {
                assert(a.waiters.waiting[i].1 == b.waiters.waiting[i].1);
            }
        }
    } else {
        assert(a2.futures =~= a.futures);
        assert(b2.futures =~= b.futures);
        let i = lemma_same_place(a, b, f);
        assert(a2 =~= a.stored(f, w));
        assert(b2 =~= b.stored(f, w));
        lemma_stored_valid(a, f, w);
        lemma_stored_valid(b, f, w);
        assert forall|p: int| 0 <= p < a2.waiters.waiting.len() implies (
        #[trigger] a2.waiters.waiting[p]).1 == b2.waiters.waiting[p].1 by {
            assert(a.waiters.waiting[p].1 == b.waiters.waiting[p].1);
        }
    }
    assert(a2.futures.dom() =~= b2.futures.dom());
    assert forall|g: nat, p: int| #[trigger] a2.waits_at(g, p) == b2.waits_at(g, p) by {
        assert(a.waits_at(g, p) == b.waits_at(g, p));
    }
    assert forall|g: nat| #[trigger] a2.is_notified(g) == b2.is_notified(g) by {
        assert(a.is_notified(g) == b.is_notified(g));
    }
}

pub proof fn lemma_forgotten_valid<W>(s: Roster<W>, f: nat)
    requires
        s.valid(),
        s.futures.contains_key(f) ==> s.futures[f] is None,
    ensures
        s.forgotten(f).valid(),
        s.made(f).valid(),
        forall|g: nat, p: int| #[trigger] s.forgotten(f).waits_at(g, p) == s.waits_at(g, p),
        forall|g: nat| #[trigger] s.forgotten(f).is_notified(g) == s.is_notified(g),
        forall|g: nat, p: int| #[trigger] s.made(f).waits_at(g, p) == s.waits_at(g, p),
        forall|g: nat| #[trigger] s.made(f).is_notified(g) == s.is_notified(g),
{
    let t = s.forgotten(f);
    assert forall|g: nat| #[trigger] t.futures.contains_key(g) implies t.waiters.owns(
        t.futures[g],
    ) by {
        assert(s.futures.contains_key(g));
    }
    assert forall|g: nat, p: int| #[trigger] t.waits_at(g, p) == s.waits_at(g, p) by {
        assert(t.futures.contains_key(g) == (s.futures.contains_key(g) && g != f));
    }
    assert forall|g: nat| #[trigger] t.is_notified(g) == s.is_notified(g) by {
        assert(t.futures.contains_key(g) == (s.futures.contains_key(g) && g != f));
    }
    let u = s.made(f);
    assert forall|g: nat| #[trigger] u.futures.contains_key(g) implies u.waiters.owns(
        u.futures[g],
    ) by {
        if g != f {
            assert(s.futures.contains_key(g));
        }
    }
    assert forall|g: nat, p: int| #[trigger] u.waits_at(g, p) == s.waits_at(g, p) by {
        assert(u.futures.contains_key(g) == (s.futures.contains_key(g) || g == f));
    }
    assert forall|g: nat| #[trigger] u.is_notified(g) == s.is_notified(g) by {
        assert(u.futures.contains_key(g) == (s.futures.contains_key(g) || g == f));
    }
}

/// Rosters that are alike stay so when the same future is made, or forgotten, in both.
pub proof fn lemma_forgotten_alike<W>(a: Roster<W>, b: Roster<W>, f: nat)
    requires
        a.valid(),
        b.valid(),
        a.alike(b),
        a.futures.contains_key(f) ==> a.futures[f] is None,
    ensures
        a.forgotten(f).valid(),
        b.forgotten(f).valid(),
        a.forgotten(f).alike(b.forgotten(f)),
        a.made(f).valid(),
        b.made(f).valid(),
        a.made(f).alike(b.made(f)),
{
    assert(a.futures.contains_key(f) == b.futures.contains_key(f));
    lemma_forgotten_valid(a, f);
    lemma_forgotten_valid(b, f);
    assert(a.forgotten(f).futures.dom() =~= b.forgotten(f).futures.dom());
    assert(a.made(f).futures.dom() =~= b.made(f).futures.dom());
    assert forall|g: nat, p: int| #[trigger]
        a.forgotten(f).waits_at(g, p) == b.forgotten(f).waits_at(g, p) by {
        assert(a.waits_at(g, p) == b.waits_at(g, p));
    }
    assert forall|g: nat| #[trigger]
        a.forgotten(f).is_notified(g) == b.forgotten(f).is_notified(g) by {
        assert(a.is_notified(g) == b.is_notified(g));
    }
    assert forall|g: nat, p: int| #[trigger]
        a.made(f).waits_at(g, p) == b.made(f).waits_at(g, p) by {
        assert(a.waits_at(g, p) == b.waits_at(g, p));
    }
    assert forall|g: nat| #[trigger] a.made(f).is_notified(g) == b.made(f).is_notified(g) by {
        assert(a.is_notified(g) == b.is_notified(g));
    }
    assert forall|g: nat| #[trigger] a.made(f).futures.contains_key(g) implies (
    a.made(f).futures[g] is Some) == (b.made(f).futures[g] is Some) by {
        if g != f {
            assert(a.futures.contains_key(g));
        }
    }
}

/// Rosters that are alike stay so when what is stored in both becomes the same again, and no one
/// moves.
pub proof fn lemma_restored_alike<W>(a: Roster<W>, a2: Roster<W>, b: Roster<W>, b2: Roster<W>)
    requires
        a.valid(),
        b.valid(),
        a.alike(b),
        a.moved_no_one(a2),
        b.moved_no_one(b2),
        forall|i: int|
            0 <= i < a.waiters.waiting.len() ==> (#[trigger] a2.waiters.waiting[i]).1
                == b2.waiters.waiting[i].1,
    ensures
        a2.valid(),
        b2.valid(),
        a2.alike(b2),
{
    lemma_moved_no_one_valid(a, a2);
    lemma_moved_no_one_valid(b, b2);
    assert forall|g: nat, p: int| #[trigger] a2.waits_at(g, p) == b2.waits_at(g, p) by {
        assert(a.waits_at(g, p) == b.waits_at(g, p));
    }
    assert forall|g: nat| #[trigger] a2.is_notified(g) == b2.is_notified(g) by {
        assert(a.is_notified(g) == b.is_notified(g));
    }
}

proof fn lemma_moved_no_one_valid<W>(s: Roster<W>, t: Roster<W>)
    requires
        s.valid(),
        s.moved_no_one(t),
    ensures
        t.valid(),
        forall|g: nat, p: int| #[trigger] t.waits_at(g, p) == s.waits_at(g, p),
        forall|g: nat| #[trigger] t.is_notified(g) == s.is_notified(g),
{
    assert forall|i: int, j: int| 0 <= i < j < t.waiters.waiting.len() implies (
    #[trigger] t.waiters.waiting[i]).0 != (#[trigger] t.waiters.waiting[j]).0 by {
        assert(s.waiters.waiting[i].0 != s.waiters.waiting[j].0);
    }
    assert forall|i: int| 0 <= i < t.waiters.waiting.len() implies !t.waiters.notified.contains(
        (#[trigger] t.waiters.waiting[i]).0,
    ) by {
        assert(!s.waiters.notified.contains(s.waiters.waiting[i].0));
    }
    assert forall|g: nat| #[trigger] t.futures.contains_key(g) implies t.waiters.owns(
        t.futures[g],
    ) by {
        assert(s.waiters.owns(s.futures[g]));
        if s.futures[g] is Some && s.waiters.is_waiting(s.futures[g]->0) {
            let i = s.waiters.position(s.futures[g]->0);
            assert(t.waiters.waiting[i].0 == s.waiters.waiting[i].0);
        }
    }
}

/// Rosters that are alike stay so when the same future is dropped from both.
pub proof fn lemma_dropped_alike<W>(a: Roster<W>, b: Roster<W>, f: nat)
    requires
        a.valid(),
        b.valid(),
        a.alike(b),
        a.futures.contains_key(f),
    ensures
        a.futures[f] is None ==> {
            &&& a.forgotten(f).valid()
            &&& b.forgotten(f).valid()
            &&& a.forgotten(f).alike(b.forgotten(f))
        },
        a.futures[f] is Some ==> {
            &&& a.without(f).valid()
            &&& b.without(f).valid()
            &&& a.without(f).alike(b.without(f))
            &&& a.without(f).forgotten(f).valid()
            &&& b.without(f).forgotten(f).valid()
            &&& a.without(f).forgotten(f).alike(b.without(f).forgotten(f))
        },
{
    if a.futures[f] is None {
        lemma_forgotten_alike(a, b, f);
    } else {
        lemma_without_alike(a, b, f);
        lemma_forgotten_alike(a.without(f), b.without(f), f);
    }
}

} // verus!

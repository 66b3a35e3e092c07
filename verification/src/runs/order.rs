//! Who is served before whom, over a whole use of a primitive.
use vstd::prelude::*;

use crate::runs::roster::{
    lemma_emptied_valid, lemma_forgotten_valid, lemma_joined_valid, lemma_place,
    lemma_popped_valid, lemma_stored_valid, lemma_without_valid, Roster,
};
use crate::runs::{history, Run};

verus! {

impl<W> Roster<W> {
    /// The future `f` is in the queue.
    pub open spec fn waits(self, f: nat) -> bool {
        exists|i: int| #[trigger] self.waits_at(f, i)
    }

    /// The future `f` is in the queue, with `w` stored for it.
    pub open spec fn waits_with(self, f: nat, w: W) -> bool {
        exists|i: int| #[trigger] self.waits_at(f, i) && self.waiters.waiting[i].1 == w
    }

    /// Place `i` of the queue is that of a future.
    pub open spec fn is_taken(self, i: int) -> bool {
        exists|f: nat| #[trigger] self.waits_at(f, i)
    }

    /// Every place in the queue is that of a future.
    pub open spec fn is_manned(self) -> bool {
        forall|i: int| 0 <= i < self.waiters.waiting.len() ==> #[trigger] self.is_taken(i)
    }

    /// The list `post` comes about in good order. `polled` is the future that was polled and has to
    /// wait, with what it handed in; `gone` is the future that was dropped or has completed.
    ///
    /// Who had to wait is in the queue, with what it handed in, behind all who were there before it.
    /// Everyone else in the queue was there before, with the same stored, and in the same order. No one
    /// is released before someone ahead, and who was released stays so. No one else leaves the queue.
    pub open spec fn in_good_order(
        self,
        post: Self,
        polled: Option<(nat, W)>,
        gone: Option<nat>,
    ) -> bool {
        &&& polled is Some ==> post.waits_with((polled->0).0, (polled->0).1)
        &&& forall|g: nat, i: int| #[trigger]
            post.waits_at(g, i) && (polled is Some ==> g != (polled->0).0) ==> exists|j: int| #[trigger]
                self.waits_at(g, j) && self.waiters.waiting[j].1 == post.waiters.waiting[i].1
        &&& forall|g: nat, h: nat, i: int, j: int, i2: int, j2: int|
            #![trigger self.waits_at(g, i), self.waits_at(h, j), post.waits_at(g, i2), post.waits_at(h, j2)]
            self.waits_at(g, i) && self.waits_at(h, j) && i < j && post.waits_at(g, i2)
                && post.waits_at(h, j2) ==> i2 < j2
        &&& forall|g: nat, i: int, j: int|
            #![trigger post.waits_at(g, i), post.waits_at((polled->0).0, j)]
            polled is Some && !self.waits((polled->0).0) && g != (polled->0).0 && post.waits_at(g, i)
                && post.waits_at((polled->0).0, j) ==> i < j
        &&& forall|g: nat, h: nat, i: int, j: int|
            #![trigger self.waits_at(g, i), self.waits_at(h, j)]
            self.waits_at(g, i) && self.waits_at(h, j) && i < j && gone != Some(g)
                && post.is_notified(h) ==> post.is_notified(g)
        &&& forall|g: nat, i: int|
            #![trigger self.waits_at(g, i)]
            self.waits_at(g, i) && gone != Some(g) ==> post.is_notified(g) || post.waits(g)
        &&& forall|g: nat|
            #![trigger post.is_notified(g)]
            post.is_notified(g) && !self.is_notified(g) ==> self.waits(g)
        &&& forall|g: nat|
            #![trigger self.is_notified(g)]
            self.is_notified(g) && gone != Some(g) ==> post.is_notified(g)
        &&& self.is_manned() ==> post.is_manned()
    }
}

/// A list in which no one's place or release changes is in good order.
pub proof fn lemma_same_places_in_order<W>(s: Roster<W>, t: Roster<W>, gone: Option<nat>)
    requires
        s.valid(),
        t.waiters.waiting == s.waiters.waiting,
        forall|g: nat, i: int| #[trigger] t.waits_at(g, i) == s.waits_at(g, i),
        forall|g: nat| #[trigger] t.is_notified(g) == s.is_notified(g),
    ensures
        s.in_good_order(t, None, gone),
{
    assert forall|g: nat, i: int| #[trigger] s.waits_at(g, i) implies t.waits(g) by {
        assert(t.waits_at(g, i));
    }
    assert forall|g: nat, h: nat, i: int, j: int|
        #![trigger s.waits_at(g, i), s.waits_at(h, j)]
        s.waits_at(g, i) && s.waits_at(h, j) && i < j && t.is_notified(h) implies t.is_notified(
        g,
    ) by {
        lemma_waiting_is_not_released(s, h, j);
    }
    lemma_places_are_one(s);
    if s.is_manned() {
        assert forall|i: int| 0 <= i < t.waiters.waiting.len() implies #[trigger] t.is_taken(i) by {
            assert(s.waiters.waiting[i] == t.waiters.waiting[i]);
            assert(s.is_taken(i));
            let f = choose|f: nat| #[trigger] s.waits_at(f, i);
            assert(t.waits_at(f, i));
        }
    }
}

/// Who waits was not released.
pub proof fn lemma_waiting_is_not_released<W>(s: Roster<W>, f: nat, i: int)
    requires
        s.valid(),
        s.waits_at(f, i),
    ensures
        !s.is_notified(f),
{
    let j = lemma_place(s, f);
}

/// A future waits in one place.
pub proof fn lemma_places_are_one<W>(s: Roster<W>)
    requires
        s.valid(),
    ensures
        forall|f: nat, i: int, j: int|
            #![trigger s.waits_at(f, i), s.waits_at(f, j)]
            s.waits_at(f, i) && s.waits_at(f, j) ==> i == j,
{
    assert forall|f: nat, i: int, j: int|
        #![trigger s.waits_at(f, i), s.waits_at(f, j)]
        s.waits_at(f, i) && s.waits_at(f, j) implies i == j by {
        lemma_waiting_is_not_released(s, f, i);
        let k = lemma_place(s, f);
    }
}

/// A future that leaves the list leaves it in good order.
pub proof fn lemma_without_in_order<W>(s: Roster<W>, f: nat)
    requires
        s.valid(),
        s.futures.contains_key(f),
        s.futures[f] is Some,
    ensures
        s.without(f).valid(),
        s.in_good_order(s.without(f), None, Some(f)),
{
    let t = s.without(f);
    lemma_without_valid(s, f);
    let at = lemma_place(s, f);
    lemma_places_are_one(s);
    lemma_places_are_one(t);
    let moved = |i: int| if !s.is_notified(f) && i >= at {
        i + 1
    } else {
        i
    };
    assert forall|g: nat, i: int| #[trigger] t.waits_at(g, i) implies g != f && s.waits_at(
        g,
        moved(i),
    ) && s.waiters.waiting[moved(i)] == t.waiters.waiting[i] by {}
    assert forall|g: nat, i: int| #[trigger] s.waits_at(g, i) && g != f implies t.waits(g) by {
        assert(s.futures[g] != s.futures[f]);
        let j = if !s.is_notified(f) && i > at {
            i - 1
        } else {
            i
        };
        if !s.is_notified(f) {
            assert(i != at);
        }
        assert(t.waits_at(g, j));
    }
    assert forall|g: nat, h: nat, i: int, j: int|
        #![trigger s.waits_at(g, i), s.waits_at(h, j)]
        s.waits_at(g, i) && s.waits_at(h, j) && t.is_notified(h) implies false by {
        lemma_waiting_is_not_released(s, h, j);
    }
    if s.is_manned() {
        assert forall|i: int| 0 <= i < t.waiters.waiting.len() implies #[trigger] t.is_taken(i) by {
            let j = moved(i);
            assert(s.waiters.waiting[j] == t.waiters.waiting[i]);
            assert(s.is_taken(j));
            let g = choose|g: nat| #[trigger] s.waits_at(g, j);
            if g == f {
                lemma_waiting_is_not_released(s, f, j);
            }
            assert(t.waits_at(g, i));
        }
    }
}

/// The release of the oldest waiter leaves the list in good order.
pub proof fn lemma_popped_in_order<W>(s: Roster<W>)
    requires
        s.valid(),
        s.waiters.waiting.len() > 0,
    ensures
        s.popped().valid(),
        s.in_good_order(s.popped(), None, None),
{
    let t = s.popped();
    lemma_popped_valid(s);
    lemma_places_are_one(s);
    lemma_places_are_one(t);
    assert forall|g: nat, i: int| #[trigger] t.waits_at(g, i) implies s.waits_at(g, i + 1)
        && s.waiters.waiting[i + 1] == t.waiters.waiting[i] by {}
    assert forall|g: nat, i: int| #[trigger] s.waits_at(g, i) implies t.is_notified(g) || t.waits(
        g,
    ) by {
        if i > 0 {
            assert(t.waits_at(g, i - 1));
        }
    }
    assert forall|g: nat, h: nat, i: int, j: int|
        #![trigger s.waits_at(g, i), s.waits_at(h, j)]
        s.waits_at(g, i) && s.waits_at(h, j) && i < j && t.is_notified(h) implies t.is_notified(
        g,
    ) by {
        lemma_waiting_is_not_released(s, h, j);
        assert(s.waits_at(h, 0));
    }
    assert forall|g: nat|
        #![trigger t.is_notified(g)]
        t.is_notified(g) && !s.is_notified(g) implies s.waits(g) by {
        assert(s.waits_at(g, 0));
    }
    if s.is_manned() {
        assert forall|i: int| 0 <= i < t.waiters.waiting.len() implies #[trigger] t.is_taken(i) by {
            assert(s.waiters.waiting[i + 1] == t.waiters.waiting[i]);
            assert(s.is_taken(i + 1));
            let g = choose|g: nat| #[trigger] s.waits_at(g, i + 1);
            assert(t.waits_at(g, i));
        }
    }
}

/// The release of everyone leaves the list in good order.
pub proof fn lemma_emptied_in_order<W>(s: Roster<W>)
    requires
        s.valid(),
        s.emptied().waiters.valid(),
    ensures
        s.emptied().valid(),
        s.in_good_order(s.emptied(), None, None),
{
    let t = s.emptied();
    lemma_emptied_valid(s);
    assert forall|g: nat|
        #![trigger t.is_notified(g)]
        t.is_notified(g) && !s.is_notified(g) implies s.waits(g) by {
        let i = lemma_place(s, g);
        assert(s.waits_at(g, i));
    }
}

/// A future that is registered leaves the list in good order.
pub proof fn lemma_registered_in_order<W>(s: Roster<W>, t: Roster<W>, f: nat, w: W)
    requires
        s.valid(),
        !s.is_notified(f),
        s.registered(f, w, t),
    ensures
        t.valid(),
        s.in_good_order(t, Some((f, w)), None),
{
    let len = s.waiters.waiting.len() as int;
    if s.futures[f] is None {
        let key = t.futures[f]->0;
        assert(t =~= s.joined(f, key, w));
        lemma_joined_valid(s, f, key, w);
        assert(t.waits_at(f, len));
        assert(t.waiters.waiting[len].1 == w);
        assert(t.waits_with(f, w));
    } else {
        assert(t.futures =~= s.futures);
        assert(t =~= s.stored(f, w));
        lemma_stored_valid(s, f, w);
        let at = lemma_place(s, f);
        assert(t.waits_at(f, at));
        assert(t.waiters.waiting[at].1 == w);
        assert(t.waits_with(f, w));
    }
    lemma_places_are_one(s);
    lemma_places_are_one(t);
    assert forall|g: nat, i: int| #[trigger] t.waits_at(g, i) && g != f implies s.waits_at(g, i)
        && s.waiters.waiting[i] == t.waiters.waiting[i] by {
        if s.futures[f] is Some {
            let at = lemma_place(s, f);
            if i == at {
                assert(s.waits_at(g, at) && s.waits_at(f, at));
                assert(s.futures[g] == s.futures[f]);
            }
        }
    }
    assert forall|g: nat, i: int| #[trigger] s.waits_at(g, i) implies t.waits(g) by {
        assert(t.waits_at(g, i));
    }
    assert forall|g: nat, h: nat, i: int, j: int|
        #![trigger s.waits_at(g, i), s.waits_at(h, j)]
        s.waits_at(g, i) && s.waits_at(h, j) && t.is_notified(h) implies false by {
        lemma_waiting_is_not_released(s, h, j);
    }
    if s.is_manned() {
        assert forall|i: int| 0 <= i < t.waiters.waiting.len() implies #[trigger] t.is_taken(i) by {
            if i < len {
                assert(s.waiters.waiting[i].0 == t.waiters.waiting[i].0);
                assert(s.is_taken(i));
                let g = choose|g: nat| #[trigger] s.waits_at(g, i);
                assert(t.waits_at(g, i));
            } else {
                assert(t.waits_at(f, i));
            }
        }
    }
}

/// A future that is in no list comes and goes in good order.
pub proof fn lemma_forgotten_in_order<W>(s: Roster<W>, f: nat, gone: Option<nat>)
    requires
        s.valid(),
        s.futures.contains_key(f) ==> s.futures[f] is None,
    ensures
        s.forgotten(f).valid(),
        s.in_good_order(s.forgotten(f), None, gone),
        s.made(f).valid(),
        s.in_good_order(s.made(f), None, gone),
{
    lemma_forgotten_valid(s, f);
    lemma_same_places_in_order(s, s.forgotten(f), gone);
    lemma_same_places_in_order(s, s.made(f), gone);
}

/// What follows good order in good order is in good order.
pub proof fn lemma_in_order_twice<W>(
    a: Roster<W>,
    b: Roster<W>,
    c: Roster<W>,
    gone: Option<nat>,
)
    requires
        a.valid(),
        b.valid(),
        c.valid(),
        a.in_good_order(b, None, gone),
        b.in_good_order(c, None, None),
    ensures
        a.in_good_order(c, None, gone),
{
    assert forall|g: nat, i: int| #[trigger] c.waits_at(g, i) implies exists|j: int| #[trigger]
        a.waits_at(g, j) && a.waiters.waiting[j].1 == c.waiters.waiting[i].1 by {
        let j = choose|j: int| #[trigger]
            b.waits_at(g, j) && b.waiters.waiting[j].1 == c.waiters.waiting[i].1;
        let k = choose|k: int| #[trigger]
            a.waits_at(g, k) && a.waiters.waiting[k].1 == b.waiters.waiting[j].1;
        assert(a.waits_at(g, k) && a.waiters.waiting[k].1 == c.waiters.waiting[i].1);
    }
    assert forall|g: nat, h: nat, i: int, j: int, i2: int, j2: int|
        #![trigger a.waits_at(g, i), a.waits_at(h, j), c.waits_at(g, i2), c.waits_at(h, j2)]
        a.waits_at(g, i) && a.waits_at(h, j) && i < j && c.waits_at(g, i2) && c.waits_at(
            h,
            j2,
        ) implies i2 < j2 by {
        let i1 = choose|k: int| #[trigger]
            b.waits_at(g, k) && b.waiters.waiting[k].1 == c.waiters.waiting[i2].1;
        let j1 = choose|k: int| #[trigger]
            b.waits_at(h, k) && b.waiters.waiting[k].1 == c.waiters.waiting[j2].1;
        assert(b.waits_at(g, i1) && b.waits_at(h, j1));
        assert(i1 < j1);
    }
    assert forall|g: nat, i: int|
        #![trigger a.waits_at(g, i)]
        a.waits_at(g, i) && gone != Some(g) implies c.is_notified(g) || c.waits(g) by {
        if b.is_notified(g) {
        } else {
            let k = choose|k: int| #[trigger] b.waits_at(g, k);
            assert(b.waits_at(g, k));
        }
    }
    assert forall|g: nat|
        #![trigger c.is_notified(g)]
        c.is_notified(g) && !a.is_notified(g) implies a.waits(g) by {
        if !b.is_notified(g) {
            let k = choose|k: int| #[trigger] b.waits_at(g, k);
            let l = choose|l: int| #[trigger]
                a.waits_at(g, l) && a.waiters.waiting[l].1 == b.waiters.waiting[k].1;
            assert(a.waits_at(g, l));
        }
    }
    assert forall|g: nat, h: nat, i: int, j: int|
        #![trigger a.waits_at(g, i), a.waits_at(h, j)]
        a.waits_at(g, i) && a.waits_at(h, j) && i < j && gone != Some(g) && c.is_notified(
            h,
        ) implies c.is_notified(g) by {
        if b.is_notified(h) {
            assert(b.is_notified(g));
        } else if !b.is_notified(g) {
            let k = choose|k: int| #[trigger] b.waits_at(g, k);
            let l = choose|l: int| #[trigger] b.waits_at(h, l);
            assert(b.waits_at(g, k) && b.waits_at(h, l));
            assert(k < l);
        }
    }
}

/// A primitive in use that releases its waiters one by one or all at once.
pub trait Queue: Run {
    /// What is stored for a waiter.
    type Stored;

    /// Who waits.
    spec fn roster_of(self) -> Roster<Self::Stored>;

    /// The future that the operation polls and that has to wait, with what it hands in.
    spec fn polled(op: Self::Op, answer: Self::Answer) -> Option<(nat, Self::Stored)>;

    /// The future that the operation drops, or polls and completes.
    spec fn gone(op: Self::Op, answer: Self::Answer) -> Option<nat>;

    /// What is handed out to wake by.
    spec fn woken(answer: Self::Answer) -> Seq<Self::Stored>;

    /// Every operation leaves the queue in good order, and whoever is released is woken: what is handed
    /// out is what is stored for those at the head of the queue, who are just those that are released.
    proof fn law_good_order(op: Self::Op, pre: Self, post: Self, answer: Self::Answer)
        requires
            pre.valid(),
            pre.leads(op, post, answer),
        ensures
            post.valid(),
            pre.roster_of().valid(),
            post.roster_of().valid(),
            pre.roster_of().in_good_order(
                post.roster_of(),
                Self::polled(op, answer),
                Self::gone(op, answer),
            ),
            Self::woken(answer).len() <= pre.roster_of().waiters.waiting.len(),
            forall|i: int|
                0 <= i < Self::woken(answer).len() ==> #[trigger] Self::woken(answer)[i]
                    == pre.roster_of().waiters.waiting[i].1,
            forall|g: nat, i: int| #[trigger]
                pre.roster_of().waits_at(g, i) ==> post.roster_of().is_notified(g) == (i
                    < Self::woken(answer).len()),
    ;
}

/// First come, first served: as long as a future waits, no one is released who was not in the queue when
/// it was, or was behind it, however often either of them is polled meanwhile.
pub proof fn law_first_come_first_served<R: Queue>(
    states: Seq<R>,
    ops: Seq<R::Op>,
    answers: Seq<R::Answer>,
    f: nat,
    g: nat,
    i: int,
    n: int,
)
    requires
        history(states, ops, answers),
        states[0].valid(),
        0 <= i <= n <= ops.len(),
        !states[i].roster_of().is_notified(g),
        forall|p: int, q: int|
            #![trigger states[i].roster_of().waits_at(f, p), states[i].roster_of().waits_at(g, q)]
            states[i].roster_of().waits_at(f, p) && states[i].roster_of().waits_at(g, q) ==> p < q,
        forall|t: int| i <= t <= n ==> #[trigger] states[t].roster_of().waits(f),
    ensures
        !states[n].roster_of().is_notified(g),
        forall|p: int, q: int|
            #![trigger states[n].roster_of().waits_at(f, p), states[n].roster_of().waits_at(g, q)]
            states[n].roster_of().waits_at(f, p) && states[n].roster_of().waits_at(g, q) ==> p < q,
    decreases n - i,
{
    if i < n {
        law_first_come_first_served(states, ops, answers, f, g, i, n - 1);
        lemma_history_valid(states, ops, answers, n - 1);
        let (pre, post) = (states[n - 1].roster_of(), states[n].roster_of());
        assert(states[n - 1].leads(ops[n - 1], states[n], answers[n - 1]));
        R::law_good_order(ops[n - 1], states[n - 1], states[n], answers[n - 1]);
        assert(states[n - 1].roster_of().waits(f));
        assert(states[n].roster_of().waits(f));
        let p = choose|p: int| #[trigger] pre.waits_at(f, p);
        let p2 = choose|p2: int| #[trigger] post.waits_at(f, p2);
        lemma_places_are_one(post);
        lemma_waiting_is_not_released(post, f, p2);
        if post.is_notified(g) {
            let q = choose|q: int| #[trigger] pre.waits_at(g, q);
            assert(pre.waits_at(f, p) && pre.waits_at(g, q));
        }
        assert forall|q2: int| #[trigger] post.waits_at(g, q2) implies p2 < q2 by {
            if pre.waits(g) {
                let q = choose|q: int| #[trigger] pre.waits_at(g, q);
                assert(pre.waits_at(f, p) && pre.waits_at(g, q));
            } else {
                let polled = R::polled(ops[n - 1], answers[n - 1]);
                if polled is None || (polled->0).0 != g {
                    let q = choose|q: int| #[trigger]
                        pre.waits_at(g, q) && pre.waiters.waiting[q].1
                            == post.waiters.waiting[q2].1;
                    assert(pre.waits_at(g, q));
                }
                if f == g {
                    assert(pre.waits_at(g, p));
                }
                assert(post.waits_at(f, p2) && post.waits_at((polled->0).0, q2));
            }
        }
    }
}

/// A use of a primitive that starts valid stays so.
pub proof fn lemma_history_valid<R: Queue>(
    states: Seq<R>,
    ops: Seq<R::Op>,
    answers: Seq<R::Answer>,
    n: int,
)
    requires
        history(states, ops, answers),
        states[0].valid(),
        0 <= n <= ops.len(),
    ensures
        states[n].valid(),
    decreases n,
{
    if n > 0 {
        lemma_history_valid(states, ops, answers, n - 1);
        assert(states[n - 1].leads(ops[n - 1], states[n], answers[n - 1]));
        R::law_good_order(ops[n - 1], states[n - 1], states[n], answers[n - 1]);
    }
}

/// What is stored for a future that waits is what it handed in with its latest poll that had to wait.
pub proof fn law_stored_is_of_the_latest_poll<R: Queue>(
    states: Seq<R>,
    ops: Seq<R::Op>,
    answers: Seq<R::Answer>,
    f: nat,
    p: int,
    n: int,
) -> (m: int)
    requires
        history(states, ops, answers),
        states[0].valid(),
        states[0].roster_of().waiters.waiting.len() == 0,
        0 <= n <= ops.len(),
        states[n].roster_of().waits_at(f, p),
    ensures
        0 <= m < n,
        R::polled(ops[m], answers[m]) == Some((f, states[n].roster_of().waiters.waiting[p].1)),
        forall|t: int|
            m < t < n ==> (R::polled(#[trigger] ops[t], answers[t]) is Some ==> (R::polled(
                ops[t],
                answers[t],
            )->0).0 != f),
    decreases n,
{
    lemma_history_valid(states, ops, answers, n - 1);
    assert(states[n - 1].leads(ops[n - 1], states[n], answers[n - 1]));
    R::law_good_order(ops[n - 1], states[n - 1], states[n], answers[n - 1]);
    let (pre, post) = (states[n - 1].roster_of(), states[n].roster_of());
    let polled = R::polled(ops[n - 1], answers[n - 1]);
    if polled is Some && (polled->0).0 == f {
        let i = choose|i: int| #[trigger]
            post.waits_at(f, i) && post.waiters.waiting[i].1 == (polled->0).1;
        lemma_places_are_one(post);
        assert(post.waits_at(f, i) && post.waits_at(f, p));
        n - 1
    } else {
        let q = choose|q: int| #[trigger]
            pre.waits_at(f, q) && pre.waiters.waiting[q].1 == post.waiters.waiting[p].1;
        law_stored_is_of_the_latest_poll(states, ops, answers, f, q, n - 1)
    }
}

/// Every place in the queue is that of a future, all along.
proof fn lemma_manned<R: Queue>(
    states: Seq<R>,
    ops: Seq<R::Op>,
    answers: Seq<R::Answer>,
    n: int,
)
    requires
        history(states, ops, answers),
        states[0].valid(),
        states[0].roster_of().waiters.waiting.len() == 0,
        0 <= n <= ops.len(),
    ensures
        states[n].roster_of().is_manned(),
    decreases n,
{
    if n > 0 {
        lemma_manned(states, ops, answers, n - 1);
        lemma_history_valid(states, ops, answers, n - 1);
        assert(states[n - 1].leads(ops[n - 1], states[n], answers[n - 1]));
        R::law_good_order(ops[n - 1], states[n - 1], states[n], answers[n - 1]);
    }
}

/// What is handed out wakes whom it releases: the `i`-th waker that an operation hands out is the one
/// that some future handed in with its latest poll that had to wait, and that future, which was `i`-th in
/// the queue, is released by the operation. The answer is that future and when it was polled.
pub proof fn law_woken_by_the_latest_poll<R: Queue>(
    states: Seq<R>,
    ops: Seq<R::Op>,
    answers: Seq<R::Answer>,
    n: int,
    i: int,
) -> (r: (nat, int))
    requires
        history(states, ops, answers),
        states[0].valid(),
        states[0].roster_of().waiters.waiting.len() == 0,
        0 <= n < ops.len(),
        0 <= i < R::woken(answers[n]).len(),
    ensures
        states[n].roster_of().waits_at(r.0, i),
        states[n + 1].roster_of().is_notified(r.0),
        0 <= r.1 < n,
        R::polled(ops[r.1], answers[r.1]) == Some((r.0, R::woken(answers[n])[i])),
        forall|t: int|
            r.1 < t < n ==> (R::polled(#[trigger] ops[t], answers[t]) is Some ==> (R::polled(
                ops[t],
                answers[t],
            )->0).0 != r.0),
{
    lemma_history_valid(states, ops, answers, n);
    lemma_manned(states, ops, answers, n);
    assert(states[n].leads(ops[n], states[n + 1], answers[n]));
    R::law_good_order(ops[n], states[n], states[n + 1], answers[n]);
    assert(R::woken(answers[n])[i] == states[n].roster_of().waiters.waiting[i].1);
    assert(states[n].roster_of().is_taken(i));
    let f = choose|f: nat| #[trigger] states[n].roster_of().waits_at(f, i);
    let m = law_stored_is_of_the_latest_poll(states, ops, answers, f, i, n);
    (f, m)
}

} // verus!

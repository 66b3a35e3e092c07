//! What one and the same use of two mutexes gives.
use std::task::Waker;
use vstd::prelude::*;

use crate::lock_rules::{
    law_drop_keeps_valid, law_poll_excludes, law_unlock_serves_the_oldest, MutexView,
};
use crate::runs::order::{
    lemma_forgotten_in_order, lemma_history_valid, lemma_in_order_twice, lemma_places_are_one,
    lemma_popped_in_order, lemma_registered_in_order, lemma_same_places_in_order,
    lemma_waiting_is_not_released, lemma_without_in_order, Queue,
};
use crate::runs::roster::{
    lemma_dropped_alike, lemma_forgotten_alike, lemma_forgotten_valid,
    lemma_notice_leaves_the_queue, lemma_popped_alike, lemma_popped_valid, lemma_registered_alike,
    lemma_registered_releases_no_one, lemma_without_valid, Roster,
};
use crate::runs::{history, law_same_use_same_answers, Run};
use crate::waiters::Poll;

verus! {

/// An operation on a mutex, with what its caller puts in.
pub enum MutexOp<T> {
    /// The lock is asked for at once.
    TryLock,
    /// A future that is to get the lock is made, under this name.
    Lock { future: nat },
    /// The future of this name is polled.
    Poll { future: nat, waker: Waker },
    /// The future of this name is dropped.
    DropFuture { future: nat },
    /// The guard is dropped, with this value in it.
    DropGuard { value: T },
}

/// What the caller of an operation gets.
pub enum MutexAnswer<T> {
    /// The lock with the value that the guard reads, or neither.
    Got(Option<T>),
    /// A future.
    Made,
    /// The waker to wake.
    Woken(Option<Waker>),
}

/// A mutex in use, and the key that each of its futures has recorded.
pub struct MutexRun<T> {
    pub mutex: MutexView<T>,
    pub futures: Map<nat, Option<usize>>,
}

impl<T> MutexRun<T> {
    /// A mutex around `value` that no one has used yet.
    pub open spec fn fresh(value: T) -> Self {
        MutexRun { mutex: MutexView::unlocked(value), futures: Map::empty() }
    }

    /// Who waits for the mutex.
    pub open spec fn roster(self) -> Roster<Waker> {
        Roster { waiters: self.mutex.lock.waiters, futures: self.futures }
    }
}

impl<T> Run for MutexRun<T> {
    type Op = MutexOp<T>;

    type Answer = MutexAnswer<T>;

    open spec fn valid(self) -> bool {
        self.mutex.valid() && self.roster().valid()
    }

    open spec fn alike(self, other: Self) -> bool {
        &&& self.mutex.value == other.mutex.value
        &&& self.mutex.lock.locked == other.mutex.lock.locked
        &&& self.roster().alike(other.roster())
    }

    open spec fn leads(self, op: MutexOp<T>, post: Self, answer: MutexAnswer<T>) -> bool {
        match op {
            MutexOp::TryLock => {
                &&& post.futures == self.futures
                &&& if self.mutex.lock.locked {
                    answer == MutexAnswer::Got(None::<T>) && post.mutex == self.mutex
                } else {
                    answer == MutexAnswer::Got(self.mutex.value) && post.mutex
                        == self.mutex.after_lock()
                }
            },
            MutexOp::Lock { future } => {
                &&& !self.futures.contains_key(future)
                &&& post.futures == self.futures.insert(future, None)
                &&& post.mutex == self.mutex
                &&& answer == MutexAnswer::<T>::Made
            },
            MutexOp::Poll { future, waker } => {
                &&& self.futures.contains_key(future)
                &&& post.futures == self.futures.insert(future, post.futures[future])
                &&& answer is Got
                &&& self.mutex.polled(
                    self.futures[future],
                    waker,
                    post.mutex,
                    post.futures[future],
                    answer->Got_0,
                )
            },
            MutexOp::DropFuture { future } => {
                &&& self.futures.contains_key(future)
                &&& post.futures == self.futures.remove(future)
                &&& post.mutex == self.mutex.after_drop(self.futures[future])
                &&& answer == MutexAnswer::<T>::Woken(
                    self.mutex.lock.woken_by_drop(self.futures[future]),
                )
            },
            MutexOp::DropGuard { value } => {
                &&& self.mutex.is_held()
                &&& post.futures == self.futures
                &&& post.mutex == self.mutex.after_unlock(value)
                &&& answer == MutexAnswer::<T>::Woken(self.mutex.lock.next())
            },
        }
    }

    proof fn law_same_operation_same_answer(
        op: MutexOp<T>,
        a: Self,
        a2: Self,
        answer_a: MutexAnswer<T>,
        b: Self,
        b2: Self,
        answer_b: MutexAnswer<T>,
    ) {
        lemma_mutex_stays_valid(op, a, a2, answer_a);
        lemma_mutex_stays_valid(op, b, b2, answer_b);
        let (ra, rb) = (a.roster(), b.roster());
        match op {
            MutexOp::TryLock => {},
            MutexOp::Lock { future } => {
                assert(ra.futures.contains_key(future) == rb.futures.contains_key(future));
                lemma_forgotten_alike(ra, rb, future);
                assert(a2.roster() =~= ra.made(future));
                assert(b2.roster() =~= rb.made(future));
            },
            MutexOp::Poll { future, waker } => {
                assert(ra.is_notified(future) == rb.is_notified(future));
                if ra.is_notified(future) {
                    lemma_dropped_alike(ra, rb, future);
                    assert(a2.roster() =~= ra.without(future));
                    assert(b2.roster() =~= rb.without(future));
                } else if !a.mutex.lock.locked {
                    assert(a2.futures =~= a.futures);
                    assert(b2.futures =~= b.futures);
                } else {
                    lemma_registered_alike(ra, a2.roster(), rb, b2.roster(), future, waker);
                }
            },
            MutexOp::DropFuture { future } => {
                assert(ra.is_notified(future) == rb.is_notified(future));
                lemma_dropped_alike(ra, rb, future);
                if ra.futures[future] is None {
                    assert(a2.roster() =~= ra.forgotten(future));
                    assert(b2.roster() =~= rb.forgotten(future));
                } else {
                    let (sa, sb) = (ra.without(future).forgotten(future), rb.without(
                        future,
                    ).forgotten(future));
                    assert(sa.futures =~= a2.futures);
                    assert(sb.futures =~= b2.futures);
                    if ra.is_notified(future) {
                        assert(ra.waiters.waiting.len() == rb.waiters.waiting.len());
                        lemma_notice_leaves_the_queue(ra, future);
                        lemma_notice_leaves_the_queue(rb, future);
                        if ra.waiters.waiting.len() > 0 {
                            lemma_popped_alike(sa, sb);
                            assert(a2.roster() =~= sa.popped());
                            assert(b2.roster() =~= sb.popped());
                            assert(ra.waiters.waiting[0].1 == rb.waiters.waiting[0].1);
                        } else {
                            assert(a2.roster() =~= sa);
                            assert(b2.roster() =~= sb);
                        }
                    } else {
                        assert(a2.roster() =~= sa);
                        assert(b2.roster() =~= sb);
                    }
                }
            },
            MutexOp::DropGuard { value } => {
                if ra.waiters.waiting.len() > 0 {
                    lemma_popped_alike(ra, rb);
                    assert(a2.roster() =~= ra.popped());
                    assert(b2.roster() =~= rb.popped());
                }
            },
        }
    }
}

impl<T> Queue for MutexRun<T> {
    type Stored = Waker;

    open spec fn roster_of(self) -> Roster<Waker> {
        self.roster()
    }

    open spec fn polled(op: MutexOp<T>, answer: MutexAnswer<T>) -> Option<(nat, Waker)> {
        match op {
            MutexOp::Poll { future, waker } => if answer == MutexAnswer::Got(None::<T>) {
                Some((future, waker))
            } else {
                None
            },
            _ => None,
        }
    }

    open spec fn gone(op: MutexOp<T>, answer: MutexAnswer<T>) -> Option<nat> {
        match op {
            MutexOp::Poll { future, waker } => if answer == MutexAnswer::Got(None::<T>) {
                None
            } else {
                Some(future)
            },
            MutexOp::DropFuture { future } => Some(future),
            _ => None,
        }
    }

    open spec fn woken(answer: MutexAnswer<T>) -> Seq<Waker> {
        match answer {
            MutexAnswer::Woken(Some(waker)) => seq![waker],
            _ => Seq::empty(),
        }
    }

    proof fn law_good_order(op: MutexOp<T>, pre: Self, post: Self, answer: MutexAnswer<T>) {
        Self::law_same_operation_same_answer(op, pre, post, answer, pre, post, answer);
        let (s, t) = (pre.roster(), post.roster());
        assert forall|g: nat, i: int| #[trigger] s.waits_at(g, i) implies !s.is_notified(g) by {
            lemma_waiting_is_not_released(s, g, i);
        }
        match op {
            MutexOp::TryLock => {
                lemma_same_places_in_order(s, t, None);
            },
            MutexOp::Lock { future } => {
                lemma_forgotten_in_order(s, future, None);
                assert(t =~= s.made(future));
                lemma_forgotten_valid(s, future);
            },
            MutexOp::Poll { future, waker } => {
                if s.is_notified(future) {
                    lemma_without_in_order(s, future);
                    lemma_without_valid(s, future);
                    assert(t =~= s.without(future));
                } else if !pre.mutex.lock.locked {
                    assert(post.futures =~= pre.futures);
                    lemma_same_places_in_order(s, t, Some(future));
                } else {
                    lemma_registered_in_order(s, t, future, waker);
                    lemma_registered_releases_no_one(s, t, future, waker);
                }
            },
            MutexOp::DropFuture { future } => {
                if s.futures[future] is None {
                    lemma_forgotten_in_order(s, future, Some(future));
                    lemma_forgotten_valid(s, future);
                    assert(t =~= s.forgotten(future));
                } else {
                    lemma_without_in_order(s, future);
                    lemma_without_valid(s, future);
                    let one = s.without(future);
                    lemma_forgotten_in_order(one, future, None);
                    lemma_forgotten_valid(one, future);
                    let two = one.forgotten(future);
                    lemma_in_order_twice(s, one, two, Some(future));
                    assert(two.futures =~= post.futures);
                    if s.is_notified(future) {
                        lemma_notice_leaves_the_queue(s, future);
                        if s.waiters.waiting.len() > 0 {
                            lemma_popped_in_order(two);
                            lemma_popped_valid(two);
                            lemma_in_order_twice(s, two, two.popped(), Some(future));
                            assert(t =~= two.popped());
                            lemma_places_are_one(s);
                            assert forall|g: nat, i: int| #[trigger]
                                s.waits_at(g, i) implies t.is_notified(g) == (i < 1) by {
                                assert(two.waits_at(g, i));
                                assert(!two.is_notified(g));
                                lemma_places_are_one(two);
                                assert(t.is_notified(g) == two.waits_at(g, 0));
                            }
                        } else {
                            assert(t =~= two);
                        }
                    } else {
                        assert(t =~= two);
                    }
                }
            },
            MutexOp::DropGuard { value } => {
                if s.waiters.waiting.len() > 0 {
                    lemma_popped_in_order(s);
                    lemma_popped_valid(s);
                    assert(t =~= s.popped());
                    lemma_places_are_one(s);
                    assert forall|g: nat, i: int| #[trigger] s.waits_at(g, i) implies t.is_notified(
                        g,
                    ) == (i < 1) by {
                        assert(t.is_notified(g) == s.waits_at(g, 0));
                    }
                } else {
                    lemma_same_places_in_order(s, t, None);
                }
            },
        }
    }
}

/// No one overtakes a future that waits for a mutex. From the first poll of a future that has to wait, as
/// long as it is not dropped and each of its polls has to wait, no one gets the lock at once, and no
/// future gets it that was not polled before.
pub proof fn law_no_one_overtakes<T>(
    value: T,
    states: Seq<MutexRun<T>>,
    ops: Seq<MutexOp<T>>,
    answers: Seq<MutexAnswer<T>>,
    f: nat,
    g: nat,
    i: int,
    n: int,
)
    requires
        history(states, ops, answers),
        states[0] == MutexRun::fresh(value),
        f != g,
        0 <= i < n < ops.len(),
        ops[i] is Poll && ops[i]->Poll_future == f && answers[i] == MutexAnswer::Got(None::<T>),
        forall|t: int|
            i < t < n ==> {
                &&& !(#[trigger] ops[t] is DropFuture && ops[t]->DropFuture_future == f)
                &&& ops[t] is Poll && ops[t]->Poll_future == f ==> answers[t] == MutexAnswer::Got(
                    None::<T>,
                )
            },
        forall|t: int|
            0 <= t < i ==> !(#[trigger] ops[t] is Poll && ops[t]->Poll_future == g),
    ensures
        ops[n] is TryLock ==> answers[n] == MutexAnswer::Got(None::<T>),
        ops[n] is Poll && ops[n]->Poll_future == g ==> answers[n] == MutexAnswer::Got(None::<T>),
{
    lemma_stays_ahead(value, states, ops, answers, f, g, i, n);
    lemma_history_valid(states, ops, answers, n);
    let s = states[n].roster();
    assert(states[n].leads(ops[n], states[n + 1], answers[n]));
    if s.is_notified(f) {
        assert(s.waiters.notified.contains(s.futures[f]->0));
        if s.waiters.notified.len() == 0 {
            assert(s.waiters.notified =~= Set::empty());
        }
    } else {
        let p = choose|p: int| #[trigger] s.waits_at(f, p);
    }
    assert(states[n].mutex.lock.locked);
}

/// A future that was never polled is in no list.
proof fn lemma_unpolled<T>(
    value: T,
    states: Seq<MutexRun<T>>,
    ops: Seq<MutexOp<T>>,
    answers: Seq<MutexAnswer<T>>,
    g: nat,
    n: int,
)
    requires
        history(states, ops, answers),
        states[0] == MutexRun::fresh(value),
        0 <= n <= ops.len(),
        forall|t: int|
            0 <= t < n ==> !(#[trigger] ops[t] is Poll && ops[t]->Poll_future == g),
    ensures
        !states[n].roster().waits(g),
        !states[n].roster().is_notified(g),
    decreases n,
{
    if n > 0 {
        lemma_unpolled(value, states, ops, answers, g, n - 1);
        lemma_history_valid(states, ops, answers, n - 1);
        assert(states[n - 1].leads(ops[n - 1], states[n], answers[n - 1]));
        MutexRun::law_good_order(ops[n - 1], states[n - 1], states[n], answers[n - 1]);
        let (pre, post) = (states[n - 1].roster(), states[n].roster());
        assert(!(ops[n - 1] is Poll && ops[n - 1]->Poll_future == g));
        if post.waits(g) {
            let q = choose|q: int| #[trigger] post.waits_at(g, q);
            let p = choose|p: int| #[trigger]
                pre.waits_at(g, p) && pre.waiters.waiting[p].1 == post.waiters.waiting[q].1;
            assert(pre.waits_at(g, p));
        }
    }
}

/// A future that waits has the lock granted to it, or is ahead of those that came later.
proof fn lemma_stays_ahead<T>(
    value: T,
    states: Seq<MutexRun<T>>,
    ops: Seq<MutexOp<T>>,
    answers: Seq<MutexAnswer<T>>,
    f: nat,
    g: nat,
    i: int,
    n: int,
)
    requires
        history(states, ops, answers),
        states[0] == MutexRun::fresh(value),
        f != g,
        0 <= i < n <= ops.len(),
        ops[i] is Poll && ops[i]->Poll_future == f && answers[i] == MutexAnswer::Got(None::<T>),
        forall|t: int|
            i < t < n ==> {
                &&& !(#[trigger] ops[t] is DropFuture && ops[t]->DropFuture_future == f)
                &&& ops[t] is Poll && ops[t]->Poll_future == f ==> answers[t] == MutexAnswer::Got(
                    None::<T>,
                )
            },
        forall|t: int|
            0 <= t < i ==> !(#[trigger] ops[t] is Poll && ops[t]->Poll_future == g),
    ensures
        !states[n].roster().is_notified(g),
        states[n].roster().is_notified(f) || states[n].roster().waits(f),
        forall|p: int, q: int|
            #![trigger states[n].roster().waits_at(f, p), states[n].roster().waits_at(g, q)]
            states[n].roster().waits_at(f, p) && states[n].roster().waits_at(g, q) ==> p < q,
    decreases n,
{
    lemma_history_valid(states, ops, answers, n - 1);
    lemma_history_valid(states, ops, answers, n);
    assert(states[n - 1].leads(ops[n - 1], states[n], answers[n - 1]));
    MutexRun::law_good_order(ops[n - 1], states[n - 1], states[n], answers[n - 1]);
    let (pre, post) = (states[n - 1].roster(), states[n].roster());
    let polled = MutexRun::polled(ops[n - 1], answers[n - 1]);
    let gone = MutexRun::gone(ops[n - 1], answers[n - 1]);
    lemma_places_are_one(pre);
    lemma_places_are_one(post);
    if n == i + 1 {
        lemma_unpolled(value, states, ops, answers, g, i);
        assert((polled->0).0 == f);
        let p2 = choose|p2: int| #[trigger]
            post.waits_at(f, p2) && post.waiters.waiting[p2].1 == (polled->0).1;
        assert(post.waits_at(f, p2));
        assert forall|q2: int| !(#[trigger] post.waits_at(g, q2)) by {
            if post.waits_at(g, q2) {
                let q = choose|q: int| #[trigger]
                    pre.waits_at(g, q) && pre.waiters.waiting[q].1 == post.waiters.waiting[q2].1;
                assert(pre.waits_at(g, q));
            }
        }
    } else {
        lemma_stays_ahead(value, states, ops, answers, f, g, i, n - 1);
        assert(!(ops[n - 1] is DropFuture && ops[n - 1]->DropFuture_future == f));
        assert(gone != Some(f));
        if pre.is_notified(f) {
            assert(post.is_notified(f));
        } else {
            let p = choose|p: int| #[trigger] pre.waits_at(f, p);
            assert(pre.waits_at(f, p));
            assert(post.is_notified(f) || post.waits(f));
        }
        if post.is_notified(g) {
            let q = choose|q: int| #[trigger] pre.waits_at(g, q);
            if !pre.is_notified(f) {
                let p = choose|p: int| #[trigger] pre.waits_at(f, p);
                assert(pre.waits_at(f, p) && pre.waits_at(g, q));
            }
            assert(post.is_notified(f));
            lemma_one_grant(states[n], f, g);
        }
        assert forall|p2: int, q2: int|
            #![trigger post.waits_at(f, p2), post.waits_at(g, q2)]
            post.waits_at(f, p2) && post.waits_at(g, q2) implies p2 < q2 by {
            lemma_waiting_is_not_released(post, f, p2);
            let p = choose|p: int| #[trigger] pre.waits_at(f, p);
            assert(pre.waits_at(f, p));
            if pre.waits(g) {
                let q = choose|q: int| #[trigger] pre.waits_at(g, q);
                assert(pre.waits_at(f, p) && pre.waits_at(g, q));
            } else {
                if polled is None || (polled->0).0 != g {
                    let q = choose|q: int| #[trigger]
                        pre.waits_at(g, q) && pre.waiters.waiting[q].1
                            == post.waiters.waiting[q2].1;
                    assert(pre.waits_at(g, q));
                }
                assert(post.waits_at(f, p2) && post.waits_at((polled->0).0, q2));
            }
        }
    }
}

/// The lock is granted to one future at most.
proof fn lemma_one_grant<T>(s: MutexRun<T>, f: nat, g: nat)
    requires
        s.valid(),
        s.roster().is_notified(f),
        s.roster().is_notified(g),
    ensures
        f == g,
{
    let notified = s.mutex.lock.waiters.notified;
    let (a, b) = (s.futures[f]->0, s.futures[g]->0);
    if a != b {
        assert(notified.remove(a).contains(b));
        assert(notified.remove(a).len() > 0) by {
            if notified.remove(a).len() == 0 {
                assert(notified.remove(a) =~= Set::empty());
            }
        }
    } else {
        assert(s.roster().futures[f] == s.roster().futures[g]);
    }
}

proof fn lemma_mutex_stays_valid<T>(
    op: MutexOp<T>,
    pre: MutexRun<T>,
    post: MutexRun<T>,
    answer: MutexAnswer<T>,
)
    requires
        pre.valid(),
        pre.leads(op, post, answer),
    ensures
        post.mutex.valid(),
{
    match op {
        MutexOp::TryLock => {},
        MutexOp::Lock { future } => {},
        MutexOp::Poll { future, waker } => {
            assert(pre.roster().futures.contains_key(future));
            let r = if answer->Got_0 is Some {
                Poll::Ready(())
            } else {
                Poll::Pending
            };
            law_poll_excludes(
                pre.mutex.lock,
                pre.futures[future],
                waker,
                post.mutex.lock,
                post.futures[future],
                r,
            );
        },
        MutexOp::DropFuture { future } => {
            assert(pre.roster().futures.contains_key(future));
            law_drop_keeps_valid(pre.mutex.lock, pre.futures[future]);
        },
        MutexOp::DropGuard { value } => {
            law_unlock_serves_the_oldest(pre.mutex.lock);
        },
    }
}

/// A mutex in a container behaves as one of its own: one and the same sequence of operations on two
/// mutexes around equal values, whichever of `Mutex` and `RawMutex` they are, gets the same answers
/// from both, step by step. Whoever gets the lock of the one gets that of the other and reads the
/// same value, whoever has to wait for the one has to wait for the other, and the same are woken.
pub proof fn law_mutexes_behave_alike<T>(
    value: T,
    ops: Seq<MutexOp<T>>,
    states_a: Seq<MutexRun<T>>,
    answers_a: Seq<MutexAnswer<T>>,
    states_b: Seq<MutexRun<T>>,
    answers_b: Seq<MutexAnswer<T>>,
)
    requires
        history(states_a, ops, answers_a),
        history(states_b, ops, answers_b),
        states_a[0] == MutexRun::fresh(value),
        states_b[0] == MutexRun::fresh(value),
    ensures
        answers_a == answers_b,
        states_a.last().alike(states_b.last()),
{
    law_same_use_same_answers(ops, states_a, answers_a, states_b, answers_b);
}

} // verus!

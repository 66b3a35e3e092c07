//! What one and the same use of two auto-reset events gives.
use std::task::Waker;
use vstd::prelude::*;

use crate::auto_rules::{
    law_drop_keeps_valid, law_poll_keeps_valid, law_set_keeps_valid, AutoView,
};
use crate::runs::order::{
    lemma_forgotten_in_order, lemma_in_order_twice, lemma_places_are_one, lemma_popped_in_order,
    lemma_registered_in_order, lemma_same_places_in_order, lemma_waiting_is_not_released,
    lemma_without_in_order, Queue,
};
use crate::runs::roster::{
    lemma_dropped_alike, lemma_forgotten_alike, lemma_forgotten_valid,
    lemma_notice_leaves_the_queue, lemma_popped_alike, lemma_popped_valid, lemma_registered_alike,
    lemma_registered_releases_no_one, lemma_without_valid, Roster,
};
use crate::runs::{history, law_same_use_same_answers, Answer, Run};
use crate::waiters::Poll;

verus! {

/// An operation on an auto-reset event, with what its caller puts in.
pub enum AutoRunOp {
    /// The event is set.
    SetEvent,
    /// The stored signal is asked for at once.
    TryWait,
    /// A future is made, under this name.
    Wait { future: nat },
    /// The future of this name is polled.
    Poll { future: nat, waker: Waker },
    /// The future of this name is dropped.
    DropFuture { future: nat },
}

/// An auto-reset event in use, the key that each of its futures has recorded, and which of them have
/// completed for good.
pub struct AutoRun {
    pub event: AutoView,
    pub futures: Map<nat, Option<usize>>,
    pub done: Set<nat>,
    /// Whether a future that was released and has noticed completes for good.
    pub lasting: bool,
}

impl AutoRun {
    /// An event that no one has used yet.
    pub open spec fn fresh(lasting: bool) -> Self {
        AutoRun { event: AutoView::unset(), futures: Map::empty(), done: Set::empty(), lasting }
    }

    /// Who waits for the event.
    pub open spec fn roster(self) -> Roster<Waker> {
        Roster { waiters: self.event.waiters, futures: self.futures }
    }
}

impl Run for AutoRun {
    type Op = AutoRunOp;

    type Answer = Answer;

    open spec fn valid(self) -> bool {
        self.event.valid() && self.roster().valid()
    }

    open spec fn alike(self, other: Self) -> bool {
        &&& self.event.is_set == other.event.is_set
        &&& self.done == other.done
        &&& self.lasting == other.lasting
        &&& self.roster().alike(other.roster())
    }

    open spec fn leads(self, op: AutoRunOp, post: Self, answer: Answer) -> bool {
        &&& post.lasting == self.lasting
        &&& match op {
            AutoRunOp::SetEvent => {
                &&& post.event == self.event.after_set()
                &&& post.futures == self.futures
                &&& post.done == self.done
                &&& answer == Answer::Woken(self.event.next())
            },
            AutoRunOp::TryWait => {
                &&& post.event == self.event.after_try_wait()
                &&& post.futures == self.futures
                &&& post.done == self.done
                &&& answer == Answer::Told(self.event.is_set)
            },
            AutoRunOp::Wait { future } => {
                &&& !self.futures.contains_key(future)
                &&& post.event == self.event
                &&& post.futures == self.futures.insert(future, None)
                &&& post.done == self.done.remove(future)
                &&& answer == Answer::Made
            },
            AutoRunOp::Poll { future, waker } => {
                &&& self.futures.contains_key(future)
                &&& if self.done.contains(future) {
                    &&& post.event == self.event
                    &&& post.futures == self.futures
                    &&& post.done == self.done
                    &&& answer == Answer::Polled(Poll::Ready(()))
                } else {
                    &&& post.futures == self.futures.insert(future, post.futures[future])
                    &&& post.done == if self.lasting && self.event.is_released(
                        self.futures[future],
                    ) {
                        self.done.insert(future)
                    } else {
                        self.done
                    }
                    &&& answer is Polled
                    &&& self.event.polled(
                        self.futures[future],
                        waker,
                        post.event,
                        post.futures[future],
                        answer->Polled_0,
                    )
                }
            },
            AutoRunOp::DropFuture { future } => {
                &&& self.futures.contains_key(future)
                &&& post.event == self.event.after_drop(self.futures[future])
                &&& post.futures == self.futures.remove(future)
                &&& post.done == self.done
                &&& answer == Answer::Woken(self.event.woken_by_drop(self.futures[future]))
            },
        }
    }

    proof fn law_same_operation_same_answer(
        op: AutoRunOp,
        a: Self,
        a2: Self,
        answer_a: Answer,
        b: Self,
        b2: Self,
        answer_b: Answer,
    ) {
        lemma_event_stays_valid(op, a, a2, answer_a);
        lemma_event_stays_valid(op, b, b2, answer_b);
        let (ra, rb) = (a.roster(), b.roster());
        match op {
            AutoRunOp::SetEvent => {
                if ra.waiters.waiting.len() > 0 {
                    lemma_popped_alike(ra, rb);
                    assert(a2.roster() =~= ra.popped());
                    assert(b2.roster() =~= rb.popped());
                }
            },
            AutoRunOp::TryWait => {},
            AutoRunOp::Wait { future } => {
                assert(ra.futures.contains_key(future) == rb.futures.contains_key(future));
                lemma_forgotten_alike(ra, rb, future);
                assert(a2.roster() =~= ra.made(future));
                assert(b2.roster() =~= rb.made(future));
            },
            AutoRunOp::Poll { future, waker } => {
                assert(ra.is_notified(future) == rb.is_notified(future));
                if !a.done.contains(future) {
                    if ra.is_notified(future) {
                        lemma_dropped_alike(ra, rb, future);
                        assert(a2.roster() =~= ra.without(future));
                        assert(b2.roster() =~= rb.without(future));
                    } else if a.event.is_set {
                        assert(a2.futures =~= a.futures);
                        assert(b2.futures =~= b.futures);
                    } else {
                        lemma_registered_alike(ra, a2.roster(), rb, b2.roster(), future, waker);
                    }
                }
            },
            AutoRunOp::DropFuture { future } => {
                assert(ra.is_notified(future) == rb.is_notified(future));
                lemma_dropped_alike(ra, rb, future);
                if ra.futures[future] is None {
                    assert(a2.roster() =~= ra.forgotten(future));
                    assert(b2.roster() =~= rb.forgotten(future));
                } else {
                    let sa = ra.without(future).forgotten(future);
                    let sb = rb.without(future).forgotten(future);
                    assert(sa.futures =~= a2.futures);
                    assert(sb.futures =~= b2.futures);
                    if ra.is_notified(future) && ra.waiters.waiting.len() > 0 {
                        lemma_notice_leaves_the_queue(ra, future);
                        lemma_notice_leaves_the_queue(rb, future);
                        lemma_popped_alike(sa, sb);
                        assert(a2.roster() =~= sa.popped());
                        assert(b2.roster() =~= sb.popped());
                        assert(ra.waiters.waiting[0].1 == rb.waiters.waiting[0].1);
                    } else {
                        if ra.is_notified(future) {
                            lemma_notice_leaves_the_queue(ra, future);
                            lemma_notice_leaves_the_queue(rb, future);
                        }
                        assert(a2.roster() =~= sa);
                        assert(b2.roster() =~= sb);
                    }
                }
            },
        }
    }
}

impl Queue for AutoRun {
    type Stored = Waker;

    open spec fn roster_of(self) -> Roster<Waker> {
        self.roster()
    }

    open spec fn polled(op: AutoRunOp, answer: Answer) -> Option<(nat, Waker)> {
        match op {
            AutoRunOp::Poll { future, waker } => if answer == Answer::Polled(Poll::Pending) {
                Some((future, waker))
            } else {
                None
            },
            _ => None,
        }
    }

    open spec fn gone(op: AutoRunOp, answer: Answer) -> Option<nat> {
        match op {
            AutoRunOp::Poll { future, waker } => if answer == Answer::Polled(Poll::Pending) {
                None
            } else {
                Some(future)
            },
            AutoRunOp::DropFuture { future } => Some(future),
            _ => None,
        }
    }

    open spec fn woken(answer: Answer) -> Seq<Waker> {
        match answer {
            Answer::Woken(Some(waker)) => seq![waker],
            _ => Seq::empty(),
        }
    }

    proof fn law_good_order(op: AutoRunOp, pre: Self, post: Self, answer: Answer) {
        Self::law_same_operation_same_answer(op, pre, post, answer, pre, post, answer);
        let (s, t) = (pre.roster(), post.roster());
        assert forall|g: nat, i: int| #[trigger] s.waits_at(g, i) implies !s.is_notified(g) by {
            lemma_waiting_is_not_released(s, g, i);
        }
        match op {
            AutoRunOp::SetEvent => {
                if s.waiters.waiting.len() > 0 {
                    lemma_popped_in_order(s);
                    lemma_popped_valid(s);
                    assert(t =~= s.popped());
                    lemma_places_are_one(s);
                    assert forall|g: nat, i: int| #[trigger] s.waits_at(g, i) implies t.is_notified(
                        g,
                    ) == (i < 1) by {
                        assert(t.is_notified(g) == s.waits_at(g, 0));
                    }
                } else {
                    lemma_same_places_in_order(s, t, None);
                }
            },
            AutoRunOp::TryWait => {
                lemma_same_places_in_order(s, t, None);
            },
            AutoRunOp::Wait { future } => {
                lemma_forgotten_in_order(s, future, None);
                lemma_forgotten_valid(s, future);
                assert(t =~= s.made(future));
            },
            AutoRunOp::Poll { future, waker } => {
                if pre.done.contains(future) {
                    lemma_same_places_in_order(s, t, Some(future));
                } else if s.is_notified(future) {
                    lemma_without_in_order(s, future);
                    lemma_without_valid(s, future);
                    assert(t =~= s.without(future));
                } else if pre.event.is_set {
                    assert(post.futures =~= pre.futures);
                    lemma_same_places_in_order(s, t, Some(future));
                } else {
                    lemma_registered_in_order(s, t, future, waker);
                    lemma_registered_releases_no_one(s, t, future, waker);
                }
            },
            AutoRunOp::DropFuture { future } => {
                if s.futures[future] is None {
                    lemma_forgotten_in_order(s, future, Some(future));
                    lemma_forgotten_valid(s, future);
                    assert(t =~= s.forgotten(future));
                } else {
                    lemma_without_in_order(s, future);
                    lemma_without_valid(s, future);
                    let one = s.without(future);
                    lemma_forgotten_in_order(one, future, None);
                    lemma_forgotten_valid(one, future);
                    let two = one.forgotten(future);
                    lemma_in_order_twice(s, one, two, Some(future));
                    assert(two.futures =~= post.futures);
                    if s.is_notified(future) {
                        lemma_notice_leaves_the_queue(s, future);
                        if s.waiters.waiting.len() > 0 {
                            lemma_popped_in_order(two);
                            lemma_popped_valid(two);
                            lemma_in_order_twice(s, two, two.popped(), Some(future));
                            assert(t =~= two.popped());
                            lemma_places_are_one(s);
                            assert forall|g: nat, i: int| #[trigger]
                                s.waits_at(g, i) implies t.is_notified(g) == (i < 1) by {
                                assert(two.waits_at(g, i));
                                assert(!two.is_notified(g));
                                lemma_places_are_one(two);
                                assert(t.is_notified(g) == two.waits_at(g, 0));
                            }
                        } else {
                            assert(t =~= two);
                        }
                    } else {
                        assert(t =~= two);
                    }
                }
            },
        }
    }
}

proof fn lemma_event_stays_valid(op: AutoRunOp, pre: AutoRun, post: AutoRun, answer: Answer)
    requires
        pre.valid(),
        pre.leads(op, post, answer),
    ensures
        post.event.valid(),
{
    match op {
        AutoRunOp::SetEvent => {
            law_set_keeps_valid(pre.event);
        },
        AutoRunOp::TryWait => {},
        AutoRunOp::Wait { future } => {},
        AutoRunOp::Poll { future, waker } => {
            assert(pre.roster().futures.contains_key(future));
            if !pre.done.contains(future) {
                law_poll_keeps_valid(
                    pre.event,
                    pre.futures[future],
                    waker,
                    post.event,
                    post.futures[future],
                    answer->Polled_0,
                );
            }
        },
        AutoRunOp::DropFuture { future } => {
            assert(pre.roster().futures.contains_key(future));
            law_drop_keeps_valid(pre.event, pre.futures[future]);
        },
    }
}

/// An auto-reset event in a container behaves as one of its own: one and the same sequence of
/// operations on two events of a kind gets the same answers from both, step by step. Whoever
/// completes a wait for the one completes that for the other, and the same are woken.
pub proof fn law_auto_reset_events_behave_alike(
    lasting: bool,
    ops: Seq<AutoRunOp>,
    states_a: Seq<AutoRun>,
    answers_a: Seq<Answer>,
    states_b: Seq<AutoRun>,
    answers_b: Seq<Answer>,
)
    requires
        history(states_a, ops, answers_a),
        history(states_b, ops, answers_b),
        states_a[0] == AutoRun::fresh(lasting),
        states_b[0] == AutoRun::fresh(lasting),
    ensures
        answers_a == answers_b,
        states_a.last().alike(states_b.last()),
{
    law_same_use_same_answers(ops, states_a, answers_a, states_b, answers_b);
}

} // verus!

//! What one and the same use of two manual-reset events gives.
use std::task::Waker;
use vstd::prelude::*;

use crate::manual_rules::{
    law_drop_skips_no_one, law_open_owes_everyone, law_poll, law_release_reaches_the_owed,
    law_set_releases_everyone, ManualView,
};
use crate::runs::order::{
    lemma_emptied_in_order, lemma_forgotten_in_order, lemma_in_order_twice, lemma_places_are_one,
    lemma_popped_in_order, lemma_registered_in_order, lemma_same_places_in_order,
    lemma_waiting_is_not_released, lemma_without_in_order, Queue,
};
use crate::runs::roster::{
    lemma_dropped_alike, lemma_emptied_alike, lemma_emptied_valid, lemma_forgotten_alike,
    lemma_forgotten_valid, lemma_place, lemma_popped_alike, lemma_popped_valid,
    lemma_registered_alike, lemma_registered_releases_no_one, lemma_same_place,
    lemma_without_valid, Roster,
};
use crate::runs::{history, law_same_use_same_answers, Answer, Run};
use crate::waiters::{lemma_position, Poll};

verus! {

/// An operation on a manual-reset event, with what its caller puts in.
pub enum ManualRunOp {
    /// The event is set.
    SetEvent,
    /// The door is opened.
    Open,
    /// A waiter that is owed its release is released.
    ReleaseNext,
    /// The event is reset.
    Reset,
    /// The caller asks whether the event is set.
    TryWait,
    /// A future is made, under this name.
    Wait { future: nat },
    /// The future of this name is polled.
    Poll { future: nat, waker: Waker },
    /// The future of this name is dropped.
    DropFuture { future: nat },
}

/// A manual-reset event in use, and the key that each of its futures has recorded.
pub struct ManualRun {
    pub event: ManualView,
    pub futures: Map<nat, Option<usize>>,
    /// Whether the event is used on one thread only.
    pub local: bool,
}

impl ManualRun {
    /// An event that no one has used yet.
    pub open spec fn fresh(local: bool) -> Self {
        ManualRun { event: ManualView::unset(), futures: Map::empty(), local }
    }

    /// Who waits for the event.
    pub open spec fn roster(self) -> Roster<Waker> {
        Roster { waiters: self.event.waiters, futures: self.futures }
    }
}

impl Run for ManualRun {
    type Op = ManualRunOp;

    type Answer = Answer;

    open spec fn valid(self) -> bool {
        self.event.valid() && self.roster().valid()
    }

    open spec fn alike(self, other: Self) -> bool {
        &&& self.event.is_set == other.event.is_set
        &&& self.event.owed == other.event.owed
        &&& self.local == other.local
        &&& self.roster().alike(other.roster())
    }

    open spec fn leads(self, op: ManualRunOp, post: Self, answer: Answer) -> bool {
        &&& post.local == self.local
        &&& match op {
            ManualRunOp::SetEvent => {
                &&& post.futures == self.futures
                &&& if self.event.is_set {
                    post.event == self.event && answer == Answer::AllWoken(Seq::empty())
                } else {
                    post.event == self.event.after_set() && answer == Answer::AllWoken(
                        self.event.wakers(),
                    )
                }
            },
            ManualRunOp::Open => {
                &&& post.event == self.event.after_open()
                &&& post.futures == self.futures
                &&& answer == Answer::Told(
                    !self.event.is_set && (self.local || self.event.waiters.waiting.len() > 0),
                )
            },
            ManualRunOp::ReleaseNext => {
                &&& post.event == self.event.after_release()
                &&& post.futures == self.futures
                &&& answer == Answer::Woken(self.event.next())
            },
            ManualRunOp::Reset => {
                &&& post.event == self.event.after_reset()
                &&& post.futures == self.futures
                &&& answer == Answer::Nothing
            },
            ManualRunOp::TryWait => {
                &&& post.event == self.event
                &&& post.futures == self.futures
                &&& answer == Answer::Told(self.event.is_set)
            },
            ManualRunOp::Wait { future } => {
                &&& !self.futures.contains_key(future)
                &&& post.event == self.event
                &&& post.futures == self.futures.insert(future, None)
                &&& answer == Answer::Made
            },
            ManualRunOp::Poll { future, waker } => {
                let (key, new_key) = (self.futures[future], post.futures[future]);
                &&& self.futures.contains_key(future)
                &&& post.futures == self.futures.insert(future, new_key)
                &&& answer is Polled
                &&& if self.local {
                    self.event.polled_release_first(
                        key,
                        waker,
                        post.event,
                        new_key,
                        answer->Polled_0,
                    )
                } else {
                    self.event.polled_door_first(key, waker, post.event, new_key, answer->Polled_0)
                }
            },
            ManualRunOp::DropFuture { future } => {
                &&& self.futures.contains_key(future)
                &&& post.event == self.event.after_drop(self.futures[future])
                &&& post.futures == self.futures.remove(future)
                &&& answer == Answer::Nothing
            },
        }
    }

    proof fn law_same_operation_same_answer(
        op: ManualRunOp,
        a: Self,
        a2: Self,
        answer_a: Answer,
        b: Self,
        b2: Self,
        answer_b: Answer,
    ) {
        lemma_event_stays_valid(op, a, a2, answer_a);
        lemma_event_stays_valid(op, b, b2, answer_b);
        let (ra, rb) = (a.roster(), b.roster());
        match op {
            ManualRunOp::SetEvent => {
                if !a.event.is_set {
                    assert(a.event.wakers() =~= b.event.wakers()) by {
                        assert forall|i: int| 0 <= i < ra.waiters.waiting.len() implies (
                        #[trigger] ra.waiters.waiting[i]).1 == rb.waiters.waiting[i].1 by {}
                    }
                    lemma_emptied_alike(ra, rb);
                    assert(a2.roster() =~= ra.emptied());
                    assert(b2.roster() =~= rb.emptied());
                }
            },
            ManualRunOp::Open => {},
            ManualRunOp::ReleaseNext => {
                if a.event.owed > 0 {
                    lemma_popped_alike(ra, rb);
                    assert(a2.roster() =~= ra.popped());
                    assert(b2.roster() =~= rb.popped());
                }
            },
            ManualRunOp::Reset => {},
            ManualRunOp::TryWait => {},
            ManualRunOp::Wait { future } => {
                assert(ra.futures.contains_key(future) == rb.futures.contains_key(future));
                lemma_forgotten_alike(ra, rb, future);
                assert(a2.roster() =~= ra.made(future));
                assert(b2.roster() =~= rb.made(future));
            },
            ManualRunOp::Poll { future, waker } => {
                assert(ra.is_notified(future) == rb.is_notified(future));
                if a.event.is_set && !(a.local && ra.is_notified(future)) {
                    assert(a2.futures =~= a.futures);
                    assert(b2.futures =~= b.futures);
                } else if ra.is_notified(future) {
                    lemma_dropped_alike(ra, rb, future);
                    lemma_same_claim(a, b, future);
                    assert(a2.roster() =~= ra.without(future));
                    assert(b2.roster() =~= rb.without(future));
                } else {
                    lemma_registered_alike(ra, a2.roster(), rb, b2.roster(), future, waker);
                }
            },
            ManualRunOp::DropFuture { future } => {
                assert(rb.futures.contains_key(future));
                lemma_dropped_alike(ra, rb, future);
                if ra.futures[future] is None {
                    assert(a2.roster() =~= ra.forgotten(future));
                    assert(b2.roster() =~= rb.forgotten(future));
                } else {
                    lemma_same_claim(a, b, future);
                    assert(a2.futures =~= ra.without(future).forgotten(future).futures);
                    assert(b2.futures =~= rb.without(future).forgotten(future).futures);
                    assert(a2.roster() =~= ra.without(future).forgotten(future));
                    assert(b2.roster() =~= rb.without(future).forgotten(future));
                }
            },
        }
    }
}

impl Queue for ManualRun {
    type Stored = Waker;

    open spec fn roster_of(self) -> Roster<Waker> {
        self.roster()
    }

    open spec fn polled(op: ManualRunOp, answer: Answer) -> Option<(nat, Waker)> {
        match op {
            ManualRunOp::Poll { future, waker } => if answer == Answer::Polled(Poll::Pending) {
                Some((future, waker))
            } else {
                None
            },
            _ => None,
        }
    }

    open spec fn gone(op: ManualRunOp, answer: Answer) -> Option<nat> {
        match op {
            ManualRunOp::Poll { future, waker } => if answer == Answer::Polled(Poll::Pending) {
                None
            } else {
                Some(future)
            },
            ManualRunOp::DropFuture { future } => Some(future),
            _ => None,
        }
    }

    open spec fn woken(answer: Answer) -> Seq<Waker> {
        match answer {
            Answer::Woken(Some(waker)) => seq![waker],
            Answer::AllWoken(wakers) => wakers,
            _ => Seq::empty(),
        }
    }

    proof fn law_good_order(op: ManualRunOp, pre: Self, post: Self, answer: Answer) {
        Self::law_same_operation_same_answer(op, pre, post, answer, pre, post, answer);
        let (s, t) = (pre.roster(), post.roster());
        assert forall|g: nat, i: int| #[trigger] s.waits_at(g, i) implies !s.is_notified(g) by {
            lemma_waiting_is_not_released(s, g, i);
        }
        match op {
            ManualRunOp::SetEvent => {
                if pre.event.is_set {
                    lemma_same_places_in_order(s, t, None);
                } else {
                    assert(t =~= s.emptied());
                    lemma_emptied_in_order(s);
                    lemma_emptied_valid(s);
                }
            },
            ManualRunOp::ReleaseNext => {
                if pre.event.owed > 0 {
                    lemma_popped_in_order(s);
                    lemma_popped_valid(s);
                    assert(t =~= s.popped());
                    lemma_places_are_one(s);
                    assert forall|g: nat, i: int| #[trigger] s.waits_at(g, i) implies t.is_notified(
                        g,
                    ) == (i < 1) by {
                        assert(t.is_notified(g) == s.waits_at(g, 0));
                    }
                } else {
                    lemma_same_places_in_order(s, t, None);
                }
            },
            ManualRunOp::Open | ManualRunOp::Reset | ManualRunOp::TryWait => {
                lemma_same_places_in_order(s, t, None);
            },
            ManualRunOp::Wait { future } => {
                lemma_forgotten_in_order(s, future, None);
                lemma_forgotten_valid(s, future);
                assert(t =~= s.made(future));
            },
            ManualRunOp::Poll { future, waker } => {
                if pre.event.is_set && !(pre.local && s.is_notified(future)) {
                    assert(post.futures =~= pre.futures);
                    lemma_same_places_in_order(s, t, Some(future));
                } else if s.is_notified(future) {
                    lemma_without_in_order(s, future);
                    lemma_without_valid(s, future);
                    assert(t =~= s.without(future));
                } else {
                    lemma_registered_in_order(s, t, future, waker);
                    lemma_registered_releases_no_one(s, t, future, waker);
                }
            },
            ManualRunOp::DropFuture { future } => {
                if s.futures[future] is None {
                    lemma_forgotten_in_order(s, future, Some(future));
                    lemma_forgotten_valid(s, future);
                    assert(t =~= s.forgotten(future));
                } else {
                    lemma_without_in_order(s, future);
                    lemma_without_valid(s, future);
                    let one = s.without(future);
                    lemma_forgotten_in_order(one, future, None);
                    lemma_forgotten_valid(one, future);
                    lemma_in_order_twice(s, one, one.forgotten(future), Some(future));
                    assert(one.forgotten(future).futures =~= post.futures);
                    assert(t =~= one.forgotten(future));
                }
            },
        }
    }
}

/// In runs that are alike, the same futures are owed a release.
proof fn lemma_same_claim(a: ManualRun, b: ManualRun, f: nat)
    requires
        a.valid(),
        b.valid(),
        a.alike(b),
        a.futures.contains_key(f),
        a.futures[f] is Some,
    ensures
        a.event.is_owed(a.futures[f]->0) == b.event.is_owed(b.futures[f]->0),
{
    let (ra, rb) = (a.roster(), b.roster());
    assert(rb.futures.contains_key(f));
    assert(ra.is_notified(f) == rb.is_notified(f));
    if ra.is_notified(f) {
        let i = lemma_place(ra, f);
        let j = lemma_place(rb, f);
    } else {
        let i = lemma_same_place(ra, rb, f);
        lemma_claim(a.event, a.futures[f]->0, i);
        lemma_claim(b.event, b.futures[f]->0, i);
    }
}

/// A waiter at place `i` of the queue is owed a release if it is among the first that are.
proof fn lemma_claim(v: ManualView, k: usize, i: int)
    requires
        v.valid(),
        0 <= i < v.waiters.waiting.len(),
        v.waiters.waiting[i].0 == k,
    ensures
        v.is_owed(k) == (i < v.owed),
{
    if v.is_owed(k) {
        let j = choose|j: int| 0 <= j < v.owed && (#[trigger] v.waiters.waiting[j]).0 == k;
        lemma_position(v.waiters, k, i);
        lemma_position(v.waiters, k, j);
    }
}

proof fn lemma_event_stays_valid(op: ManualRunOp, pre: ManualRun, post: ManualRun, answer: Answer)
    requires
        pre.valid(),
        pre.leads(op, post, answer),
    ensures
        post.event.valid(),
{
    match op {
        ManualRunOp::SetEvent => {
            law_set_releases_everyone(pre.event);
        },
        ManualRunOp::Open => {
            law_open_owes_everyone(pre.event);
        },
        ManualRunOp::ReleaseNext => {
            law_release_reaches_the_owed(pre.event);
        },
        ManualRunOp::Reset => {},
        ManualRunOp::TryWait => {},
        ManualRunOp::Wait { future } => {},
        ManualRunOp::Poll { future, waker } => {
            assert(pre.roster().futures.contains_key(future));
            law_poll(
                pre.event,
                pre.futures[future],
                waker,
                post.event,
                post.futures[future],
                answer->Polled_0,
            );
        },
        ManualRunOp::DropFuture { future } => {
            assert(pre.roster().futures.contains_key(future));
            law_drop_skips_no_one(pre.event, pre.futures[future]);
        },
    }
}

/// A manual-reset event in a container behaves as one of its own: one and the same sequence of
/// operations on two events of a kind gets the same answers from both, step by step. Whoever gets
/// through the one gets through the other, and the same are woken in the same order.
pub proof fn law_manual_reset_events_behave_alike(
    local: bool,
    ops: Seq<ManualRunOp>,
    states_a: Seq<ManualRun>,
    answers_a: Seq<Answer>,
    states_b: Seq<ManualRun>,
    answers_b: Seq<Answer>,
)
    requires
        history(states_a, ops, answers_a),
        history(states_b, ops, answers_b),
        states_a[0] == ManualRun::fresh(local),
        states_b[0] == ManualRun::fresh(local),
    ensures
        answers_a == answers_b,
        states_a.last().alike(states_b.last()),
{
    law_same_use_same_answers(ops, states_a, answers_a, states_b, answers_b);
}

} // verus!

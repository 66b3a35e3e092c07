//! What one and the same use of two manual-reset events gives whose waiters stay in the queue until
//! they look again.
use std::task::Waker;
use vstd::prelude::*;

use crate::door_rules::{armed, first_armed, law_drop, law_poll, law_take_in_order, DoorView};
use crate::runs::roster::{
    lemma_dropped_alike, lemma_forgotten_alike, lemma_registered_alike, lemma_restored_alike,
    Roster,
};
use crate::runs::{history, law_same_use_same_answers, Answer, Run};

verus! {

/// What a future does at a door, and who makes it; `W` is what is stored for a waiter.
pub enum FutureOp<W> {
    /// The future of this name is made.
    Wait { future: nat },
    /// The future of this name is polled, to wait with this stored.
    Poll { future: nat, stored: W },
    /// The future of this name is dropped.
    DropFuture { future: nat },
}

/// A door in use, and the key that each of its futures has recorded.
pub struct DoorUse<W> {
    pub event: DoorView<W>,
    pub futures: Map<nat, Option<usize>>,
}

impl<W> DoorUse<W> {
    /// An event that no one has used yet.
    pub open spec fn fresh() -> Self {
        DoorUse { event: DoorView::unset(), futures: Map::empty() }
    }

    /// Who waits for the event.
    pub open spec fn roster(self) -> Roster<W> {
        Roster { waiters: self.event.waiters, futures: self.futures }
    }

    /// The event is valid, and what its callers know fits it.
    pub open spec fn valid(self) -> bool {
        self.event.valid() && self.roster().valid()
    }

    /// The two uses differ in the keys of their futures at most.
    pub open spec fn alike(self, other: Self) -> bool {
        self.event.is_set == other.event.is_set && self.roster().alike(other.roster())
    }

    /// What a future does leads from this state to `post`, and its caller gets `answer`.
    pub open spec fn leads(self, op: FutureOp<W>, post: Self, answer: Answer) -> bool {
        match op {
            FutureOp::Wait { future } => {
                &&& !self.futures.contains_key(future)
                &&& post.event == self.event
                &&& post.futures == self.futures.insert(future, None)
                &&& answer == Answer::Made
            },
            FutureOp::Poll { future, stored } => {
                &&& self.futures.contains_key(future)
                &&& post.futures == self.futures.insert(future, post.futures[future])
                &&& answer is Polled
                &&& self.event.polled(
                    self.futures[future],
                    stored,
                    post.event,
                    post.futures[future],
                    answer->Polled_0,
                )
            },
            FutureOp::DropFuture { future } => {
                &&& self.futures.contains_key(future)
                &&& post.event == self.event.after_drop(self.futures[future])
                &&& post.futures == self.futures.remove(future)
                &&& answer == Answer::Nothing
            },
        }
    }
}

proof fn lemma_same_answer<W>(
    op: FutureOp<W>,
    a: DoorUse<W>,
    a2: DoorUse<W>,
    answer_a: Answer,
    b: DoorUse<W>,
    b2: DoorUse<W>,
    answer_b: Answer,
)
    requires
        a.valid(),
        b.valid(),
        a.alike(b),
        a.leads(op, a2, answer_a),
        b.leads(op, b2, answer_b),
    ensures
        answer_a == answer_b,
        a2.valid(),
        b2.valid(),
        a2.alike(b2),
{
    lemma_event_stays_valid(op, a, a2, answer_a);
    lemma_event_stays_valid(op, b, b2, answer_b);
    let (ra, rb) = (a.roster(), b.roster());
    match op {
        FutureOp::Wait { future } => {
            assert(ra.futures.contains_key(future) == rb.futures.contains_key(future));
            lemma_forgotten_alike(ra, rb, future);
            assert(a2.roster() =~= ra.made(future));
            assert(b2.roster() =~= rb.made(future));
        },
        FutureOp::Poll { future, stored } => {
            if a.event.is_set {
                if ra.futures[future] is None {
                    assert(a2.futures =~= a.futures);
                    assert(b2.futures =~= b.futures);
                } else {
                    lemma_dropped_alike(ra, rb, future);
                    assert(a2.roster() =~= ra.without(future));
                    assert(b2.roster() =~= rb.without(future));
                }
            } else {
                assert(ra.waiters.notified =~= Set::empty());
                lemma_registered_alike(ra, a2.roster(), rb, b2.roster(), future, stored);
            }
        },
        FutureOp::DropFuture { future } => {
            lemma_dropped_alike(ra, rb, future);
            if ra.futures[future] is None {
                assert(a2.roster() =~= ra.forgotten(future));
                assert(b2.roster() =~= rb.forgotten(future));
            } else {
                assert(a2.futures =~= ra.without(future).forgotten(future).futures);
                assert(b2.futures =~= rb.without(future).forgotten(future).futures);
                assert(a2.roster() =~= ra.without(future).forgotten(future));
                assert(b2.roster() =~= rb.without(future).forgotten(future));
            }
        },
    }
}

proof fn lemma_event_stays_valid<W>(
    op: FutureOp<W>,
    pre: DoorUse<W>,
    post: DoorUse<W>,
    answer: Answer,
)
    requires
        pre.valid(),
        pre.leads(op, post, answer),
    ensures
        post.event.valid(),
{
    match op {
        FutureOp::Wait { future } => {},
        FutureOp::Poll { future, stored } => {
            assert(pre.roster().futures.contains_key(future));
            law_poll(
                pre.event,
                pre.futures[future],
                stored,
                post.event,
                post.futures[future],
                answer->Polled_0,
            );
        },
        FutureOp::DropFuture { future } => {
            assert(pre.roster().futures.contains_key(future));
            law_drop(pre.event, pre.futures[future]);
        },
    }
}

/// An operation on an event that is shared between threads, with what its caller puts in.
pub enum DoorOp {
    /// The event is set.
    SetEvent,
    /// The event is reset.
    Reset,
    /// The caller asks whether the event is set.
    IsSet,
    /// A future does this.
    Future(FutureOp<Waker>),
}

/// An event in use that is shared between threads.
pub struct DoorRun {
    pub door: DoorUse<Waker>,
}

impl DoorRun {
    /// An event that no one has used yet.
    pub open spec fn fresh() -> Self {
        DoorRun { door: DoorUse::fresh() }
    }
}

impl Run for DoorRun {
    type Op = DoorOp;

    type Answer = Answer;

    open spec fn valid(self) -> bool {
        self.door.valid()
    }

    open spec fn alike(self, other: Self) -> bool {
        self.door.alike(other.door)
    }

    open spec fn leads(self, op: DoorOp, post: Self, answer: Answer) -> bool {
        let event = self.door.event;
        match op {
            DoorOp::SetEvent => {
                &&& post.door == (DoorUse { event: event.after_open(), ..self.door })
                &&& answer == Answer::AllWoken(
                    if event.is_set {
                        Seq::empty()
                    } else {
                        event.waiters.waiting.map_values(|e: (usize, Waker)| e.1)
                    },
                )
            },
            DoorOp::Reset => {
                &&& post.door == (DoorUse { event: event.after_reset(), ..self.door })
                &&& answer == Answer::Nothing
            },
            DoorOp::IsSet => post == self && answer == Answer::Told(event.is_set),
            DoorOp::Future(op) => self.door.leads(op, post.door, answer),
        }
    }

    proof fn law_same_operation_same_answer(
        op: DoorOp,
        a: Self,
        a2: Self,
        answer_a: Answer,
        b: Self,
        b2: Self,
        answer_b: Answer,
    ) {
        match op {
            DoorOp::SetEvent => {
                let (qa, qb) = (a.door.event.waiters.waiting, b.door.event.waiters.waiting);
                assert(a.door.roster().waiters.waiting == qa);
                assert(qa.map_values(|e: (usize, Waker)| e.1) =~= qb.map_values(
                    |e: (usize, Waker)| e.1,
                ));
            },
            DoorOp::Future(op) => {
                lemma_same_answer(op, a.door, a2.door, answer_a, b.door, b2.door, answer_b);
            },
            _ => {},
        }
    }
}

/// A manual-reset event in a container whose waiters stay in the queue behaves as one of its own:
/// one and the same sequence of operations on two such events gets the same answers from both, step
/// by step.
pub proof fn law_doors_behave_alike(
    ops: Seq<DoorOp>,
    states_a: Seq<DoorRun>,
    answers_a: Seq<Answer>,
    states_b: Seq<DoorRun>,
    answers_b: Seq<Answer>,
)
    requires
        history(states_a, ops, answers_a),
        history(states_b, ops, answers_b),
        states_a[0] == DoorRun::fresh(),
        states_b[0] == DoorRun::fresh(),
    ensures
        answers_a == answers_b,
        states_a.last().alike(states_b.last()),
{
    law_same_use_same_answers(ops, states_a, answers_a, states_b, answers_b);
}

/// An operation on an event that is used on one thread, with what its caller puts in.
pub enum LocalDoorOp {
    /// The event is set.
    SetEvent,
    /// The door is opened.
    Open,
    /// The waker to wake next is taken.
    TakeNext,
    /// The event is reset.
    Reset,
    /// The caller asks whether the event is set.
    TryWait,
    /// A future does this.
    Future(FutureOp<Option<Waker>>),
}

/// An event in use on one thread.
pub struct LocalDoorRun {
    pub door: DoorUse<Option<Waker>>,
}

impl LocalDoorRun {
    /// An event that no one has used yet.
    pub open spec fn fresh() -> Self {
        LocalDoorRun { door: DoorUse::fresh() }
    }
}

impl Run for LocalDoorRun {
    type Op = LocalDoorOp;

    type Answer = Answer;

    open spec fn valid(self) -> bool {
        self.door.valid()
    }

    open spec fn alike(self, other: Self) -> bool {
        self.door.alike(other.door)
    }

    open spec fn leads(self, op: LocalDoorOp, post: Self, answer: Answer) -> bool {
        let event = self.door.event;
        match op {
            LocalDoorOp::SetEvent => if event.is_set {
                post == self && answer == Answer::AllWoken(Seq::empty())
            } else {
                &&& post.door == (DoorUse { event: event.after_set(), ..self.door })
                &&& answer == Answer::AllWoken(armed(event.waiters.waiting))
            },
            LocalDoorOp::Open => {
                &&& post.door == (DoorUse { event: event.after_open(), ..self.door })
                &&& answer == Answer::Told(!event.is_set)
            },
            LocalDoorOp::TakeNext => {
                &&& post.door == (DoorUse { event: event.after_take(), ..self.door })
                &&& answer == Answer::Woken(event.next())
            },
            LocalDoorOp::Reset => {
                &&& post.door == (DoorUse { event: event.after_reset(), ..self.door })
                &&& answer == Answer::Nothing
            },
            LocalDoorOp::TryWait => post == self && answer == Answer::Told(event.is_set),
            LocalDoorOp::Future(op) => self.door.leads(op, post.door, answer),
        }
    }

    proof fn law_same_operation_same_answer(
        op: LocalDoorOp,
        a: Self,
        a2: Self,
        answer_a: Answer,
        b: Self,
        b2: Self,
        answer_b: Answer,
    ) {
        let (ra, rb) = (a.door.roster(), b.door.roster());
        let (qa, qb) = (ra.waiters.waiting, rb.waiters.waiting);
        match op {
            LocalDoorOp::SetEvent => {
                lemma_same_armed(qa, qb);
                if !a.door.event.is_set {
                    lemma_restored_alike(ra, a2.door.roster(), rb, b2.door.roster());
                }
            },
            LocalDoorOp::TakeNext => {
                lemma_same_armed(qa, qb);
                law_take_in_order(qa);
                assert forall|i: int| 0 <= i < qa.len() implies (
                #[trigger] a2.door.roster().waiters.waiting[i]).1
                    == b2.door.roster().waiters.waiting[i].1 by {
                    assert(qa[i].1 == qb[i].1);
                }
                lemma_restored_alike(ra, a2.door.roster(), rb, b2.door.roster());
            },
            LocalDoorOp::Future(op) => {
                lemma_same_answer(op, a.door, a2.door, answer_a, b.door, b2.door, answer_b);
            },
            _ => {},
        }
    }
}

/// Which wakers are stored in a queue, and where, does not depend on the keys.
proof fn lemma_same_armed(qa: Seq<(usize, Option<Waker>)>, qb: Seq<(usize, Option<Waker>)>)
    requires
        qa.len() == qb.len(),
        forall|i: int| 0 <= i < qa.len() ==> (#[trigger] qa[i]).1 == qb[i].1,
    ensures
        armed(qa) == armed(qb),
        first_armed(qa) == first_armed(qb),
    decreases qa.len(),
{
    if qa.len() > 0 {
        assert(qa[0].1 == qb[0].1);
        assert forall|i: int| 0 <= i < qa.drop_first().len() implies (
        #[trigger] qa.drop_first()[i]).1 == qb.drop_first()[i].1 by {
            assert(qa[i + 1].1 == qb[i + 1].1);
        }
        lemma_same_armed(qa.drop_first(), qb.drop_first());
    }
}

/// A single-threaded manual-reset event in a container whose waiters stay in the queue behaves as
/// one of its own: one and the same sequence of operations on two such events gets the same answers
/// from both, step by step.
pub proof fn law_local_doors_behave_alike(
    ops: Seq<LocalDoorOp>,
    states_a: Seq<LocalDoorRun>,
    answers_a: Seq<Answer>,
    states_b: Seq<LocalDoorRun>,
    answers_b: Seq<Answer>,
)
    requires
        history(states_a, ops, answers_a),
        history(states_b, ops, answers_b),
        states_a[0] == LocalDoorRun::fresh(),
        states_b[0] == LocalDoorRun::fresh(),
    ensures
        answers_a == answers_b,
        states_a.last().alike(states_b.last()),
{
    law_same_use_same_answers(ops, states_a, answers_a, states_b, answers_b);
}

} // verus!

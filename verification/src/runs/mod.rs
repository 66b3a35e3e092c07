//! What the use of a primitive gives, from beginning to end: that one and the same use of two
//! primitives gives the same, and, in `order`, who is served before whom and woken by what.
//!
//! A primitive that was made on its own and one in a container say what they do in the same words,
//! those of the view of their state. A use of either is a run: a series of operations, each with
//! what its caller gets. Which keys its waiters have is a primitive's own business, so that here a
//! caller tells its futures apart by names of its own.
use std::task::Waker;
use vstd::prelude::*;

use crate::waiters::Poll;

pub mod auto;
pub mod door;
pub mod manual;
pub mod mutex;
pub mod order;
pub mod roster;

verus! {

/// What the caller of an operation on an event gets.
pub enum Answer {
    /// Nothing.
    Nothing,
    /// Whether it is so.
    Told(bool),
    /// A future.
    Made,
    /// The outcome of a poll.
    Polled(Poll<()>),
    /// The waker to wake.
    Woken(Option<Waker>),
    /// The wakers to wake, in this order.
    AllWoken(Seq<Waker>),
}

/// A primitive in use, and what its callers know of their futures.
pub trait Run: Sized {
    /// An operation, with what its caller puts in.
    type Op;

    /// What the caller of an operation gets.
    type Answer;

    /// The primitive is valid, and what its callers know fits it.
    spec fn valid(self) -> bool;

    /// The two runs differ in the keys of their futures at most.
    spec fn alike(self, other: Self) -> bool;

    /// The operation leads from this state to `post`, and its caller gets `answer`.
    spec fn leads(self, op: Self::Op, post: Self, answer: Self::Answer) -> bool;

    /// Two primitives that differ in the keys of their futures at most answer one and the same
    /// operation alike, and then again differ in keys at most.
    proof fn law_same_operation_same_answer(
        op: Self::Op,
        a: Self,
        a2: Self,
        answer_a: Self::Answer,
        b: Self,
        b2: Self,
        answer_b: Self::Answer,
    )
        requires
            a.valid(),
            b.valid(),
            a.alike(b),
            a.leads(op, a2, answer_a),
            b.leads(op, b2, answer_b),
        ensures
            answer_a == answer_b,
            a2.valid(),
            b2.valid(),
            a2.alike(b2),
    ;
}

/// The operations `ops` lead through `states`, and their callers get `answers`.
pub open spec fn history<R: Run>(
    states: Seq<R>,
    ops: Seq<R::Op>,
    answers: Seq<R::Answer>,
) -> bool {
    &&& states.len() == ops.len() + 1
    &&& answers.len() == ops.len()
    &&& forall|i: int|
        0 <= i < ops.len() ==> states[i].leads(#[trigger] ops[i], states[i + 1], answers[i])
}

/// One and the same sequence of operations on two primitives that differ in the keys of their
/// futures at most gets the same answers from both, step by step.
pub proof fn law_same_use_same_answers<R: Run>(
    ops: Seq<R::Op>,
    states_a: Seq<R>,
    answers_a: Seq<R::Answer>,
    states_b: Seq<R>,
    answers_b: Seq<R::Answer>,
)
    requires
        history(states_a, ops, answers_a),
        history(states_b, ops, answers_b),
        states_a[0].valid(),
        states_b[0].valid(),
        states_a[0].alike(states_b[0]),
    ensures
        answers_a == answers_b,
        states_a.last().valid(),
        states_b.last().valid(),
        states_a.last().alike(states_b.last()),
    decreases ops.len(),
{
    if ops.len() > 0 {
        let n = ops.len() - 1;
        let (before_a, before_b) = (states_a.drop_last(), states_b.drop_last());
        assert forall|i: int| 0 <= i < n implies before_a[i].leads(
            #[trigger] ops.drop_last()[i],
            before_a[i + 1],
            answers_a.drop_last()[i],
        ) by {
            assert(states_a[i].leads(ops[i], states_a[i + 1], answers_a[i]));
        }
        assert forall|i: int| 0 <= i < n implies before_b[i].leads(
            #[trigger] ops.drop_last()[i],
            before_b[i + 1],
            answers_b.drop_last()[i],
        ) by {
            assert(states_b[i].leads(ops[i], states_b[i + 1], answers_b[i]));
        }
        law_same_use_same_answers(
            ops.drop_last(),
            before_a,
            answers_a.drop_last(),
            before_b,
            answers_b.drop_last(),
        );
        assert(states_a[n].leads(ops[n], states_a[n + 1], answers_a[n]));
        assert(states_b[n].leads(ops[n], states_b[n + 1], answers_b[n]));
        R::law_same_operation_same_answer(
            ops[n],
            states_a[n],
            states_a[n + 1],
            answers_a[n],
            states_b[n],
            states_b[n + 1],
            answers_b[n],
        );
        assert(answers_a =~= answers_a.drop_last().push(answers_a[n]));
        assert(answers_b =~= answers_b.drop_last().push(answers_b[n]));
    }
}

} // verus!

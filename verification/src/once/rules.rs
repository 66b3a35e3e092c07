//! What a one-time event is, and what its operations do to it.
//!
//! An event connects one sender and one receiver. The sender either sends one value or is
//! dropped without; the receiver either picks up the outcome or gives up. Whichever endpoint
//! leaves last cleans the event up.
use std::task::Waker;
use vstd::prelude::*;

use crate::disconnected::Disconnected;

verus! {

/// How far an event has come.
pub enum Stage<T> {
    /// Neither endpoint exists yet.
    Unbound,
    /// Both endpoints exist and the receiver is not waiting.
    Bound,
    /// The receiver is waiting; this waker wakes it.
    Awaiting(Waker),
    /// The sender has sent this value, which has not been picked up.
    Sent(T),
    /// An endpoint has left without passing or picking up a value.
    Disconnected,
    /// The receiver has picked up the value.
    Consumed,
}

/// The state of an event: its stage, and which of its endpoints are attached to it.
pub struct OnceView<T> {
    pub stage: Stage<T>,
    pub sender: bool,
    pub receiver: bool,
}

impl<T> OnceView<T> {
    /// An event without endpoints.
    pub open spec fn unbound() -> Self {
        OnceView { stage: Stage::Unbound, sender: false, receiver: false }
    }

    /// An event whose endpoints have done nothing yet.
    pub open spec fn bound() -> Self {
        OnceView { stage: Stage::Bound, sender: true, receiver: true }
    }

    /// The endpoints that are attached fit the stage: a sender leaves with what it does, and a
    /// receiver with the value it picks up.
    pub open spec fn valid(self) -> bool {
        match self.stage {
            Stage::Unbound => !self.sender && !self.receiver,
            Stage::Bound => true,
            Stage::Awaiting(_) => true,
            Stage::Sent(_) => !self.sender,
            Stage::Disconnected => !(self.sender && self.receiver),
            Stage::Consumed => !self.sender && !self.receiver,
        }
    }

    /// An endpoint that leaves says so: in every other stage it is still attached.
    pub open spec fn tidy(self) -> bool {
        &&& self.valid()
        &&& match self.stage {
            Stage::Bound | Stage::Awaiting(_) => self.sender && self.receiver,
            Stage::Sent(_) => self.receiver,
            _ => true,
        }
    }

    /// The waker of the receiver, if it is waiting.
    pub open spec fn waiting(self) -> Option<Waker> {
        match self.stage {
            Stage::Awaiting(w) => Some(w),
            _ => None,
        }
    }

    /// The event after the sender sent `value` and left. If the receiver has said that it
    /// left, the value is dropped.
    pub open spec fn after_set(self, value: T) -> Self {
        OnceView {
            stage: match self.stage {
                Stage::Disconnected => Stage::Disconnected,
                _ => Stage::Sent(value),
            },
            sender: false,
            ..self
        }
    }

    /// The event after the sender left without sending.
    pub open spec fn after_sender_drop(self) -> Self {
        OnceView { stage: Stage::Disconnected, sender: false, ..self }
    }

    /// What the sender is told when it leaves: `Err` if the receiver has said that it left.
    pub open spec fn sender_result(self) -> Result<(), Disconnected> {
        if self.stage is Disconnected {
            Err(Disconnected)
        } else {
            Ok(())
        }
    }

    /// What the receiver is told when it looks: the value, that none will come, or to wait.
    pub open spec fn poll_result(self) -> Option<Result<T, Disconnected>> {
        match self.stage {
            Stage::Sent(value) => Some(Ok(value)),
            Stage::Disconnected => Some(Err(Disconnected)),
            _ => None,
        }
    }

    /// The event after the receiver looked, to be woken by `waker` if it has to wait. With an
    /// outcome, the receiver leaves.
    pub open spec fn after_poll(self, waker: Waker) -> Self {
        match self.stage {
            Stage::Sent(_) => OnceView { stage: Stage::Consumed, receiver: false, ..self },
            Stage::Disconnected => OnceView { receiver: false, ..self },
            _ => OnceView { stage: Stage::Awaiting(waker), ..self },
        }
    }

    /// Whether the receiver would be told an outcome if it looked.
    pub open spec fn is_ready(self) -> bool {
        self.stage is Sent || self.stage is Disconnected
    }

    /// What the receiver is told when it looks for the last time.
    pub open spec fn final_result(self) -> Result<Option<T>, Disconnected> {
        match self.stage {
            Stage::Sent(value) => Ok(Some(value)),
            Stage::Disconnected => Err(Disconnected),
            _ => Ok(None),
        }
    }

    /// The event after the receiver looked for the last time and left.
    pub open spec fn after_final_poll(self) -> Self {
        OnceView { stage: Stage::Disconnected, receiver: false, ..self }
    }

    /// How many endpoints are attached.
    pub open spec fn attached(self) -> int {
        (if self.sender {
            1int
        } else {
            0
        }) + (if self.receiver {
            1int
        } else {
            0
        })
    }

    /// The event after the sender left without a word.
    pub open spec fn after_sender_left(self) -> Self {
        OnceView { sender: false, ..self }
    }

    /// The event after the receiver left without a word.
    pub open spec fn after_receiver_left(self) -> Self {
        OnceView { receiver: false, ..self }
    }

    /// Both endpoints have been and gone.
    pub open spec fn is_over(self) -> bool {
        !(self.stage is Unbound) && !self.sender && !self.receiver
    }
}

/// What an endpoint leaves for its caller to do once it has gone.
pub struct Departure {
    /// The waker to wake.
    pub waker: Option<Waker>,
    /// Whether the storage of the event is to be released now.
    pub release: bool,
}

/// What a receiver got, and what it leaves for its caller to do.
pub struct Reception<R> {
    /// What the receiver got.
    pub outcome: R,
    /// Whether the storage of the event is to be released now.
    pub release: bool,
}

/// Every operation of an endpoint keeps the event valid, and tidy unless the endpoint leaves
/// without a word.
pub proof fn law_operations_keep_valid<T>(v: OnceView<T>, value: T, waker: Waker)
    requires
        v.valid(),
    ensures
        v.sender ==> v.after_set(value).valid() && v.after_sender_drop().valid(),
        v.receiver ==> v.after_poll(waker).valid() && v.after_final_poll().valid(),
        v.after_sender_left().valid() && v.after_receiver_left().valid(),
        v.tidy() && v.sender ==> v.after_set(value).tidy() && v.after_sender_drop().tidy(),
        v.tidy() && v.receiver ==> v.after_poll(waker).tidy() && v.after_final_poll().tidy(),
{
}

/// A value that is sent arrives: the receiver is woken if it was waiting, and is told the
/// value when it looks next, once.
pub proof fn law_sent_value_arrives<T>(v: OnceView<T>, value: T, waker: Waker)
    requires
        v.tidy(),
        v.sender,
        v.receiver,
    ensures
        v.sender_result() == Ok::<(), Disconnected>(()),
        v.after_set(value).is_ready(),
        v.after_set(value).poll_result() == Some(Ok::<T, Disconnected>(value)),
        v.after_set(value).final_result() == Ok::<Option<T>, Disconnected>(Some(value)),
        v.after_set(value).after_poll(waker).is_over(),
        v.after_poll(waker).after_set(value) == v.after_set(value),
        v.after_poll(waker).waiting() == Some(waker),
{
}

/// A sender that leaves without sending is noticed: the receiver is woken if it was waiting,
/// and is told that nothing will come.
pub proof fn law_disconnect_arrives<T>(v: OnceView<T>, waker: Waker)
    requires
        v.tidy(),
        v.sender,
        v.receiver,
    ensures
        v.sender_result() == Ok::<(), Disconnected>(()),
        v.after_sender_drop().is_ready(),
        v.after_sender_drop().poll_result() == Some(Err::<T, Disconnected>(Disconnected)),
        v.after_sender_drop().final_result() == Err::<Option<T>, Disconnected>(Disconnected),
        v.after_sender_drop().after_poll(waker).is_over(),
        v.after_poll(waker).after_sender_drop() == v.after_sender_drop(),
{
}

/// While the sender has done nothing, the receiver waits, and only the waker of its latest
/// look is kept.
pub proof fn law_latest_waker_is_kept<T>(v: OnceView<T>, first: Waker, second: Waker)
    requires
        v.tidy(),
        v.sender,
        v.receiver,
    ensures
        v.poll_result() is None,
        v.after_poll(first).poll_result() is None,
        v.after_poll(first).after_poll(second) == v.after_poll(second),
        v.after_poll(second).waiting() == Some(second),
{
}

/// Exactly one endpoint is told to clean up, the one that leaves last, in whatever way the
/// two leave. The sender is told by `Err`; the receiver by any outcome of a look, or of a last
/// look other than that nothing has come.
pub proof fn law_last_endpoint_cleans_up<T>(v: OnceView<T>, value: T, waker: Waker)
    requires
        v.tidy(),
    ensures
        v.sender ==> {
            &&& v.sender_result() is Err <==> !v.receiver
            &&& v.after_set(value).is_over() <==> !v.receiver
            &&& v.after_sender_drop().is_over() <==> !v.receiver
        },
        v.receiver ==> {
            &&& v.poll_result() is Some <==> !v.sender
            &&& v.poll_result() is Some ==> v.after_poll(waker).is_over()
            &&& v.poll_result() is None ==> v.after_poll(waker).receiver
            &&& v.final_result() != Ok::<Option<T>, Disconnected>(None) <==> !v.sender
            &&& v.after_final_poll().is_over() <==> !v.sender
        },
{
}

/// What is sent to a receiver that has left is not kept.
pub proof fn law_late_value_is_dropped<T>(v: OnceView<T>, value: T)
    requires
        v.tidy(),
        v.sender,
        !v.receiver,
    ensures
        v.sender_result() == Err::<(), Disconnected>(Disconnected),
        v.after_set(value).stage is Disconnected,
        v.after_set(value) == v.after_sender_drop(),
{
}

/// An event is bound at most once: no operation makes it unbound again.
pub proof fn law_bound_once<T>(v: OnceView<T>, value: T, waker: Waker)
    requires
        !(v.stage is Unbound),
    ensures
        !(v.after_set(value).stage is Unbound),
        !(v.after_sender_drop().stage is Unbound),
        !(v.after_poll(waker).stage is Unbound),
        !(v.after_final_poll().stage is Unbound),
{
}

/// An operation of an endpoint on an event.
pub enum OnceOp<T> {
    /// The sender sends this value.
    Send(T),
    /// The sender is dropped.
    DropSender,
    /// The receiver looks, to be woken by this waker.
    Look(Waker),
    /// The receiver looks for the last time.
    LastLook,
}

impl<T> OnceOp<T> {
    /// The operation leads from `pre` to `post`.
    pub open spec fn leads(self, pre: OnceView<T>, post: OnceView<T>) -> bool {
        match self {
            OnceOp::Send(value) => pre.sender && post == pre.after_set(value),
            OnceOp::DropSender => pre.sender && post == pre.after_sender_drop(),
            OnceOp::Look(waker) => pre.receiver && post == pre.after_poll(waker),
            OnceOp::LastLook => pre.receiver && post == pre.after_final_poll(),
        }
    }

    /// Whether the endpoint is told to clean up.
    pub open spec fn cleans_up(self, pre: OnceView<T>) -> bool {
        match self {
            OnceOp::Send(value) => pre.sender_result() is Err,
            OnceOp::DropSender => pre.sender_result() is Err,
            OnceOp::Look(waker) => pre.poll_result() is Some,
            OnceOp::LastLook => pre.final_result() != Ok::<Option<T>, Disconnected>(None),
        }
    }

    /// The value that the receiver gets.
    pub open spec fn gets(self, pre: OnceView<T>) -> Option<T> {
        match self {
            OnceOp::Look(waker) => match pre.poll_result() {
                Some(Ok(value)) => Some(value),
                _ => None,
            },
            OnceOp::LastLook => match pre.final_result() {
                Ok(value) => value,
                Err(Disconnected) => None,
            },
            _ => None,
        }
    }
}

/// The operations `ops` lead through `states`, of an event that starts bound.
pub open spec fn once_history<T>(states: Seq<OnceView<T>>, ops: Seq<OnceOp<T>>) -> bool {
    &&& states.len() == ops.len() + 1
    &&& states[0] == OnceView::<T>::bound()
    &&& forall|i: int| 0 <= i < ops.len() ==> (#[trigger] ops[i]).leads(states[i], states[i + 1])
}

/// How many endpoints were told to clean up in the first `n` operations of a history.
pub open spec fn clean_ups<T>(states: Seq<OnceView<T>>, ops: Seq<OnceOp<T>>, n: nat) -> nat
    decreases n,
{
    if n == 0 {
        0
    } else {
        clean_ups(states, ops, (n - 1) as nat) + if ops[n - 1].cleans_up(states[n - 1]) {
            1nat
        } else {
            0
        }
    }
}

/// An event is cleaned up once and not too early: whatever the endpoints do, exactly one of
/// them has been told to clean up once both have left, and none before.
pub proof fn law_cleaned_up_once<T>(states: Seq<OnceView<T>>, ops: Seq<OnceOp<T>>, n: nat)
    requires
        once_history(states, ops),
        n <= ops.len(),
    ensures
        states[n as int].tidy(),
        clean_ups(states, ops, n) == if states[n as int].is_over() {
            1nat
        } else {
            0
        },
    decreases n,
{
    if n > 0 {
        law_cleaned_up_once(states, ops, (n - 1) as nat);
        assert(ops[n - 1].leads(states[n - 1], states[n as int]));
    }
}

/// What the receiver gets is what was sent: a value that it gets at `n` is the one that the
/// sender sent before.
pub proof fn law_received_value_was_sent<T>(states: Seq<OnceView<T>>, ops: Seq<OnceOp<T>>, n: nat)
    requires
        once_history(states, ops),
        n < ops.len(),
        ops[n as int].gets(states[n as int]) is Some,
    ensures
        exists|i: int|
            0 <= i < n && #[trigger] ops[i] == OnceOp::Send(ops[n as int].gets(states[n as int])->0),
{
    lemma_stored_value_was_sent(states, ops, n);
}

proof fn lemma_stored_value_was_sent<T>(states: Seq<OnceView<T>>, ops: Seq<OnceOp<T>>, n: nat)
    requires
        once_history(states, ops),
        n <= ops.len(),
    ensures
        states[n as int].stage is Sent ==> exists|i: int|
            0 <= i < n && #[trigger] ops[i] == OnceOp::Send(states[n as int].stage->Sent_0),
    decreases n,
{
    if n > 0 {
        lemma_stored_value_was_sent(states, ops, (n - 1) as nat);
        assert(ops[n - 1].leads(states[n - 1], states[n as int]));
        if states[n as int].stage is Sent {
            if states[n - 1].stage is Sent && states[n - 1].stage == states[n as int].stage {
                let i = choose|i: int|
                    0 <= i < n - 1 && #[trigger] ops[i] == OnceOp::Send(
                        states[n - 1].stage->Sent_0,
                    );
                assert(ops[i] == OnceOp::Send(states[n as int].stage->Sent_0));
            } else {
                assert(ops[n - 1] == OnceOp::Send(states[n as int].stage->Sent_0));
            }
        }
    }
}

/// A thread-safe event in use, with the shares of its storage that its endpoints own.
pub struct SharedView<T> {
    pub event: OnceView<T>,
    /// How many endpoints have acted and still own a share.
    pub unreleased: int,
    /// The receiver has not been told the outcome yet.
    pub live: bool,
    /// The receiver has not been dropped.
    pub receiver: bool,
}

impl<T> SharedView<T> {
    /// An event whose endpoints have done nothing yet.
    pub open spec fn bound() -> Self {
        SharedView { event: OnceView::bound(), unreleased: 0, live: true, receiver: true }
    }

    /// How many endpoints own a share of the event's storage.
    pub open spec fn owned(self) -> int {
        self.event.attached() + self.unreleased
    }

    /// How many endpoints have not been dropped. A sender is gone once it has sent.
    pub open spec fn endpoints(self) -> int {
        (if self.event.sender {
            1int
        } else {
            0
        }) + (if self.receiver {
            1int
        } else {
            0
        })
    }

    /// Each endpoint owns a share until it is dropped, and the receiver is attached to the event
    /// until it has been told the outcome.
    pub open spec fn valid(self) -> bool {
        &&& self.event.valid()
        &&& self.event.receiver == (self.receiver && self.live)
        &&& self.owned() == self.endpoints()
    }
}

/// An operation of an endpoint on a thread-safe event.
pub enum SharedOp<T> {
    /// The sender sends this value.
    Send(T),
    /// The sender is dropped.
    DropSender,
    /// The receiver looks, to be woken by this waker.
    Look(Waker),
    /// The receiver is dropped.
    DropReceiver,
}

impl<T> SharedOp<T> {
    /// The operation leads from `pre` to `post`.
    pub open spec fn leads(self, pre: SharedView<T>, post: SharedView<T>) -> bool {
        match self {
            SharedOp::Send(value) => {
                &&& pre.event.sender
                &&& post == SharedView { event: pre.event.after_set(value), ..pre }
            },
            SharedOp::DropSender => {
                &&& pre.event.sender
                &&& post == SharedView { event: pre.event.after_sender_drop(), ..pre }
            },
            SharedOp::Look(waker) => {
                &&& pre.receiver && pre.live
                &&& post.event == pre.event.after_poll(waker)
                &&& post.owned() == pre.owned()
                &&& post.live == (pre.event.poll_result() is None)
                &&& post.receiver
            },
            SharedOp::DropReceiver => {
                &&& pre.receiver
                &&& post.event == if pre.live {
                    pre.event.after_receiver_left()
                } else {
                    pre.event
                }
                &&& post.owned() == pre.owned() - 1
                &&& post.live == pre.live
                &&& !post.receiver
            },
        }
    }

    /// Whether the storage is to be released with the operation, where the endpoints manage it.
    pub open spec fn releases(self, post: SharedView<T>) -> bool {
        match self {
            SharedOp::Look(waker) => false,
            _ => post.owned() == 0,
        }
    }
}

/// The operations `ops` lead through `states`, of a thread-safe event that starts bound.
pub open spec fn shared_history<T>(states: Seq<SharedView<T>>, ops: Seq<SharedOp<T>>) -> bool {
    &&& states.len() == ops.len() + 1
    &&& states[0] == SharedView::<T>::bound()
    &&& forall|i: int| 0 <= i < ops.len() ==> (#[trigger] ops[i]).leads(states[i], states[i + 1])
}

/// How often the storage was to be released in the first `n` operations of a history.
pub open spec fn releases<T>(states: Seq<SharedView<T>>, ops: Seq<SharedOp<T>>, n: nat) -> nat
    decreases n,
{
    if n == 0 {
        0
    } else {
        releases(states, ops, (n - 1) as nat) + if ops[n - 1].releases(states[n as int]) {
            1nat
        } else {
            0
        }
    }
}

/// The storage of a thread-safe event is released once and not too early: whatever the endpoints
/// do, each of them owns a share of the storage until it is dropped, and where they manage the
/// storage, it has been released exactly once when both are gone, and not before.
pub proof fn law_storage_released_once<T>(
    states: Seq<SharedView<T>>,
    ops: Seq<SharedOp<T>>,
    n: nat,
)
    requires
        shared_history(states, ops),
        n <= ops.len(),
    ensures
        states[n as int].valid(),
        states[n as int].owned() == states[n as int].endpoints(),
        releases(states, ops, n) == if states[n as int].endpoints() == 0 {
            1nat
        } else {
            0
        },
    decreases n,
{
    if n > 0 {
        law_storage_released_once(states, ops, (n - 1) as nat);
        assert(ops[n - 1].leads(states[n - 1], states[n as int]));
    }
}

/// An event has no endpoints before it is bound and both from then on, with nothing sent; and the
/// endpoints that are attached are counted.
pub proof fn law_bound_has_both_endpoints<T>(v: OnceView<T>)
    ensures
        OnceView::<T>::unbound().stage is Unbound,
        !OnceView::<T>::unbound().sender && !OnceView::<T>::unbound().receiver,
        OnceView::<T>::bound().stage is Bound,
        OnceView::<T>::bound().sender && OnceView::<T>::bound().receiver,
        v.attached() == 2 <==> v.sender && v.receiver,
        v.attached() == 0 <==> !v.sender && !v.receiver,
        0 <= v.attached() <= 2,
        v.is_over() <==> !(v.stage is Unbound) && !v.sender && !v.receiver,
{
}

/// The receiver is ready if and only if looking now would give it an outcome, and whether it looks as
/// it would again or for the last time makes no difference to what it is told.
pub proof fn law_ready_means_an_outcome<T>(v: OnceView<T>)
    requires
        v.valid(),
        v.receiver,
    ensures
        v.is_ready() <==> v.poll_result() is Some,
        v.is_ready() <==> v.final_result() != Ok::<Option<T>, Disconnected>(None),
        forall|value: T| #[trigger]
            v.poll_result() == Some(Ok::<T, Disconnected>(value)) <==> v.final_result() == Ok::<
                Option<T>,
                Disconnected,
            >(Some(value)),
        v.poll_result() == Some(Err::<T, Disconnected>(Disconnected)) <==> v.final_result() == Err::<
            Option<T>,
            Disconnected,
        >(Disconnected),
        v.stage is Bound || v.stage is Awaiting ==> !v.is_ready(),
{
}

/// What an endpoint does, word or no word.
pub enum EndpointOp<T> {
    /// The sender sends this value.
    Send(T),
    /// The sender says that it leaves.
    DropSender,
    /// The sender leaves without a word.
    LeaveSender,
    /// The receiver looks, to be woken by this waker.
    Look(Waker),
    /// The receiver looks for the last time and says that it leaves.
    LastLook,
    /// The receiver leaves without a word.
    LeaveReceiver,
}

impl<T> EndpointOp<T> {
    /// The operation leads from `pre` to `post`.
    pub open spec fn leads(self, pre: OnceView<T>, post: OnceView<T>) -> bool {
        match self {
            EndpointOp::Send(value) => pre.sender && post == pre.after_set(value),
            EndpointOp::DropSender => pre.sender && post == pre.after_sender_drop(),
            EndpointOp::LeaveSender => pre.sender && post == pre.after_sender_left(),
            EndpointOp::Look(waker) => pre.receiver && post == pre.after_poll(waker),
            EndpointOp::LastLook => pre.receiver && post == pre.after_final_poll(),
            EndpointOp::LeaveReceiver => pre.receiver && post == pre.after_receiver_left(),
        }
    }
}

/// The operations `ops` lead through `states`, of an event that starts bound.
pub open spec fn endpoint_history<T>(states: Seq<OnceView<T>>, ops: Seq<EndpointOp<T>>) -> bool {
    &&& states.len() == ops.len() + 1
    &&& states[0] == OnceView::<T>::bound()
    &&& forall|i: int| 0 <= i < ops.len() ==> (#[trigger] ops[i]).leads(states[i], states[i + 1])
}

/// What the stage of an event says of its past.
proof fn lemma_stage_tells_the_past<T>(states: Seq<OnceView<T>>, ops: Seq<EndpointOp<T>>, n: int)
    requires
        endpoint_history(states, ops),
        0 <= n <= ops.len(),
    ensures
        states[n].valid(),
        !(states[n].stage is Unbound),
        states[n].sender <==> forall|m: int|
            0 <= m < n ==> !(#[trigger] ops[m] is Send) && !(ops[m] is DropSender) && !(
            ops[m] is LeaveSender),
        states[n].stage is Bound || states[n].stage is Awaiting ==> forall|m: int|
            0 <= m < n ==> !(#[trigger] ops[m] is Send) && !(ops[m] is DropSender) && !(
            ops[m] is LastLook),
        states[n].stage is Bound ==> forall|m: int| 0 <= m < n ==> !(#[trigger] ops[m] is Look),
        states[n].stage is Awaiting ==> exists|m: int|
            {
                &&& 0 <= m < n
                &&& #[trigger] ops[m] == EndpointOp::<T>::Look(states[n].stage->Awaiting_0)
                &&& forall|t: int| m < t < n ==> !(#[trigger] ops[t] is Look)
            },
        states[n].stage is Sent ==> exists|m: int|
            0 <= m < n && #[trigger] ops[m] == EndpointOp::Send(states[n].stage->Sent_0),
        states[n].stage is Disconnected && states[n].receiver ==> exists|m: int|
            0 <= m < n && #[trigger] ops[m] is DropSender,
        states[n].stage is Disconnected && states[n].sender ==> exists|m: int|
            0 <= m < n && #[trigger] ops[m] is LastLook,
        states[n].receiver ==> forall|m: int|
            0 <= m < n ==> !(#[trigger] ops[m] is LastLook) && !(ops[m] is LeaveReceiver),
    decreases n,
{
    if n > 0 {
        lemma_stage_tells_the_past(states, ops, n - 1);
        let (pre, post) = (states[n - 1], states[n]);
        assert(ops[n - 1].leads(pre, post));
        if post.stage is Awaiting {
            if ops[n - 1] is Look {
                assert(ops[n - 1] == EndpointOp::<T>::Look(post.stage->Awaiting_0));
            } else {
                let m = choose|m: int|
                    {
                        &&& 0 <= m < n - 1
                        &&& #[trigger] ops[m] == EndpointOp::<T>::Look(pre.stage->Awaiting_0)
                        &&& forall|t: int| m < t < n - 1 ==> !(#[trigger] ops[t] is Look)
                    };
                assert(ops[m] == EndpointOp::<T>::Look(post.stage->Awaiting_0));
            }
        }
        if post.stage is Sent {
            if ops[n - 1] is Send {
                assert(ops[n - 1] == EndpointOp::Send(post.stage->Sent_0));
            } else {
                let m = choose|m: int|
                    0 <= m < n - 1 && #[trigger] ops[m] == EndpointOp::Send(pre.stage->Sent_0);
                assert(ops[m] == EndpointOp::Send(post.stage->Sent_0));
            }
        }
        if post.stage is Disconnected && post.receiver {
            if ops[n - 1] is DropSender {
            } else {
                let m = choose|m: int| 0 <= m < n - 1 && #[trigger] ops[m] is DropSender;
                assert(ops[m] is DropSender);
            }
        }
        if post.stage is Disconnected && post.sender {
            if ops[n - 1] is LastLook {
            } else {
                let m = choose|m: int| 0 <= m < n - 1 && #[trigger] ops[m] is LastLook;
                assert(ops[m] is LastLook);
            }
        }
    }
}

/// The sender acts once.
proof fn lemma_sender_acts_once<T>(
    states: Seq<OnceView<T>>,
    ops: Seq<EndpointOp<T>>,
    m: int,
    n: int,
)
    requires
        endpoint_history(states, ops),
        0 <= m < n < ops.len(),
        ops[m] is Send || ops[m] is DropSender || ops[m] is LeaveSender,
    ensures
        !(ops[n] is Send) && !(ops[n] is DropSender) && !(ops[n] is LeaveSender),
{
    lemma_stage_tells_the_past(states, ops, n);
    assert(ops[n].leads(states[n], states[n + 1]));
}

/// What the receiver is told follows from what the sender did, and from nothing else: before the
/// sender has sent or said that it leaves, that nothing has come; after it has sent, the value that
/// was sent; after it said that it leaves, that nothing will come. It makes no difference how often the
/// receiver looked before, nor whether it asks, looks, or looks for the last time.
pub proof fn law_receiver_is_told_what_the_sender_did<T>(
    states: Seq<OnceView<T>>,
    ops: Seq<EndpointOp<T>>,
    n: int,
)
    requires
        endpoint_history(states, ops),
        0 <= n <= ops.len(),
        states[n].receiver,
    ensures
        forall|m: int|
            0 <= m < n && #[trigger] ops[m] is Send ==> {
                &&& states[n].is_ready()
                &&& states[n].poll_result() == Some(Ok::<T, Disconnected>(ops[m]->Send_0))
                &&& states[n].final_result() == Ok::<Option<T>, Disconnected>(
                    Some(ops[m]->Send_0),
                )
            },
        forall|m: int|
            0 <= m < n && #[trigger] ops[m] is DropSender ==> {
                &&& states[n].is_ready()
                &&& states[n].poll_result() == Some(Err::<T, Disconnected>(Disconnected))
                &&& states[n].final_result() == Err::<Option<T>, Disconnected>(Disconnected)
            },
        (forall|m: int| 0 <= m < n ==> !(#[trigger] ops[m] is Send) && !(ops[m] is DropSender))
            ==> {
            &&& !states[n].is_ready()
            &&& states[n].poll_result() is None
            &&& states[n].final_result() == Ok::<Option<T>, Disconnected>(None)
        },
{
    lemma_stage_tells_the_past(states, ops, n);
    let s = states[n];
    assert forall|m: int| 0 <= m < n && #[trigger] ops[m] is Send implies s.stage == Stage::Sent(
        ops[m]->Send_0,
    ) by {
        if s.stage is Disconnected {
            let t = choose|t: int| 0 <= t < n && #[trigger] ops[t] is DropSender;
            if t < m {
                lemma_sender_acts_once(states, ops, t, m);
            } else {
                lemma_sender_acts_once(states, ops, m, t);
            }
        } else {
            let t = choose|t: int|
                0 <= t < n && #[trigger] ops[t] == EndpointOp::Send(s.stage->Sent_0);
            if t < m {
                lemma_sender_acts_once(states, ops, t, m);
            } else if m < t {
                lemma_sender_acts_once(states, ops, m, t);
            }
        }
    }
    assert forall|m: int| 0 <= m < n && #[trigger] ops[m] is DropSender implies s.stage is
        Disconnected by {
        if s.stage is Sent {
            let t = choose|t: int|
                0 <= t < n && #[trigger] ops[t] == EndpointOp::Send(s.stage->Sent_0);
            if t < m {
                lemma_sender_acts_once(states, ops, t, m);
            } else {
                lemma_sender_acts_once(states, ops, m, t);
            }
        }
    }
    if forall|m: int| 0 <= m < n ==> !(#[trigger] ops[m] is Send) && !(ops[m] is DropSender) {
        assert(!(s.stage is Sent) && !(s.stage is Disconnected));
    }
}

/// Whom the sender wakes, and what it is told, follows from what the receiver did: it wakes the
/// receiver if and only if the receiver has looked and has not said that it leaves, by the waker of its
/// latest look, and it is told `Err` if and only if the receiver has said that it leaves.
pub proof fn law_sender_wakes_the_latest_look<T>(
    states: Seq<OnceView<T>>,
    ops: Seq<EndpointOp<T>>,
    n: int,
)
    requires
        endpoint_history(states, ops),
        0 <= n <= ops.len(),
        states[n].sender,
    ensures
        states[n].sender_result() is Err <==> exists|m: int|
            0 <= m < n && #[trigger] ops[m] is LastLook,
        (exists|m: int| 0 <= m < n && #[trigger] ops[m] is LastLook) ==> states[n].waiting() is None,
        (forall|m: int| 0 <= m < n ==> !(#[trigger] ops[m] is Look)) ==> states[n].waiting() is None,
        forall|m: int|
            0 <= m < n && #[trigger] ops[m] is Look && (forall|t: int|
                m < t < n ==> !(#[trigger] ops[t] is Look)) && (forall|t: int|
                0 <= t < n ==> !(#[trigger] ops[t] is LastLook)) ==> states[n].waiting() == Some(
                ops[m]->Look_0,
            ),
{
    lemma_stage_tells_the_past(states, ops, n);
    let s = states[n];
    if s.stage is Sent {
        let m = choose|m: int|
            0 <= m < n && #[trigger] ops[m] == EndpointOp::Send(s.stage->Sent_0);
        assert(ops[m] is Send);
    }
    if s.stage is Awaiting {
        let m = choose|m: int|
            {
                &&& 0 <= m < n
                &&& #[trigger] ops[m] == EndpointOp::<T>::Look(s.stage->Awaiting_0)
                &&& forall|t: int| m < t < n ==> !(#[trigger] ops[t] is Look)
            };
        assert(ops[m] is Look);
        assert forall|l: int|
            0 <= l < n && #[trigger] ops[l] is Look && (forall|t: int|
                l < t < n ==> !(#[trigger] ops[t] is Look)) implies s.waiting() == Some(
            ops[l]->Look_0,
        ) by {
            if l < m {
                assert(ops[m] is Look);
            } else if m < l {
                assert(ops[l] is Look);
            }
        }
    }
}

/// An endpoint is attached until it leaves: the sender until it has sent or left, in whatever way, and
/// the receiver until it has been told an outcome or left.
pub proof fn law_endpoints_stay_until_they_leave<T>(
    states: Seq<OnceView<T>>,
    ops: Seq<EndpointOp<T>>,
    n: int,
)
    requires
        endpoint_history(states, ops),
        0 <= n < ops.len(),
    ensures
        states[n + 1].sender == (states[n].sender && !(ops[n] is Send) && !(ops[n] is DropSender)
            && !(ops[n] is LeaveSender)),
        states[n + 1].receiver == (states[n].receiver && !(ops[n] is LastLook) && !(
        ops[n] is LeaveReceiver) && !(ops[n] is Look && states[n].poll_result() is Some)),
        states[0].sender && states[0].receiver,
{
    lemma_stage_tells_the_past(states, ops, n);
    assert(ops[n].leads(states[n], states[n + 1]));
}

} // verus!

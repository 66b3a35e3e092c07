//! What an auto-reset event is, and what its operations do to it.
//!
//! * If waiters are registered, setting the event releases exactly one of them and the
//!   event stays unset.
//! * If no one is waiting, setting the event stores the signal; the next wait completes at
//!   once and consumes it. Setting it again changes nothing.
//! * A released waiter that is cancelled before it noticed passes its signal on.
use std::task::Waker;
use vstd::prelude::*;

use crate::waiters::{
    law_empty, law_leaving_disturbs_no_one, law_oldest_is_released, law_registered_keeps_places,
    lemma_popped, lemma_pushed, lemma_stored, lemma_without, Poll, WaitersView,
};

verus! {

/// The state of an auto-reset event.
#[verifier::ext_equal]
pub struct AutoView {
    pub is_set: bool,
    pub waiters: WaitersView<Waker>,
}

impl AutoView {
    /// An event that was never set and never waited for.
    pub open spec fn unset() -> Self {
        AutoView { is_set: false, waiters: WaitersView::empty() }
    }

    /// A stored signal and a waiting waiter exclude each other.
    pub open spec fn valid(self) -> bool {
        &&& self.waiters.valid()
        &&& self.is_set ==> self.waiters.waiting.len() == 0
    }

    /// The waiter that setting the event releases: the oldest.
    pub open spec fn next(self) -> Option<Waker> {
        if self.waiters.waiting.len() > 0 {
            Some(self.waiters.waiting[0].1)
        } else {
            None
        }
    }

    /// The event after it was set: one waiter is released, or the signal is stored.
    pub open spec fn after_set(self) -> Self {
        if self.waiters.waiting.len() > 0 {
            AutoView { waiters: self.waiters.popped(), ..self }
        } else {
            AutoView { is_set: true, ..self }
        }
    }

    /// The event after an attempt to consume the stored signal.
    pub open spec fn after_try_wait(self) -> Self {
        AutoView { is_set: false, ..self }
    }

    /// The waiter that recorded `key` was released and has not noticed yet.
    pub open spec fn is_released(self, key: Option<usize>) -> bool {
        key is Some && self.waiters.is_notified(key->0)
    }

    /// The event after a released waiter noticed.
    pub open spec fn after_notice(self, key: Option<usize>) -> Self {
        AutoView { waiters: self.waiters.without(key->0), ..self }
    }

    /// A poll that neither a release nor a stored signal completes registers the waiter.
    pub open spec fn pending(
        self,
        key: Option<usize>,
        waker: Waker,
        post: Self,
        new_key: Option<usize>,
    ) -> bool {
        &&& post.is_set == self.is_set
        &&& self.waiters.registered(key, waker, post.waiters, new_key)
    }

    /// What polling does: a waiter that was released notices and leaves a stored signal to
    /// others; another one takes the stored signal, or waits.
    pub open spec fn polled(
        self,
        key: Option<usize>,
        waker: Waker,
        post: Self,
        new_key: Option<usize>,
        r: Poll<()>,
    ) -> bool {
        if self.is_released(key) {
            r == Poll::Ready(()) && post == self.after_notice(key) && new_key is None
        } else if self.is_set {
            r == Poll::Ready(()) && post == self.after_try_wait() && new_key == key
        } else {
            r == Poll::<()>::Pending && self.pending(key, waker, post, new_key)
        }
    }

    /// The event after a waiter was dropped: a waiting one leaves the queue, a released one
    /// passes its signal on to the next waiter or back to the event.
    pub open spec fn after_drop(self, key: Option<usize>) -> Self {
        match key {
            None => self,
            Some(k) => if self.waiters.is_notified(k) {
                self.after_notice(key).after_set()
            } else {
                self.after_notice(key)
            },
        }
    }

    /// The waker to wake after a waiter was dropped.
    pub open spec fn woken_by_drop(self, key: Option<usize>) -> Option<Waker> {
        if self.is_released(key) {
            self.next()
        } else {
            None
        }
    }

    /// How many waits the event is committed to complete: one for a stored signal and one
    /// for each released waiter.
    pub open spec fn permits(self) -> nat {
        self.waiters.notified.len() + if self.is_set { 1nat } else { 0nat }
    }

    /// The event after it was set `n` times.
    pub open spec fn after_sets(self, n: nat) -> Self
        decreases n,
    {
        if n == 0 {
            self
        } else {
            self.after_set().after_sets((n - 1) as nat)
        }
    }
}

/// Setting keeps the event valid and every waiter in it.
pub proof fn law_set_keeps_valid(v: AutoView)
    requires
        v.valid(),
    ensures
        v.after_set().valid(),
        forall|k: usize| v.after_set().waiters.has(k) == v.waiters.has(k),
{
    if v.waiters.waiting.len() > 0 {
        lemma_popped(v.waiters);
    }
}

/// Setting the event releases exactly one waiter if any is waiting, and then stores no
/// signal; otherwise it stores the signal and releases no one.
pub proof fn law_set_releases_one(v: AutoView)
    requires
        v.valid(),
    ensures
        v.waiters.waiting.len() > 0 ==> {
            &&& !v.after_set().is_set
            &&& v.after_set().waiters.waiting.len() == v.waiters.waiting.len() - 1
            &&& v.after_set().waiters.is_notified(v.waiters.waiting[0].0)
            &&& v.after_set().waiters.notified.len() == v.waiters.notified.len() + 1
        },
        v.waiters.waiting.len() == 0 ==> {
            &&& v.after_set().is_set
            &&& v.after_set().waiters == v.waiters
        },
{
    if v.waiters.waiting.len() > 0 {
        lemma_popped(v.waiters);
    }
}

/// Signals that no one waits for are coalesced: after the first, setting changes nothing,
/// and one attempt to consume the signal consumes them all.
pub proof fn law_sets_coalesce(v: AutoView, n: nat)
    requires
        v.valid(),
        v.waiters.waiting.len() == 0,
        n > 0,
    ensures
        v.after_sets(n) == v.after_set(),
        !v.after_sets(n).after_try_wait().is_set,
    decreases n,
{
    let one = v.after_set();
    assert(one.after_set() == one);
    if n > 1 {
        law_sets_coalesce(one, (n - 1) as nat);
        assert(v.after_sets(n) == one.after_sets((n - 1) as nat));
    } else {
        assert(one.after_sets(0) == one);
    }
}

/// As many sets as there are waiters release them all, in the order in which they came,
/// and store no signal.
pub proof fn law_sets_release_in_order(v: AutoView, n: nat)
    requires
        v.valid(),
        n <= v.waiters.waiting.len(),
        n > 0,
    ensures
        v.after_sets(n).valid(),
        !v.after_sets(n).is_set,
        v.after_sets(n).waiters.waiting == v.waiters.waiting.subrange(
            n as int,
            v.waiters.waiting.len() as int,
        ),
        forall|i: int|
            0 <= i < n ==> v.after_sets(n).waiters.is_notified(
                (#[trigger] v.waiters.waiting[i]).0,
            ),
        forall|k: usize| v.waiters.is_notified(k) ==> v.after_sets(n).waiters.is_notified(k),
    decreases n,
{
    lemma_popped(v.waiters);
    let one = v.after_set();
    let len = v.waiters.waiting.len() as int;
    assert(one.waiters.waiting =~= v.waiters.waiting.subrange(1, len));
    if n > 1 {
        law_sets_release_in_order(one, (n - 1) as nat);
        let all = one.after_sets((n - 1) as nat);
        assert(v.after_sets(n) == all);
        assert(one.waiters.waiting.subrange(n - 1, len - 1) =~= v.waiters.waiting.subrange(
            n as int,
            len,
        ));
        assert forall|i: int| 0 <= i < n implies all.waiters.is_notified(
            (#[trigger] v.waiters.waiting[i]).0,
        ) by {
            if i > 0 {
                assert(one.waiters.waiting[i - 1] == v.waiters.waiting[i]);
            }
        }
        assert forall|k: usize| v.waiters.is_notified(k) implies all.waiters.is_notified(k) by {
            assert(one.waiters.is_notified(k));
        }
    } else {
        assert(one.after_sets(0) == one);
    }
}

/// Dropping a waiter keeps the event valid, and every other waiter in it.
pub proof fn law_drop_keeps_valid(v: AutoView, key: Option<usize>)
    requires
        v.valid(),
        v.waiters.owns(key),
    ensures
        v.after_drop(key).valid(),
        forall|k: usize|
            v.after_drop(key).waiters.has(k) == (v.waiters.has(k) && Some(k) != key),
{
    if key is Some {
        lemma_without(v.waiters, key->0);
        if v.waiters.is_notified(key->0) && v.after_notice(key).waiters.waiting.len() > 0 {
            lemma_popped(v.after_notice(key).waiters);
        }
    }
}

/// A released waiter that is cancelled gives up its signal as if the event were set anew
/// once it has gone: the next waiter is released, or the signal is stored.
pub proof fn law_cancelled_waiter_passes_signal_on(v: AutoView, k: usize)
    requires
        v.valid(),
        v.waiters.is_notified(k),
    ensures
        v.after_drop(Some(k)) == v.after_notice(Some(k)).after_set(),
        v.woken_by_drop(Some(k)) == v.after_notice(Some(k)).next(),
        v.after_drop(Some(k)).permits() >= 1,
{
    lemma_not_waiting(v.waiters, k);
    let post = v.after_drop(Some(k));
    law_drop_keeps_valid(v, Some(k));
    if v.after_notice(Some(k)).waiters.waiting.len() > 0 {
        lemma_without(v.waiters, k);
        lemma_popped(v.after_notice(Some(k)).waiters);
    }
}

proof fn lemma_not_waiting(w: WaitersView<Waker>, k: usize)
    requires
        w.valid(),
        w.is_notified(k),
    ensures
        !w.is_waiting(k),
        w.without(k).waiting == w.waiting,
        w.without(k).notified == w.notified.remove(k),
{
    if w.is_waiting(k) {
        let i = w.position(k);
        assert(!w.notified.contains(w.waiting[i].0));
    }
}

/// A set adds one permit, or is coalesced with the stored signal; it never takes one away.
pub proof fn law_set_adds_one_permit(v: AutoView)
    requires
        v.valid(),
    ensures
        v.after_set().permits() == if v.is_set {
            v.permits()
        } else {
            v.permits() + 1
        },
{
    if v.waiters.waiting.len() > 0 {
        lemma_popped(v.waiters);
    }
}

/// A wait that completes uses up exactly one permit, and one that stays pending none.
pub proof fn law_wait_uses_one_permit(
    v: AutoView,
    key: Option<usize>,
    waker: Waker,
    post: AutoView,
    new_key: Option<usize>,
    r: Poll<()>,
)
    requires
        v.valid(),
        v.waiters.owns(key),
        v.polled(key, waker, post, new_key, r),
    ensures
        r == Poll::Ready(()) <==> (v.is_set || v.is_released(key)),
        r == Poll::Ready(()) ==> post.permits() == v.permits() - 1,
        r == Poll::<()>::Pending ==> post.permits() == v.permits(),
{
    if v.is_released(key) {
        lemma_not_waiting(v.waiters, key->0);
    }
}

/// Cancelling a wait loses no signal: the permits stay, except that a passed-on signal is
/// coalesced with one that is already stored.
pub proof fn law_drop_loses_no_permit(v: AutoView, key: Option<usize>)
    requires
        v.valid(),
        v.waiters.owns(key),
    ensures
        v.after_drop(key).permits() == if v.is_set && v.is_released(key) {
            (v.permits() - 1) as nat
        } else {
            v.permits()
        },
        v.permits() > 0 ==> v.after_drop(key).permits() > 0,
{
    if key is Some {
        let k = key->0;
        lemma_without(v.waiters, k);
        if v.waiters.is_notified(k) {
            lemma_not_waiting(v.waiters, k);
            if v.waiters.waiting.len() > 0 {
                lemma_popped(v.after_notice(key).waiters);
            }
        }
    }
}

/// Polling keeps the event valid, keeps the waiter's record fitting, and keeps every other
/// waiter.
pub proof fn law_poll_keeps_valid(
    v: AutoView,
    key: Option<usize>,
    waker: Waker,
    post: AutoView,
    new_key: Option<usize>,
    r: Poll<()>,
)
    requires
        v.valid(),
        v.waiters.owns(key),
        v.polled(key, waker, post, new_key, r),
    ensures
        post.valid(),
        post.waiters.owns(new_key),
        forall|k: usize|
            Some(k) != key && Some(k) != new_key ==> #[trigger] post.waiters.has(k)
                == v.waiters.has(k),
{
    if r == Poll::<()>::Pending {
        match key {
            None => lemma_pushed(v.waiters, new_key->0, waker),
            Some(k) => lemma_stored(v.waiters, k, waker),
        }
    } else if v.is_released(key) {
        lemma_without(v.waiters, key->0);
    }
}

/// An event that no one has used has no signal stored, no one who waits and no one who was released.
pub proof fn law_starts_unset()
    ensures
        !AutoView::unset().is_set,
        AutoView::unset().waiters.waiting.len() == 0,
        forall|k: usize| !(#[trigger] AutoView::unset().waiters.notified.contains(k)),
{
    law_empty::<Waker>();
}

/// Whoever is released is woken. If anyone waits, setting the event hands out the waker stored for
/// the very waiter that it releases, which is the one that has waited longest; it hands out nothing
/// only if it releases no one, and then it stores the signal.
pub proof fn law_set_wakes_whom_it_releases(v: AutoView)
    requires
        v.valid(),
    ensures
        v.next() is Some <==> v.waiters.waiting.len() > 0,
        forall|k: usize|
            #![trigger v.after_set().waiters.notified.contains(k)]
            v.after_set().waiters.notified.contains(k) && !v.waiters.notified.contains(k)
                ==> v.waiters.waiting.len() > 0 && v.waiters.waiting[0] == (k, v.next()->0),
        forall|k: usize|
            #![trigger v.waiters.notified.contains(k)]
            v.waiters.notified.contains(k) ==> v.after_set().waiters.notified.contains(k),
        v.next() is Some ==> {
            &&& v.after_set().waiters.notified.contains(v.waiters.waiting[0].0)
            &&& !v.waiters.notified.contains(v.waiters.waiting[0].0)
            &&& v.after_set().waiters.waiting.len() == v.waiters.waiting.len() - 1
            &&& forall|i: int|
                0 <= i < v.waiters.waiting.len() - 1 ==> #[trigger]
                    v.after_set().waiters.waiting[i] == v.waiters.waiting[i + 1]
            &&& v.after_set().is_set == v.is_set
        },
        v.next() is None ==> {
            &&& v.after_set().is_set
            &&& v.after_set().waiters.waiting == v.waiters.waiting
            &&& v.after_set().waiters.notified == v.waiters.notified
        },
{
    if v.waiters.waiting.len() > 0 {
        law_oldest_is_released(v.waiters);
    }
}

/// An attempt to consume the signal leaves none, and touches no waiter.
pub proof fn law_try_wait_leaves_waiters(v: AutoView)
    ensures
        !v.after_try_wait().is_set,
        v.after_try_wait().waiters.waiting == v.waiters.waiting,
        v.after_try_wait().waiters.notified == v.waiters.notified,
{
}

/// A poll has to wait if and only if there is neither a release for the waiter nor a stored signal.
/// One that completes uses up one of them, its own release before the signal that is anyone's, takes
/// no one's place, and leaves the waiter out of the list.
pub proof fn law_poll_uses_release_or_signal(
    v: AutoView,
    key: Option<usize>,
    waker: Waker,
    post: AutoView,
    new_key: Option<usize>,
    r: Poll<()>,
)
    requires
        v.valid(),
        v.waiters.owns(key),
        v.polled(key, waker, post, new_key, r),
    ensures
        r is Pending <==> !v.is_set && !(key is Some && v.waiters.notified.contains(key->0)),
        r is Ready ==> new_key is None && post.waiters.waiting == v.waiters.waiting,
        key is Some && v.waiters.notified.contains(key->0) ==> post.is_set == v.is_set
            && post.waiters.notified == v.waiters.notified.remove(key->0),
        r is Ready && !(key is Some && v.waiters.notified.contains(key->0)) ==> v.is_set
            && !post.is_set && post.waiters.notified == v.waiters.notified,
{
    if key is Some {
        law_leaving_disturbs_no_one(v.waiters, key->0);
    }
}

/// A poll that has to wait stores the waker that it was handed, whether or not the waiter waited
/// before; a waiter that waited keeps its place, another comes behind all who wait, and no one else is
/// touched.
pub proof fn law_pending_poll_keeps_places(
    v: AutoView,
    key: Option<usize>,
    waker: Waker,
    post: AutoView,
    new_key: Option<usize>,
    r: Poll<()>,
)
    requires
        v.valid(),
        v.waiters.owns(key),
        v.polled(key, waker, post, new_key, r),
        r is Pending,
    ensures
        !post.is_set,
        new_key is Some && post.waiters.notified == v.waiters.notified,
        (key is Some ==> new_key == key && post.waiters.waiting.len() == v.waiters.waiting.len()),
        (key is None ==> {
            &&& post.waiters.waiting.len() == v.waiters.waiting.len() + 1
            &&& post.waiters.waiting.last().0 == new_key->0
            &&& !v.waiters.notified.contains(new_key->0)
            &&& forall|i: int|
                0 <= i < v.waiters.waiting.len() ==> (#[trigger] v.waiters.waiting[i]).0 != new_key->0
        }),
        (forall|i: int|
            0 <= i < v.waiters.waiting.len() ==> (#[trigger] post.waiters.waiting[i]).0 == v.waiters.waiting[i].0),
        (exists|i: int|
            0 <= i < post.waiters.waiting.len() && (#[trigger] post.waiters.waiting[i]).0 == new_key->0),
        (forall|i: int|
            0 <= i < post.waiters.waiting.len() && (#[trigger] post.waiters.waiting[i]).0 == new_key->0
                ==> post.waiters.waiting[i].1 == waker),
        (forall|i: int|
            0 <= i < v.waiters.waiting.len() && (#[trigger] post.waiters.waiting[i]).0 != new_key->0
                ==> post.waiters.waiting[i] == v.waiters.waiting[i]),
{
    law_registered_keeps_places(v.waiters, key, waker, post.waiters, new_key);
}

/// A waiter that is dropped takes no one's place and no one's release. One that was released passes
/// its release on to whoever has waited longest, whose waker is handed out, or back to the event as a
/// stored signal; one that only waited wakes no one.
pub proof fn law_drop_wakes_whom_it_releases(v: AutoView, key: Option<usize>)
    requires
        v.valid(),
        v.waiters.owns(key),
    ensures
        key is None ==> v.after_drop(key) == v && v.woken_by_drop(key) is None,
        key is Some && !v.waiters.notified.contains(key->0) ==> {
            &&& v.woken_by_drop(key) is None
            &&& v.after_drop(key).is_set == v.is_set
            &&& v.after_drop(key).waiters.notified == v.waiters.notified
            &&& exists|i: int|
                {
                    &&& 0 <= i < v.waiters.waiting.len()
                    &&& (#[trigger] v.waiters.waiting[i]).0 == key->0
                    &&& v.after_drop(key).waiters.waiting == v.waiters.waiting.remove(i)
                }
        },
        key is Some && v.waiters.notified.contains(key->0) && v.waiters.waiting.len() > 0 ==> {
            &&& v.woken_by_drop(key) == Some(v.waiters.waiting[0].1)
            &&& v.after_drop(key).is_set == v.is_set
            &&& v.after_drop(key).waiters.notified == v.waiters.notified.remove(key->0).insert(
                v.waiters.waiting[0].0,
            )
            &&& v.after_drop(key).waiters.waiting == v.waiters.waiting.remove(0)
        },
        key is Some && v.waiters.notified.contains(key->0) && v.waiters.waiting.len() == 0 ==> {
            &&& v.woken_by_drop(key) is None
            &&& v.after_drop(key).is_set
            &&& v.after_drop(key).waiters.notified == v.waiters.notified.remove(key->0)
            &&& v.after_drop(key).waiters.waiting.len() == 0
        },
{
    if key is Some {
        law_leaving_disturbs_no_one(v.waiters, key->0);
        lemma_without(v.waiters, key->0);
        if v.waiters.notified.contains(key->0) && v.waiters.waiting.len() > 0 {
            law_set_wakes_whom_it_releases(v.after_notice(key));
            assert(v.after_drop(key).waiters.waiting =~= v.waiters.waiting.remove(0));
        } else if !v.waiters.notified.contains(key->0) {
            let i = v.waiters.position(key->0);
            assert(v.waiters.waiting[i].0 == key->0);
        }
    }
}

/// An operation on an auto-reset event, with what the caller puts in and gets out.
pub enum AutoOp {
    /// The event is set.
    Signal,
    /// Someone attempts to consume the signal.
    TryWait,
    /// A waiter that recorded `key` is polled, and from then on records `new_key`.
    PollWait { key: Option<usize>, waker: Waker, new_key: Option<usize>, r: Poll<()> },
    /// A waiter that recorded `key` is dropped.
    DropWait { key: Option<usize> },
}

impl AutoOp {
    /// The operation leads from `pre` to `post`.
    pub open spec fn leads(self, pre: AutoView, post: AutoView) -> bool {
        match self {
            AutoOp::Signal => post == pre.after_set(),
            AutoOp::TryWait => post == pre.after_try_wait(),
            AutoOp::PollWait { key, waker, new_key, r } => pre.waiters.owns(key) && pre.polled(
                key,
                waker,
                post,
                new_key,
                r,
            ),
            AutoOp::DropWait { key } => pre.waiters.owns(key) && post == pre.after_drop(key),
        }
    }

    /// How many signals the operation gives.
    pub open spec fn signals(self) -> nat {
        if self is Signal {
            1
        } else {
            0
        }
    }

    /// How many waits the operation completes.
    pub open spec fn completions(self, pre: AutoView) -> nat {
        match self {
            AutoOp::TryWait => if pre.is_set {
                1
            } else {
                0
            },
            AutoOp::PollWait { key, waker, new_key, r } => if r == Poll::Ready(()) {
                1
            } else {
                0
            },
            _ => 0,
        }
    }

    /// How many signals the operation coalesces with one that is stored.
    pub open spec fn coalesced(self, pre: AutoView) -> nat {
        match self {
            AutoOp::Signal => if pre.is_set {
                1
            } else {
                0
            },
            AutoOp::DropWait { key } => if pre.is_set && pre.is_released(key) {
                1
            } else {
                0
            },
            _ => 0,
        }
    }
}

/// The operations `ops` lead through `states`, of an event that starts unset.
pub open spec fn auto_history(states: Seq<AutoView>, ops: Seq<AutoOp>) -> bool {
    &&& states.len() == ops.len() + 1
    &&& states[0] == AutoView::unset()
    &&& forall|i: int| 0 <= i < ops.len() ==> (#[trigger] ops[i]).leads(states[i], states[i + 1])
}

/// How many signals the first `n` operations of a history gave.
pub open spec fn signals(ops: Seq<AutoOp>, n: nat) -> nat
    decreases n,
{
    if n == 0 {
        0
    } else {
        signals(ops, (n - 1) as nat) + ops[n - 1].signals()
    }
}

/// How many waits the first `n` operations of a history completed.
pub open spec fn completions(states: Seq<AutoView>, ops: Seq<AutoOp>, n: nat) -> nat
    decreases n,
{
    if n == 0 {
        0
    } else {
        completions(states, ops, (n - 1) as nat) + ops[n - 1].completions(states[n - 1])
    }
}

/// How many signals the first `n` operations of a history coalesced with a stored one.
pub open spec fn coalesced(states: Seq<AutoView>, ops: Seq<AutoOp>, n: nat) -> nat
    decreases n,
{
    if n == 0 {
        0
    } else {
        coalesced(states, ops, (n - 1) as nat) + ops[n - 1].coalesced(states[n - 1])
    }
}

/// Signals are neither lost nor made up: whatever happens to an event, in whatever order, each
/// signal given has completed a wait, is still there to complete one, or was coalesced with one
/// that was stored. In particular, no more waits complete than signals were given.
pub proof fn law_signals_are_conserved(states: Seq<AutoView>, ops: Seq<AutoOp>, n: nat)
    requires
        auto_history(states, ops),
        n <= ops.len(),
    ensures
        states[n as int].valid(),
        signals(ops, n) == completions(states, ops, n) + coalesced(states, ops, n)
            + states[n as int].permits(),
        completions(states, ops, n) <= signals(ops, n),
    decreases n,
{
    if n > 0 {
        law_signals_are_conserved(states, ops, (n - 1) as nat);
        let pre = states[n - 1];
        let post = states[n as int];
        assert(ops[n - 1].leads(pre, post));
        match ops[n - 1] {
            AutoOp::Signal => {
                law_set_keeps_valid(pre);
                law_set_adds_one_permit(pre);
            },
            AutoOp::TryWait => {},
            AutoOp::PollWait { key, waker, new_key, r } => {
                law_poll_keeps_valid(pre, key, waker, post, new_key, r);
                law_wait_uses_one_permit(pre, key, waker, post, new_key, r);
            },
            AutoOp::DropWait { key } => {
                law_drop_keeps_valid(pre, key);
                law_drop_loses_no_permit(pre, key);
            },
        }
    }
}

} // verus!

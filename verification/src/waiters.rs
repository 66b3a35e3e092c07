//! The waiters of a synchronization primitive, in the order in which they arrived.
use std::task::Waker;
use vstd::prelude::*;

verus! {

/// `std::task::Waker`, carried through the library as an opaque value.
#[verifier::external_type_specification]
#[verifier::external_body]
pub struct ExWaker(std::task::Waker);

/// The outcome of polling a future of this library.
#[derive(Debug, PartialEq, Eq)]
pub enum Poll<T> {
    /// The operation completed with this value.
    Ready(T),
    /// The operation has not completed; the waker handed in was stored.
    Pending,
}

impl<T> Poll<T> {
    /// Whether the operation completed.
    pub fn is_ready(&self) -> (r: bool)
        ensures
            r == (self is Ready),
    {
        matches!(self, Poll::Ready(_))
    }

    /// Whether the operation has not completed.
    pub fn is_pending(&self) -> (r: bool)
        ensures
            r == (self is Pending),
    {
        matches!(self, Poll::Pending)
    }
}

/// What a list of waiters holds.
///
/// `waiting` is the queue of registered waiters, oldest first, each with its key and what
/// was stored for it. `notified` is the set of keys that were released but whose owners
/// have not noticed yet.
#[verifier::ext_equal]
pub struct WaitersView<W> {
    pub waiting: Seq<(usize, W)>,
    pub notified: Set<usize>,
}

impl<W> WaitersView<W> {
    /// A list without waiters.
    pub open spec fn empty() -> Self {
        WaitersView { waiting: Seq::empty(), notified: Set::empty() }
    }

    /// The waiter with key `k` is in the queue.
    pub open spec fn is_waiting(self, k: usize) -> bool {
        exists|i: int| 0 <= i < self.waiting.len() && (#[trigger] self.waiting[i]).0 == k
    }

    /// The waiter with key `k` was released and has not noticed yet.
    pub open spec fn is_notified(self, k: usize) -> bool {
        self.notified.contains(k)
    }

    /// The key `k` is in use.
    pub open spec fn has(self, k: usize) -> bool {
        self.is_waiting(k) || self.is_notified(k)
    }

    /// Every waiter of this list, but for the one that recorded `but`, is in the list `post`.
    pub open spec fn kept(self, post: Self, but: Option<usize>) -> bool {
        forall|k: usize| Some(k) != but && self.has(k) ==> #[trigger] post.has(k)
    }

    /// The keys that are in use.
    pub open spec fn keys(self) -> Set<usize> {
        Set::new(|k: usize| self.has(k))
    }

    /// Every key is in use for one waiter in one role.
    pub open spec fn valid(self) -> bool {
        &&& forall|i: int, j: int|
            0 <= i < j < self.waiting.len() ==> (#[trigger] self.waiting[i]).0 != (
            #[trigger] self.waiting[j]).0
        &&& forall|i: int|
            0 <= i < self.waiting.len() ==> !self.notified.contains(
                (#[trigger] self.waiting[i]).0,
            )
        &&& self.notified.finite()
    }

    /// A waiter's own record of its key fits this list.
    pub open spec fn owns(self, key: Option<usize>) -> bool {
        key is Some ==> self.has(key->0)
    }

    /// The place of the waiter with key `k` in the queue.
    pub open spec fn position(self, k: usize) -> int {
        choose|i: int| 0 <= i < self.waiting.len() && (#[trigger] self.waiting[i]).0 == k
    }

    /// The list after a waiter with the fresh key `k` joined the queue.
    pub open spec fn pushed(self, k: usize, w: W) -> Self {
        WaitersView { waiting: self.waiting.push((k, w)), ..self }
    }

    /// The list after what is stored for the waiting `k` became `w`.
    pub open spec fn stored(self, k: usize, w: W) -> Self {
        WaitersView { waiting: self.waiting.update(self.position(k), (k, w)), ..self }
    }

    /// The list after the oldest waiter was released.
    pub open spec fn popped(self) -> Self {
        WaitersView {
            waiting: self.waiting.drop_first(),
            notified: self.notified.insert(self.waiting[0].0),
        }
    }

    /// The list after the waiter with key `k` left it, whatever its role.
    pub open spec fn without(self, k: usize) -> Self {
        if self.is_waiting(k) {
            WaitersView { waiting: self.waiting.remove(self.position(k)), ..self }
        } else {
            WaitersView { notified: self.notified.remove(k), ..self }
        }
    }

    /// `post` is the list after a waiter that recorded `key` was registered with `w`, with
    /// `new_key` its record from then on: a waiter that was not in the list joins the queue
    /// at the end under a fresh key; one that was already in the queue keeps its place.
    pub open spec fn registered(
        self,
        key: Option<usize>,
        w: W,
        post: Self,
        new_key: Option<usize>,
    ) -> bool {
        match key {
            None => new_key is Some && !self.has(new_key->0) && post == self.pushed(
                new_key->0,
                w,
            ),
            Some(k) => new_key == key && post == self.stored(k, w),
        }
    }
}

/// A waiter that is waiting has one place, and `position` gives it.
pub proof fn lemma_position<W>(v: WaitersView<W>, k: usize, i: int)
    requires
        v.valid(),
        0 <= i < v.waiting.len(),
        v.waiting[i].0 == k,
    ensures
        v.is_waiting(k),
        v.position(k) == i,
{
    let p = v.position(k);
    assert(v.waiting[i].0 == k);
    assert(0 <= p < v.waiting.len() && v.waiting[p].0 == k);
    if p < i {
        assert(v.waiting[p].0 != v.waiting[i].0);
    } else if i < p {
        assert(v.waiting[i].0 != v.waiting[p].0);
    }
}

/// Releasing the oldest waiter keeps the list valid; its key is from then on notified.
pub proof fn lemma_popped<W>(v: WaitersView<W>)
    requires
        v.valid(),
        v.waiting.len() > 0,
    ensures
        v.popped().valid(),
        v.popped().is_notified(v.waiting[0].0),
        forall|k: usize| v.popped().has(k) == v.has(k),
        forall|k: usize|
            v.popped().is_waiting(k) == (v.is_waiting(k) && k != v.waiting[0].0),
        v.popped().notified.len() == v.notified.len() + 1,
{
    let p = v.popped();
    assert forall|k: usize| p.is_waiting(k) == (v.is_waiting(k) && k != v.waiting[0].0) by {
        if p.is_waiting(k) {
            let i = p.position(k);
            assert(p.waiting[i] == v.waiting[i + 1]);
            assert(v.waiting[0].0 != v.waiting[i + 1].0);
        }
        if v.is_waiting(k) && k != v.waiting[0].0 {
            let i = v.position(k);
            assert(p.waiting[i - 1] == v.waiting[i]);
        }
    }
    assert(v.waiting[0].0 == v.waiting[0].0);
    assert forall|k: usize| p.has(k) == v.has(k) by {
        assert(p.is_waiting(k) == (v.is_waiting(k) && k != v.waiting[0].0));
    }
}

/// Joining the queue under a fresh key keeps the list valid.
pub proof fn lemma_pushed<W>(v: WaitersView<W>, k: usize, w: W)
    requires
        v.valid(),
        !v.has(k),
    ensures
        v.pushed(k, w).valid(),
        v.pushed(k, w).is_waiting(k),
        forall|j: usize| v.pushed(k, w).has(j) == (v.has(j) || j == k),
{
    let p = v.pushed(k, w);
    assert(p.waiting[v.waiting.len() as int].0 == k);
    assert forall|j: usize| p.is_waiting(j) == (v.is_waiting(j) || j == k) by {
        if v.is_waiting(j) {
            let i = v.position(j);
            assert(p.waiting[i].0 == j);
        }
        if p.is_waiting(j) && j != k {
            let i = p.position(j);
            assert(v.waiting[i].0 == j);
        }
    }
    assert forall|i: int| 0 <= i < v.waiting.len() implies (#[trigger] v.waiting[i]).0 != k by {
        if v.waiting[i].0 == k {
            assert(v.is_waiting(k));
        }
    }
}

/// Storing something new for a waiting waiter keeps the list valid, and every place in it.
pub proof fn lemma_stored<W>(v: WaitersView<W>, k: usize, w: W)
    requires
        v.valid(),
        v.is_waiting(k),
    ensures
        v.stored(k, w).valid(),
        forall|j: usize| v.stored(k, w).is_waiting(j) == v.is_waiting(j),
        forall|j: usize| v.stored(k, w).has(j) == v.has(j),
{
    let p = v.stored(k, w);
    assert forall|i: int| 0 <= i < v.waiting.len() implies (#[trigger] p.waiting[i]).0
        == v.waiting[i].0 by {}
    assert forall|j: usize| p.is_waiting(j) == v.is_waiting(j) by {
        if v.is_waiting(j) {
            let i = v.position(j);
            assert(p.waiting[i].0 == j);
        }
        if p.is_waiting(j) {
            let i = p.position(j);
            assert(v.waiting[i].0 == j);
        }
    }
    assert forall|i: int, j: int| 0 <= i < j < p.waiting.len() implies (
    #[trigger] p.waiting[i]).0 != (#[trigger] p.waiting[j]).0 by {
        assert(v.waiting[i].0 != v.waiting[j].0);
    }
}

/// Leaving the list keeps it valid and frees the key, and no other.
pub proof fn lemma_without<W>(v: WaitersView<W>, k: usize)
    requires
        v.valid(),
        v.has(k),
    ensures
        v.without(k).valid(),
        forall|j: usize| v.without(k).has(j) == (v.has(j) && j != k),
        forall|j: usize| v.without(k).is_waiting(j) == (v.is_waiting(j) && j != k),
{
    let p = v.without(k);
    if v.is_waiting(k) {
        let at = v.position(k);
        assert forall|i: int| 0 <= i < p.waiting.len() implies #[trigger] p.waiting[i]
            == v.waiting[if i < at { i } else { i + 1 }] by {}
        assert forall|j: usize| p.is_waiting(j) == (v.is_waiting(j) && j != k) by {
            if v.is_waiting(j) && j != k {
                let i = v.position(j);
                assert(i != at);
                let i2 = if i < at { i } else { i - 1 };
                assert(p.waiting[i2].0 == j);
            }
            if p.is_waiting(j) {
                let i = p.position(j);
                let i2 = if i < at { i } else { i + 1 };
                assert(v.waiting[i2].0 == j);
                if j == k {
                    lemma_position(v, k, i2);
                }
            }
        }
        assert forall|i: int, j: int| 0 <= i < j < p.waiting.len() implies (
        #[trigger] p.waiting[i]).0 != (#[trigger] p.waiting[j]).0 by {
            let i2 = if i < at { i } else { i + 1 };
            let j2 = if j < at { j } else { j + 1 };
            assert(v.waiting[i2].0 != v.waiting[j2].0);
        }
        assert forall|i: int| 0 <= i < p.waiting.len() implies !p.notified.contains(
            (#[trigger] p.waiting[i]).0,
        ) by {
            let i2 = if i < at { i } else { i + 1 };
            assert(!v.notified.contains(v.waiting[i2].0));
        }
        assert(!v.notified.contains(v.waiting[at].0));
        assert forall|j: usize| p.has(j) == (v.has(j) && j != k) by {
            assert(p.is_waiting(j) == (v.is_waiting(j) && j != k));
        }
    } else {
        assert forall|j: usize| p.is_waiting(j) == v.is_waiting(j) by {
            assert(p.waiting == v.waiting);
        }
    }
}

/// A list without waiters has no one in the queue and no one who was released.
pub proof fn law_empty<W>()
    ensures
        WaitersView::<W>::empty().waiting.len() == 0,
        forall|k: usize| !(#[trigger] WaitersView::<W>::empty().notified.contains(k)),
{
}

/// Whoever is registered waits from then on with what was handed in last. One who waited already
/// keeps its place, one who did not comes behind all who did, and no one else is touched.
pub proof fn law_registered_keeps_places<W>(
    v: WaitersView<W>,
    key: Option<usize>,
    w: W,
    post: WaitersView<W>,
    new_key: Option<usize>,
)
    requires
        v.valid(),
        v.owns(key),
        key is Some ==> !v.notified.contains(key->0),
        v.registered(key, w, post, new_key),
    ensures
        new_key is Some && post.notified == v.notified,
        (key is Some ==> new_key == key && post.waiting.len() == v.waiting.len()),
        (key is None ==> {
            &&& post.waiting.len() == v.waiting.len() + 1
            &&& post.waiting.last().0 == new_key->0
            &&& !v.notified.contains(new_key->0)
            &&& forall|i: int|
                0 <= i < v.waiting.len() ==> (#[trigger] v.waiting[i]).0 != new_key->0
        }),
        (forall|i: int|
            0 <= i < v.waiting.len() ==> (#[trigger] post.waiting[i]).0 == v.waiting[i].0),
        (exists|i: int|
            0 <= i < post.waiting.len() && (#[trigger] post.waiting[i]).0 == new_key->0),
        (forall|i: int|
            0 <= i < post.waiting.len() && (#[trigger] post.waiting[i]).0 == new_key->0
                ==> post.waiting[i].1 == w),
        (forall|i: int|
            0 <= i < v.waiting.len() && (#[trigger] post.waiting[i]).0 != new_key->0
                ==> post.waiting[i] == v.waiting[i]),
{
    match key {
        None => {
            let k = new_key->0;
            lemma_pushed(v, k, w);
            assert(post.waiting[v.waiting.len() as int] == (k, w));
            assert forall|i: int| 0 <= i < v.waiting.len() implies (
            #[trigger] v.waiting[i]).0 != k by {
                if v.waiting[i].0 == k {
                    assert(v.is_waiting(k));
                }
            }
        },
        Some(k) => {
            let at = v.position(k);
            assert(v.is_waiting(k));
            assert(post.waiting[at] == (k, w));
            assert forall|i: int| 0 <= i < post.waiting.len() && (
            #[trigger] post.waiting[i]).0 == k implies post.waiting[i].1 == w by {
                lemma_position(v, k, i);
            }
        },
    }
}

/// Whoever is taken out of the list frees its key, and every other waiter keeps its turn, what is
/// stored for it and its release.
pub proof fn law_leaving_disturbs_no_one<W>(v: WaitersView<W>, k: usize)
    requires
        v.valid(),
        v.has(k),
    ensures
        v.notified.contains(k) ==> v.without(k).waiting == v.waiting && v.without(k).notified
            == v.notified.remove(k),
        forall|i: int|
            0 <= i < v.waiting.len() && (#[trigger] v.waiting[i]).0 == k ==> v.without(k).waiting
                == v.waiting.remove(i) && v.without(k).notified == v.notified,
{
    if v.notified.contains(k) && v.is_waiting(k) {
        assert(!v.notified.contains(v.waiting[v.position(k)].0));
    }
    assert forall|i: int| 0 <= i < v.waiting.len() && (#[trigger] v.waiting[i]).0
        == k implies v.without(k).waiting == v.waiting.remove(i) && v.without(k).notified
        == v.notified by {
        lemma_position(v, k, i);
    }
}

/// The waiter that is released next is the one that has waited longest, and no one else is
/// released.
pub proof fn law_oldest_is_released<W>(v: WaitersView<W>)
    requires
        v.valid(),
        v.waiting.len() > 0,
    ensures
        forall|k: usize| #[trigger]
            v.popped().notified.contains(k) <==> v.notified.contains(k) || k == v.waiting[0].0,
        v.popped().waiting.len() == v.waiting.len() - 1,
        forall|i: int|
            0 <= i < v.waiting.len() - 1 ==> #[trigger] v.popped().waiting[i] == v.waiting[i + 1],
        !v.notified.contains(v.waiting[0].0),
{
}

/// A waiter's record of its place in a list, kept by the future that waits.
///
/// The record is empty until the waiter is registered, and empty again once the waiter
/// has left the list.
pub struct Waiter {
    key: Option<usize>,
}

impl View for Waiter {
    type V = Option<usize>;

    closed spec fn view(&self) -> Option<usize> {
        self.key
    }
}

impl Waiter {
    /// A waiter that is in no list.
    pub fn new() -> (r: Self)
        ensures
            r@ is None,
    {
        Waiter { key: None }
    }

    /// Whether the waiter is in a list, waiting or released.
    pub fn is_registered(&self) -> (r: bool)
        ensures
            r == (self@ is Some),
    {
        self.key.is_some()
    }
}

#[derive(Clone, Copy, PartialEq, Eq, Structural)]
enum Phase {
    Free,
    Waiting,
    Notified,
}

spec fn notified_keys(phases: Seq<Phase>) -> Set<usize>
    decreases phases.len(),
{
    if phases.len() == 0 {
        Set::empty()
    } else if phases.last() == Phase::Notified {
        notified_keys(phases.drop_last()).insert((phases.len() - 1) as usize)
    } else {
        notified_keys(phases.drop_last())
    }
}

proof fn lemma_notified_keys(phases: Seq<Phase>)
    requires
        phases.len() <= usize::MAX + 1,
    ensures
        notified_keys(phases).finite(),
        forall|k: usize|
            #[trigger] notified_keys(phases).contains(k) == (k < phases.len() && phases[k as int]
                == Phase::Notified),
    decreases phases.len(),
{
    if phases.len() > 0 {
        lemma_notified_keys(phases.drop_last());
        assert forall|k: usize|
            notified_keys(phases).contains(k) == (k < phases.len() && phases[k as int]
                == Phase::Notified) by {
            assert(notified_keys(phases.drop_last()).contains(k) == (k < phases.len() - 1
                && phases.drop_last()[k as int] == Phase::Notified));
            if k < phases.len() - 1 {
                assert(phases.drop_last()[k as int] == phases[k as int]);
            }
        }
    }
}

/// A queue of waiters, and the released waiters that have not noticed yet.
///
/// Each waiter is known by a key that no other waiter of the list has; a key is used
/// again once its waiter has left. What is stored for a waiting waiter is a `W`.
pub struct WaiterList<W> {
    queue: Vec<(usize, W)>,
    phases: Vec<Phase>,
}

impl<W> View for WaiterList<W> {
    type V = WaitersView<W>;

    closed spec fn view(&self) -> WaitersView<W> {
        WaitersView { waiting: self.queue@, notified: notified_keys(self.phases@) }
    }
}

impl<W> WaiterList<W> {
    /// The phases of the keys agree with the queue.
    pub closed spec fn wf(self) -> bool {
        &&& self@.valid()
        &&& forall|i: int|
            0 <= i < self.queue.len() ==> (#[trigger] self.queue@[i]).0 < self.phases.len()
                && self.phases@[self.queue@[i].0 as int] == Phase::Waiting
        &&& forall|k: usize|
            k < self.phases.len() && #[trigger] self.phases@[k as int] == Phase::Waiting
                ==> self@.is_waiting(k)
    }

    /// Well-formed lists are valid.
    pub proof fn lemma_valid(&self)
        requires
            self.wf(),
        ensures
            self@.valid(),
    {
    }

    /// A list without waiters.
    pub fn new() -> (r: Self)
        ensures
            r.wf(),
            r@ == WaitersView::<W>::empty(),
    {
        let r = WaiterList { queue: Vec::new(), phases: Vec::new() };
        proof {
            lemma_notified_keys(r.phases@);
            assert(r@ =~= WaitersView::<W>::empty());
        }
        r
    }

    /// Whether no waiter is waiting.
    pub fn is_empty(&self) -> (r: bool)
        ensures
            r == (self@.waiting.len() == 0),
    {
        self.queue.len() == 0
    }

    /// How many waiters are waiting.
    pub fn len(&self) -> (r: usize)
        ensures
            r == self@.waiting.len(),
    {
        self.queue.len()
    }

    /// Whether `waiter` was released and has not noticed yet.
    pub fn is_notified(&self, waiter: &Waiter) -> (r: bool)
        requires
            self.wf(),
            self@.owns(waiter@),
        ensures
            r == (waiter@ is Some && self@.is_notified(waiter@->0)),
    {
        proof {
            assert(self.phases.len() == self.phases@.len());
            lemma_notified_keys(self.phases@);
        }
        match waiter.key {
            None => false,
            Some(k) => {
                if k < self.phases.len() {
                    self.phases[k] == Phase::Notified
                } else {
                    false
                }
            },
        }
    }

    /// The place of `waiter` in the queue, if it is waiting.
    pub fn place(&self, waiter: &Waiter) -> (r: Option<usize>)
        requires
            self.wf(),
            self@.owns(waiter@),
        ensures
            r is Some <==> waiter@ is Some && self@.is_waiting(waiter@->0),
            r is Some ==> r->0 == self@.position(waiter@->0) && r->0 < self@.waiting.len()
                && self@.waiting[r->0 as int].0 == waiter@->0,
    {
        proof {
            assert(self.phases.len() == self.phases@.len());
            lemma_notified_keys(self.phases@);
        }
        match waiter.key {
            None => None,
            Some(k) => {
                proof {
                    if self@.is_waiting(k) {
                        let p = self@.position(k);
                        assert(self.queue@[p].0 == k);
                    }
                }
                if self.phases[k] == Phase::Waiting {
                    Some(self.find(k))
                } else {
                    None
                }
            },
        }
    }

    /// What is stored for the waiter at place `i` of the queue.
    pub fn stored_at(&self, i: usize) -> (r: &W)
        requires
            i < self@.waiting.len(),
        ensures
            *r == self@.waiting[i as int].1,
    {
        &self.queue[i].1
    }

    /// Replaces what is stored for the waiter at place `i` of the queue, and hands out what
    /// was stored before.
    pub fn replace_at(&mut self, i: usize, w: W) -> (r: W)
        requires
            old(self).wf(),
            i < old(self)@.waiting.len(),
        ensures
            final(self).wf(),
            r == old(self)@.waiting[i as int].1,
            final(self)@ == old(self)@.stored(old(self)@.waiting[i as int].0, w),
            final(self)@.waiting == old(self)@.waiting.update(
                i as int,
                (old(self)@.waiting[i as int].0, w),
            ),
    {
        let ghost pre = *self;
        let ghost k = self.queue@[i as int].0;
        proof {
            lemma_position(pre@, k, i as int);
            lemma_stored(pre@, k, w);
        }
        let key: usize = self.queue[i].0;
        let mut entry: (usize, W) = (key, w);
        core::mem::swap(&mut self.queue[i], &mut entry);
        proof {
            assert(self.queue@ =~= pre.queue@.update(i as int, (k, w)));
            assert(self@ =~= pre@.stored(k, w));
            assert forall|i: int| 0 <= i < self.queue.len() implies (
            #[trigger] self.queue@[i]).0 == pre.queue@[i].0 by {}
            assert forall|j: usize|
                j < self.phases.len() && #[trigger] self.phases@[j as int]
                    == Phase::Waiting implies self@.is_waiting(j) by {
                assert(pre@.is_waiting(j));
            }
        }
        entry.1
    }

    fn find(&self, k: usize) -> (r: usize)
        requires
            self.wf(),
            self@.is_waiting(k),
        ensures
            r < self.queue.len(),
            r == self@.position(k),
            self.queue@[r as int].0 == k,
    {
        let mut i: usize = 0;
        while i < self.queue.len()
            invariant
                self.wf(),
                self@.is_waiting(k),
                i <= self.queue.len(),
                forall|j: int| 0 <= j < i ==> (#[trigger] self.queue@[j]).0 != k,
            decreases self.queue.len() - i,
        {
            if self.queue[i].0 == k {
                proof {
                    lemma_position(self@, k, i as int);
                }
                return i;
            }
            i += 1;
        }
        proof {
            let p = self@.position(k);
            assert(self.queue@[p].0 != k);
        }
        0
    }

    fn find_free(&self) -> (r: usize)
        requires
            self.wf(),
        ensures
            r <= self.phases.len(),
            r < self.phases.len() ==> self.phases@[r as int] == Phase::Free,
            !self@.has(r),
    {
        proof {
            assert(self.phases.len() == self.phases@.len());
            lemma_notified_keys(self.phases@);
        }
        let mut i: usize = 0;
        while i < self.phases.len()
            invariant
                self.wf(),
                i <= self.phases.len(),
                forall|k: usize|
                    #[trigger] notified_keys(self.phases@).contains(k) == (k < self.phases.len()
                        && self.phases@[k as int] == Phase::Notified),
            decreases self.phases.len() - i,
        {
            if self.phases[i] == Phase::Free {
                assert(!self@.is_waiting(i)) by {
                    if self@.is_waiting(i) {
                        let p = self@.position(i);
                        assert(self.queue@[p].0 == i);
                    }
                }
                return i;
            }
            i += 1;
        }
        assert(!self@.is_waiting(i)) by {
            if self@.is_waiting(i) {
                let p = self@.position(i);
                assert(self.queue@[p].0 == i);
            }
        }
        i
    }

    /// Registers `waiter` with `w`.
    ///
    /// A waiter that is not in the list joins the queue at the end; for one that is
    /// waiting already, only what is stored for it is replaced.
    pub fn register(&mut self, waiter: &mut Waiter, w: W)
        requires
            old(self).wf(),
            old(self)@.owns(old(waiter)@),
            old(waiter)@ is Some ==> !old(self)@.is_notified(old(waiter)@->0),
        ensures
            final(self).wf(),
            old(self)@.registered(old(waiter)@, w, final(self)@, final(waiter)@),
    {
        proof {
            assert(self.phases.len() == self.phases@.len());
            lemma_notified_keys(self.phases@);
        }
        let ghost pre = *self;
        match waiter.key {
            Some(k) => {
                let at: usize = self.find(k);
                proof {
                    lemma_stored(pre@, k, w);
                }
                self.queue[at] = (k, w);
                proof {
                    assert(self.queue@ == pre.queue@.update(at as int, (k, w)));
                    assert(self@ =~= pre@.stored(k, w));
                    assert forall|i: int| 0 <= i < self.queue.len() implies (
                    #[trigger] self.queue@[i]).0 == pre.queue@[i].0 by {}
                    assert forall|j: usize|
                        j < self.phases.len() && #[trigger] self.phases@[j as int]
                            == Phase::Waiting implies self@.is_waiting(j) by {
                        assert(pre@.is_waiting(j));
                    }
                }
            },
            None => {
                let k: usize = self.find_free();
                proof {
                    lemma_pushed(pre@, k, w);
                }
                if k == self.phases.len() {
                    self.phases.push(Phase::Waiting);
                } else {
                    self.phases[k] = Phase::Waiting;
                }
                self.queue.push((k, w));
                waiter.key = Some(k);
                proof {
                    assert(self.phases.len() == self.phases@.len());
                    lemma_notified_keys(self.phases@);
                    assert(self@.notified =~= pre@.notified);
                    assert(self@ =~= pre@.pushed(k, w));
                    assert forall|i: int| 0 <= i < self.queue.len() implies (
                    #[trigger] self.queue@[i]).0 < self.phases.len()
                        && self.phases@[self.queue@[i].0 as int] == Phase::Waiting by {
                        if i < pre.queue.len() {
                            assert(self.queue@[i] == pre.queue@[i]);
                        }
                    }
                    assert forall|j: usize|
                        j < self.phases.len() && #[trigger] self.phases@[j as int]
                            == Phase::Waiting implies self@.is_waiting(j) by {
                        if j != k {
                            assert(pre.phases@[j as int] == Phase::Waiting);
                            assert(pre@.has(j) && pre@.is_waiting(j));
                            let i = pre@.position(j);
                            assert(self.queue@[i].0 == j);
                        }
                    }
                }
            },
        }
    }

    /// Releases the oldest waiter and hands out what was stored for it; `None` if no
    /// waiter is waiting.
    pub fn notify_one(&mut self) -> (r: Option<W>)
        requires
            old(self).wf(),
        ensures
            final(self).wf(),
            old(self)@.waiting.len() == 0 ==> r is None && final(self)@ == old(self)@,
            old(self)@.waiting.len() > 0 ==> r == Some(old(self)@.waiting[0].1) && final(self)@
                == old(self)@.popped(),
    {
        if self.queue.len() == 0 {
            return None;
        }
        let ghost pre = *self;
        proof {
            assert(self.phases.len() == self.phases@.len());
            lemma_notified_keys(self.phases@);
            lemma_popped(pre@);
            assert(pre.queue@[0].0 < pre.phases.len());
        }
        let (k, w) = self.queue.remove(0);
        self.phases[k] = Phase::Notified;
        proof {
            assert(self.phases.len() == self.phases@.len());
            lemma_notified_keys(self.phases@);
            assert(self.queue@ =~= pre.queue@.drop_first());
            assert(self@.notified =~= pre@.popped().notified);
            assert(self@ =~= pre@.popped());
            assert forall|i: int| 0 <= i < self.queue.len() implies (
            #[trigger] self.queue@[i]).0 < self.phases.len()
                && self.phases@[self.queue@[i].0 as int] == Phase::Waiting by {
                assert(self.queue@[i] == pre.queue@[i + 1]);
                assert(pre.queue@[0].0 != pre.queue@[i + 1].0);
            }
            assert forall|j: usize|
                j < self.phases.len() && #[trigger] self.phases@[j as int]
                    == Phase::Waiting implies self@.is_waiting(j) by {
                assert(j != k);
                assert(pre.phases@[j as int] == Phase::Waiting);
                assert(pre@.is_waiting(j));
            }
        }
        Some(w)
    }

    /// Takes `waiter` out of the list, waiting or released; one that is in no list stays
    /// as it is.
    pub fn unregister(&mut self, waiter: &mut Waiter)
        requires
            old(self).wf(),
            old(self)@.owns(old(waiter)@),
        ensures
            final(self).wf(),
            final(waiter)@ is None,
            match old(waiter)@ {
                None => final(self)@ == old(self)@,
                Some(k) => final(self)@ == old(self)@.without(k),
            },
    {
        let ghost pre = *self;
        proof {
            assert(self.phases.len() == self.phases@.len());
            lemma_notified_keys(self.phases@);
        }
        match waiter.key {
            None => {},
            Some(k) => {
                proof {
                    lemma_without(pre@, k);
                    if pre@.is_waiting(k) {
                        let p = pre@.position(k);
                        assert(pre.queue@[p].0 == k);
                    }
                }
                if self.phases[k] == Phase::Waiting {
                    let at: usize = self.find(k);
                    self.queue.remove(at);
                }
                self.phases[k] = Phase::Free;
                waiter.key = None;
                proof {
                    assert(self.phases.len() == self.phases@.len());
                    lemma_notified_keys(self.phases@);
                    assert(self@.waiting =~= pre@.without(k).waiting);
                    if pre@.is_waiting(k) {
                        let p = pre@.position(k);
                        assert(!pre@.notified.contains(pre@.waiting[p].0));
                    }
                    assert(self@.notified =~= pre@.without(k).notified);
                    assert(self@ =~= pre@.without(k));
                    assert forall|i: int| 0 <= i < self.queue.len() implies (
                    #[trigger] self.queue@[i]).0 < self.phases.len()
                        && self.phases@[self.queue@[i].0 as int] == Phase::Waiting by {
                        let j = self.queue@[i].0;
                        assert(self@.is_waiting(j));
                        assert(pre@.is_waiting(j) && j != k);
                        let p = pre@.position(j);
                        assert(pre.queue@[p].0 == j);
                    }
                    assert forall|j: usize|
                        j < self.phases.len() && #[trigger] self.phases@[j as int]
                            == Phase::Waiting implies self@.is_waiting(j) by {
                        assert(j != k);
                        assert(pre.phases@[j as int] == Phase::Waiting);
                        assert(pre@.is_waiting(j));
                    }
                }
            },
        }
    }

    /// Lets `waiter` notice that it was released: if it was, it leaves the list and the
    /// answer is `true`.
    pub fn take_notification(&mut self, waiter: &mut Waiter) -> (r: bool)
        requires
            old(self).wf(),
            old(self)@.owns(old(waiter)@),
        ensures
            final(self).wf(),
            r == (old(waiter)@ is Some && old(self)@.is_notified(old(waiter)@->0)),
            r ==> final(self)@ == old(self)@.without(old(waiter)@->0) && final(waiter)@ is None,
            !r ==> final(self)@ == old(self)@ && final(waiter)@ == old(waiter)@,
    {
        if self.is_notified(waiter) {
            self.unregister(waiter);
            true
        } else {
            false
        }
    }
}

} // verus!

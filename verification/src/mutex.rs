//! Mutual exclusion for a shared value, served first come, first served.
use std::task::Waker;
use vstd::prelude::*;

use crate::lock_rules::{
    law_drop_keeps_valid, law_poll_excludes, law_unlock_serves_the_oldest, LockView, MutexView,
};
use crate::waiters::{Poll, Waiter, WaiterList};

verus! {

/// The state of a lock.
pub struct LockState {
    locked: bool,
    waiters: WaiterList<Waker>,
}

impl View for LockState {
    type V = LockView;

    closed spec fn view(&self) -> LockView {
        LockView { locked: self.locked, waiters: self.waiters@ }
    }
}

impl LockState {
    /// Waiters wait only for a lock that is locked, and it is granted to one of them at most.
    pub closed spec fn wf(self) -> bool {
        self.waiters.wf() && self@.valid()
    }

    /// What well-formedness says of the abstract lock.
    pub proof fn lemma_valid(&self)
        requires
            self.wf(),
        ensures
            self@.valid(),
    {
    }

    fn new() -> (r: Self)
        ensures
            r.wf(),
            r@ == LockView::unlocked(),
    {
        LockState { locked: false, waiters: WaiterList::new() }
    }

    /// Gives the lock up. Hands out the waker of the waiter that it was granted to.
    pub fn unlock(&mut self) -> (r: Option<Waker>)
        requires
            old(self).wf(),
            old(self)@.is_held(),
        ensures
            final(self).wf(),
            final(self)@ == old(self)@.after_unlock(),
            old(self)@.waiters.kept(final(self)@.waiters, None),
            r == old(self)@.next(),
    {
        proof {
            law_unlock_serves_the_oldest(self@);
        }
        match self.waiters.notify_one() {
            Some(w) => Some(w),
            None => {
                self.locked = false;
                None
            },
        }
    }

    /// Takes the lock if it is unlocked.
    pub fn try_lock_inner(&mut self) -> (r: bool)
        requires
            old(self).wf(),
        ensures
            final(self).wf(),
            r == !old(self)@.locked,
            r ==> final(self)@ == old(self)@.after_lock(),
            !r ==> final(self)@ == old(self)@,
    {
        if !self.locked {
            self.locked = true;
            true
        } else {
            false
        }
    }

    /// Polls on behalf of `waiter`, which is to be woken by `waker`.
    pub fn poll_lock(&mut self, waiter: &mut Waiter, waker: Waker) -> (r: Poll<()>)
        requires
            old(self).wf(),
            old(self)@.waiters.owns(old(waiter)@),
        ensures
            final(self).wf(),
            final(self)@.waiters.owns(final(waiter)@),
            old(self)@.waiters.kept(final(self)@.waiters, old(waiter)@),
            old(self)@.polled(old(waiter)@, waker, final(self)@, final(waiter)@, r),
    {
        let ghost pre = *self;
        let ghost key = waiter@;
        let ghost w = waker;
        let r = if self.waiters.take_notification(waiter) {
            // The lock was passed on to us: it is still locked.
            Poll::Ready(())
        } else if !self.locked {
            self.locked = true;
            Poll::Ready(())
        } else {
            self.waiters.register(waiter, waker);
            Poll::Pending
        };
        proof {
            assert(pre@.polled(key, w, self@, waiter@, r));
            law_poll_excludes(pre@, key, w, self@, waiter@, r);
        }
        r
    }

    /// Drops `waiter`. Hands out the waker of the waiter that its grant was passed on to.
    pub fn drop_lock_wait(&mut self, waiter: &mut Waiter) -> (r: Option<Waker>)
        requires
            old(self).wf(),
            old(self)@.waiters.owns(old(waiter)@),
        ensures
            final(self).wf(),
            final(waiter)@ is None,
            final(self)@ == old(self)@.after_drop(old(waiter)@),
            old(self)@.waiters.kept(final(self)@.waiters, old(waiter)@),
            r == old(self)@.woken_by_drop(old(waiter)@),
    {
        proof {
            law_drop_keeps_valid(self@, waiter@);
        }
        if !waiter.is_registered() {
            return None;
        }
        if self.waiters.take_notification(waiter) {
            match self.waiters.notify_one() {
                Some(w) => Some(w),
                None => {
                    self.locked = false;
                    None
                },
            }
        } else {
            self.waiters.unregister(waiter);
            None
        }
    }
}

/// The lock and the value it protects, which is absent while the lock is held.
pub struct MutexInner<T> {
    lock_state: LockState,
    data: Option<T>,
}

impl<T> View for MutexInner<T> {
    type V = MutexView<T>;

    closed spec fn view(&self) -> MutexView<T> {
        MutexView { lock: self.lock_state@, value: self.data }
    }
}

impl<T> MutexInner<T> {
    /// The value is in exactly one place: with the holder of the lock, or here.
    pub closed spec fn wf(self) -> bool {
        self.lock_state.wf() && self@.valid()
    }

    /// What well-formedness says of the abstract mutex.
    pub proof fn lemma_valid(&self)
        requires
            self.wf(),
        ensures
            self@.valid(),
    {
    }

    fn new(value: T) -> (r: Self)
        ensures
            r.wf(),
            r@ == MutexView::unlocked(value),
    {
        MutexInner { lock_state: LockState::new(), data: Some(value) }
    }

    fn try_lock(&mut self) -> (r: Option<T>)
        requires
            old(self).wf(),
        ensures
            final(self).wf(),
            r is Some <==> !old(self)@.lock.locked,
            r is Some ==> r == old(self)@.value && final(self)@ == old(self)@.after_lock(),
            r is None ==> final(self)@ == old(self)@,
    {
        if self.lock_state.try_lock_inner() {
            self.data.take()
        } else {
            None
        }
    }

    fn poll_lock(&mut self, waiter: &mut Waiter, waker: Waker) -> (r: Option<T>)
        requires
            old(self).wf(),
            old(self)@.lock.waiters.owns(old(waiter)@),
        ensures
            final(self).wf(),
            final(self)@.lock.waiters.owns(final(waiter)@),
            old(self)@.lock.waiters.kept(final(self)@.lock.waiters, old(waiter)@),
            old(self)@.polled(old(waiter)@, waker, final(self)@, final(waiter)@, r),
    {
        let ghost pre = *self;
        let ghost key = waiter@;
        let ghost w = waker;
        let p = self.lock_state.poll_lock(waiter, waker);
        proof {
            law_poll_excludes(pre@.lock, key, w, self.lock_state@, waiter@, p);
        }
        match p {
            Poll::Ready(()) => self.data.take(),
            Poll::Pending => None,
        }
    }

    fn drop_lock_wait(&mut self, waiter: &mut Waiter) -> (r: Option<Waker>)
        requires
            old(self).wf(),
            old(self)@.lock.waiters.owns(old(waiter)@),
        ensures
            final(self).wf(),
            final(waiter)@ is None,
            final(self)@ == old(self)@.after_drop(old(waiter)@),
            old(self)@.lock.waiters.kept(final(self)@.lock.waiters, old(waiter)@),
            r == old(self)@.lock.woken_by_drop(old(waiter)@),
    {
        proof {
            law_drop_keeps_valid(self@.lock, waiter@);
        }
        self.lock_state.drop_lock_wait(waiter)
    }

    fn unlock(&mut self, value: T) -> (r: Option<Waker>)
        requires
            old(self).wf(),
            old(self)@.is_held(),
        ensures
            final(self).wf(),
            final(self)@ == old(self)@.after_unlock(value),
            old(self)@.lock.waiters.kept(final(self)@.lock.waiters, None),
            r == old(self)@.lock.next(),
    {
        proof {
            law_unlock_serves_the_oldest(self@.lock);
        }
        self.data = Some(value);
        self.lock_state.unlock()
    }
}

/// Async mutex around a value of type `T`.
///
/// Waiters are served in the order in which they came: when a holder unlocks while waiters
/// are queued, the lock is transferred to the longest-waiting future. If a future that the
/// lock was granted to is dropped, the lock is forwarded to the next waiter, or released.
pub struct Mutex<T> {
    inner: MutexInner<T>,
}

impl<T> View for Mutex<T> {
    type V = MutexView<T>;

    closed spec fn view(&self) -> MutexView<T> {
        self.inner@
    }
}

impl<T> Mutex<T> {
    /// The value is in exactly one place: with the holder of the lock, or in the mutex.
    pub closed spec fn wf(self) -> bool {
        self.inner.wf()
    }

    /// What well-formedness says of the abstract mutex.
    pub proof fn lemma_valid(&self)
        requires
            self.wf(),
        ensures
            self@.valid(),
    {
        self.inner.lemma_valid();
    }

    /// Creates a new mutex wrapping the given value.
    pub fn boxed(value: T) -> (r: Self)
        ensures
            r.wf(),
            r@ == MutexView::unlocked(value),
    {
        Mutex { inner: MutexInner::new(value) }
    }

    /// Creates a handle that operates on the state in a container.
    pub fn embedded<'a>(place: &'a mut EmbeddedMutex<T>) -> (r: RawMutex<'a, T>)
        ensures
            *r.inner == old(place).inner,
            *final(r.inner) == final(place).inner,
    {
        RawMutex { inner: &mut place.inner }
    }

    /// Returns a future that resolves to a `MutexGuard` when the lock is acquired.
    pub fn lock(&self) -> (r: MutexLockFuture)
        ensures
            r@ is None,
    {
        MutexLockFuture { waiter: Waiter::new() }
    }

    /// Attempts to acquire the lock: `None` if it is held or granted to a waiter.
    pub fn try_lock(&mut self) -> (r: Option<MutexGuard<T>>)
        requires
            old(self).wf(),
        ensures
            final(self).wf(),
            r is Some <==> !old(self)@.lock.locked,
            r is Some ==> old(self)@.value == Some(r->0@) && final(self)@
                == old(self)@.after_lock(),
            r is None ==> final(self)@ == old(self)@,
    {
        match self.inner.try_lock() {
            Some(value) => Some(MutexGuard { value }),
            None => None,
        }
    }
}

/// Guard returned by `Mutex::lock()` and `Mutex::try_lock()`.
///
/// The guard has the protected value while the lock is held; `unlock` gives both up.
pub struct MutexGuard<T> {
    value: T,
}

impl<T> View for MutexGuard<T> {
    type V = T;

    closed spec fn view(&self) -> T {
        self.value
    }
}

impl<T> std::ops::Deref for MutexGuard<T> {
    type Target = T;

    fn deref(&self) -> (r: &T)
        ensures
            *r == self@,
    {
        &self.value
    }
}

impl<T> std::ops::DerefMut for MutexGuard<T> {
    fn deref_mut(&mut self) -> (r: &mut T)
        ensures
            *r == old(self)@,
            *final(r) == final(self)@,
    {
        &mut self.value
    }
}

impl<T> MutexGuard<T> {
    /// Gives up the lock of `mutex`, which this guard was got from, and the value. Hands out
    /// the waker of the waiter that the lock was granted to.
    pub fn unlock(self, mutex: &mut Mutex<T>) -> (r: Option<Waker>)
        requires
            old(mutex).wf(),
            old(mutex)@.is_held(),
        ensures
            final(mutex).wf(),
            final(mutex)@ == old(mutex)@.after_unlock(self@),
            old(mutex)@.lock.waiters.kept(final(mutex)@.lock.waiters, None),
            r == old(mutex)@.lock.next(),
    {
        mutex.inner.unlock(self.value)
    }
}

/// Future returned by `Mutex::lock()`.
///
/// Completes with a `MutexGuard` when the lock is acquired.
pub struct MutexLockFuture {
    waiter: Waiter,
}

impl View for MutexLockFuture {
    type V = Option<usize>;

    closed spec fn view(&self) -> Option<usize> {
        self.waiter@
    }
}

impl MutexLockFuture {
    /// Polls the future, on behalf of the task that `waker` wakes.
    pub fn poll<T>(&mut self, mutex: &mut Mutex<T>, waker: Waker) -> (r: Poll<MutexGuard<T>>)
        requires
            old(mutex).wf(),
            old(mutex)@.lock.waiters.owns(old(self)@),
        ensures
            final(mutex).wf(),
            final(mutex)@.lock.waiters.owns(final(self)@),
            old(mutex)@.lock.waiters.kept(final(mutex)@.lock.waiters, old(self)@),
            old(mutex)@.polled(
                old(self)@,
                waker,
                final(mutex)@,
                final(self)@,
                match r {
                    Poll::Ready(guard) => Some(guard@),
                    Poll::Pending => None,
                },
            ),
    {
        match mutex.inner.poll_lock(&mut self.waiter, waker) {
            Some(value) => Poll::Ready(MutexGuard { value }),
            None => Poll::Pending,
        }
    }

    /// Drops the future. One that the lock was granted to and that has not taken it up passes
    /// it on to the next waiter, whose waker is handed out, or leaves it unlocked.
    pub fn drop_lock_wait<T>(self, mutex: &mut Mutex<T>) -> (r: Option<Waker>)
        requires
            old(mutex).wf(),
            old(mutex)@.lock.waiters.owns(self@),
        ensures
            final(mutex).wf(),
            final(mutex)@ == old(mutex)@.after_drop(self@),
            old(mutex)@.lock.waiters.kept(final(mutex)@.lock.waiters, self@),
            r == old(mutex)@.lock.woken_by_drop(self@),
    {
        let mut waiter = self.waiter;
        mutex.inner.drop_lock_wait(&mut waiter)
    }
}

/// Container for the state of a mutex that is not allocated on its own.
pub struct EmbeddedMutex<T> {
    /// The state of the mutex.
    pub inner: MutexInner<T>,
}

impl<T> EmbeddedMutex<T> {
    /// Creates a container with a mutex wrapping the given value.
    pub fn new(value: T) -> (r: Self)
        ensures
            r.inner.wf(),
            r.inner@ == MutexView::unlocked(value),
    {
        EmbeddedMutex { inner: MutexInner::new(value) }
    }
}

impl<T: Default> Default for EmbeddedMutex<T> {
    fn default() -> (r: Self)
        ensures
            r.inner.wf(),
            exists|value: T|
                call_ensures(T::default, (), value) && #[trigger] MutexView::unlocked(value)
                    == r.inner@,
    {
        let value = T::default();
        Self::new(value)
    }
}

/// Handle to the mutex in a container.
pub struct RawMutex<'a, T> {
    /// The state of the mutex.
    pub inner: &'a mut MutexInner<T>,
}

impl<'a, T> RawMutex<'a, T> {
    /// Returns a future that resolves to a `RawMutexGuard` when the lock is acquired.
    pub fn lock(&self) -> (r: RawMutexLockFuture)
        ensures
            r@ is None,
    {
        RawMutexLockFuture { waiter: Waiter::new() }
    }

    /// Attempts to acquire the lock: `None` if it is held or granted to a waiter.
    pub fn try_lock(&mut self) -> (r: Option<RawMutexGuard<T>>)
        requires
            old(self).inner.wf(),
        ensures
            final(self).inner.wf(),
            *final(final(self).inner) == *final(old(self).inner),
            r is Some <==> !old(self).inner@.lock.locked,
            r is Some ==> old(self).inner@.value == Some(r->0@) && final(self).inner@
                == old(self).inner@.after_lock(),
            r is None ==> final(self).inner@ == old(self).inner@,
    {
        match self.inner.try_lock() {
            Some(value) => Some(RawMutexGuard { value }),
            None => None,
        }
    }
}

/// Guard returned by `RawMutex::lock()` and `RawMutex::try_lock()`.
///
/// The guard has the protected value while the lock is held; `unlock` gives both up.
pub struct RawMutexGuard<T> {
    value: T,
}

impl<T> View for RawMutexGuard<T> {
    type V = T;

    closed spec fn view(&self) -> T {
        self.value
    }
}

impl<T> std::ops::Deref for RawMutexGuard<T> {
    type Target = T;

    fn deref(&self) -> (r: &T)
        ensures
            *r == self@,
    {
        &self.value
    }
}

impl<T> std::ops::DerefMut for RawMutexGuard<T> {
    fn deref_mut(&mut self) -> (r: &mut T)
        ensures
            *r == old(self)@,
            *final(r) == final(self)@,
    {
        &mut self.value
    }
}

impl<T> RawMutexGuard<T> {
    /// Gives up the lock of `mutex`, which this guard was got from, and the value. Hands out
    /// the waker of the waiter that the lock was granted to.
    pub fn unlock(self, mutex: &mut RawMutex<'_, T>) -> (r: Option<Waker>)
        requires
            old(mutex).inner.wf(),
            old(mutex).inner@.is_held(),
        ensures
            final(mutex).inner.wf(),
            final(mutex).inner@ == old(mutex).inner@.after_unlock(self@),
            old(mutex).inner@.lock.waiters.kept(final(mutex).inner@.lock.waiters, None),
            *final(final(mutex).inner) == *final(old(mutex).inner),
            r == old(mutex).inner@.lock.next(),
    {
        mutex.inner.unlock(self.value)
    }
}

/// Future returned by `RawMutex::lock()`.
///
/// Completes with a `RawMutexGuard` when the lock is acquired.
pub struct RawMutexLockFuture {
    waiter: Waiter,
}

impl View for RawMutexLockFuture {
    type V = Option<usize>;

    closed spec fn view(&self) -> Option<usize> {
        self.waiter@
    }
}

impl RawMutexLockFuture {
    /// Polls the future, on behalf of the task that `waker` wakes.
    pub fn poll<T>(&mut self, mutex: &mut RawMutex<'_, T>, waker: Waker) -> (r: Poll<RawMutexGuard<T>>)
        requires
            old(mutex).inner.wf(),
            old(mutex).inner@.lock.waiters.owns(old(self)@),
        ensures
            final(mutex).inner.wf(),
            final(mutex).inner@.lock.waiters.owns(final(self)@),
            old(mutex).inner@.lock.waiters.kept(final(mutex).inner@.lock.waiters, old(self)@),
            *final(final(mutex).inner) == *final(old(mutex).inner),
            old(mutex).inner@.polled(
                old(self)@,
                waker,
                final(mutex).inner@,
                final(self)@,
                match r {
                    Poll::Ready(guard) => Some(guard@),
                    Poll::Pending => None,
                },
            ),
    {
        match mutex.inner.poll_lock(&mut self.waiter, waker) {
            Some(value) => Poll::Ready(RawMutexGuard { value }),
            None => Poll::Pending,
        }
    }

    /// Drops the future. One that the lock was granted to and that has not taken it up passes
    /// it on to the next waiter, whose waker is handed out, or leaves it unlocked.
    pub fn drop_lock_wait<T>(self, mutex: &mut RawMutex<'_, T>) -> (r: Option<Waker>)
        requires
            old(mutex).inner.wf(),
            old(mutex).inner@.lock.waiters.owns(self@),
        ensures
            final(mutex).inner.wf(),
            final(mutex).inner@ == old(mutex).inner@.after_drop(self@),
            old(mutex).inner@.lock.waiters.kept(final(mutex).inner@.lock.waiters, self@),
            *final(final(mutex).inner) == *final(old(mutex).inner),
            r == old(mutex).inner@.lock.woken_by_drop(self@),
    {
        let mut waiter = self.waiter;
        mutex.inner.drop_lock_wait(&mut waiter)
    }
}

} // verus!

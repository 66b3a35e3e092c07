//! Reference-counted values that stay in place.
use vstd::prelude::*;

use crate::once::ref_count::WithRefCount;

verus! {

/// Combines a value and a reference count. The value is never handed out to be changed or moved.
pub struct PinnedWithRefCount<T> {
    inner: WithRefCount<T>,
}

impl<T> PinnedWithRefCount<T> {
    /// The wrapped value.
    pub closed spec fn value(self) -> T {
        self.inner.value()
    }

    /// The number of references.
    pub closed spec fn count(self) -> usize {
        self.inner.count()
    }

    /// Creates a new reference-counted wrapper with an initial reference count of 0.
    pub fn new(value: T) -> (r: Self)
        ensures
            r.value() == value,
            r.count() == 0,
    {
        PinnedWithRefCount { inner: WithRefCount::new(value) }
    }

    /// Returns a shared reference to the wrapped value.
    pub fn get(&self) -> (r: &T)
        ensures
            *r == self.value(),
    {
        self.inner.get()
    }

    /// Increments the reference count, up to the largest that can be counted.
    pub fn inc_ref(&mut self)
        ensures
            final(self).value() == old(self).value(),
            final(self).count() == if old(self).count() < usize::MAX {
                (old(self).count() + 1) as usize
            } else {
                usize::MAX
            },
    {
        self.inner.inc_ref();
    }

    /// Decrements the reference count, down to 0.
    pub fn dec_ref(&mut self)
        ensures
            final(self).value() == old(self).value(),
            final(self).count() == if old(self).count() > 0 {
                (old(self).count() - 1) as usize
            } else {
                0
            },
    {
        self.inner.dec_ref();
    }

    /// Returns the current reference count.
    pub fn ref_count(&self) -> (r: usize)
        ensures
            r == self.count(),
    {
        self.inner.ref_count()
    }

    /// Returns `true` if the reference count is greater than 0.
    pub fn is_referenced(&self) -> (r: bool)
        ensures
            r == (self.count() > 0),
    {
        self.inner.is_referenced()
    }
}

impl<T: Default> Default for PinnedWithRefCount<T> {
    fn default() -> (r: Self)
        ensures
            call_ensures(T::default, (), r.value()),
            r.count() == 0,
    {
        Self::new(T::default())
    }
}

} // verus!

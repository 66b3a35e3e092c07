//! Values that count their users.
use vstd::prelude::*;

verus! {

/// Combines a value and a reference count.
pub struct WithRefCount<T> {
    value: T,
    ref_count: usize,
}

impl<T> WithRefCount<T> {
    /// The wrapped value.
    pub closed spec fn value(self) -> T {
        self.value
    }

    /// The number of references.
    pub closed spec fn count(self) -> usize {
        self.ref_count
    }

    /// Creates a new reference-counted wrapper with an initial reference count of 0.
    pub fn new(value: T) -> (r: Self)
        ensures
            r.value() == value,
            r.count() == 0,
    {
        WithRefCount { value, ref_count: 0 }
    }

    /// Returns a shared reference to the wrapped value.
    pub fn get(&self) -> (r: &T)
        ensures
            *r == self.value(),
    {
        &self.value
    }

    /// Returns an exclusive reference to the wrapped value.
    pub fn get_mut(&mut self) -> (r: &mut T)
        ensures
            *r == old(self).value(),
            *final(r) == final(self).value(),
            final(self).count() == old(self).count(),
    {
        &mut self.value
    }

    /// Increments the reference count, up to the largest that can be counted.
    pub fn inc_ref(&mut self)
        ensures
            final(self).value() == old(self).value(),
            final(self).count() == if old(self).count() < usize::MAX {
                (old(self).count() + 1) as usize
            } else {
                usize::MAX
            },
    {
        self.ref_count = self.ref_count.saturating_add(1);
    }

    /// Decrements the reference count, down to 0.
    pub fn dec_ref(&mut self)
        ensures
            final(self).value() == old(self).value(),
            final(self).count() == if old(self).count() > 0 {
                (old(self).count() - 1) as usize
            } else {
                0
            },
    {
        self.ref_count = self.ref_count.saturating_sub(1);
    }

    /// Returns the current reference count.
    pub fn ref_count(&self) -> (r: usize)
        ensures
            r == self.count(),
    {
        self.ref_count
    }

    /// Returns `true` if the reference count is greater than 0.
    pub fn is_referenced(&self) -> (r: bool)
        ensures
            r == (self.count() > 0),
    {
        self.ref_count > 0
    }
}

impl<T: Default> Default for WithRefCount<T> {
    fn default() -> (r: Self)
        ensures
            call_ensures(T::default, (), r.value()),
            r.count() == 0,
    {
        Self::new(T::default())
    }
}

/// A value that has two owners, and is done with once both have released it.
pub struct WithTwoOwners<T> {
    value: T,
    both: bool,
}

impl<T> WithTwoOwners<T> {
    /// The wrapped value.
    pub closed spec fn value(self) -> T {
        self.value
    }

    /// Neither owner has released the value.
    pub closed spec fn both(self) -> bool {
        self.both
    }

    /// Creates a value that both owners own.
    pub fn new(value: T) -> (r: Self)
        ensures
            r.value() == value,
            r.both(),
    {
        WithTwoOwners { value, both: true }
    }

    /// Returns a shared reference to the wrapped value.
    pub fn get(&self) -> (r: &T)
        ensures
            *r == self.value(),
    {
        &self.value
    }

    /// Returns an exclusive reference to the wrapped value.
    pub fn get_mut(&mut self) -> (r: &mut T)
        ensures
            *r == old(self).value(),
            *final(r) == final(self).value(),
            final(self).both() == old(self).both(),
    {
        &mut self.value
    }

    /// Releases the value on behalf of one owner. The answer is whether it was the last.
    pub fn release_one(&mut self) -> (r: bool)
        ensures
            final(self).value() == old(self).value(),
            !final(self).both(),
            r == !old(self).both(),
    {
        let last = !self.both;
        self.both = false;
        last
    }
}

} // verus!

use std::sync::Arc;
use vstd::prelude::*;

verus! {

/// A shared, immutable handle: every clone refers to the same value, which is
/// released once, when the last clone is dropped.
#[derive(Debug)]
pub struct Fixed<T> {
    inner: Arc<T>,
}

impl<T> View for Fixed<T> {
    type V = T;

    closed spec fn view(&self) -> T {
        *self.inner
    }
}

impl<T> Fixed<T> {
    /// Moves `value` into a new handle.
    pub fn new(value: T) -> (r: Fixed<T>)
        ensures
            r@ == value,
    {
        Fixed { inner: Arc::new(value) }
    }

    /// The value behind the handle.
    pub fn get(&self) -> (r: &T)
        ensures
            *r == self@,
    {
        &*self.inner
    }
}

impl<T> Clone for Fixed<T> {
    fn clone(&self) -> (r: Fixed<T>)
        ensures
            r@ == self@,
    {
        Fixed { inner: self.inner.clone() }
    }
}

/// An exclusive, mutable handle: one owner at a time, moved by address.
#[derive(Debug)]
pub struct MutFixed<T> {
    inner: Box<T>,
}

impl<T> View for MutFixed<T> {
    type V = T;

    closed spec fn view(&self) -> T {
        *self.inner
    }
}

impl<T> MutFixed<T> {
    /// Moves `value` into a new handle.
    pub fn new(value: T) -> (r: MutFixed<T>)
        ensures
            r@ == value,
    {
        MutFixed { inner: Box::new(value) }
    }

    /// The value behind the handle.
    pub fn get(&self) -> (r: &T)
        ensures
            *r == self@,
    {
        &*self.inner
    }

    /// Moves the value out of the handle.
    pub fn into_inner(self) -> (r: T)
        ensures
            r == self@,
    {
        *self.inner
    }
}

} // verus!

//! Shared ownership across threads, with atomically updated counts.
use std::sync::Arc;
use vstd::prelude::*;

verus! {

/// Relies on `Arc::strong_count`: the number of strong pointers to the
/// allocation, of which `this` is one.
#[verifier::external_body]
fn arc_strong_count<T>(this: &Arc<T>) -> (n: usize)
    ensures
        n >= 1,
{
    Arc::strong_count(this)
}

/// Relies on `Arc::into_inner`: the inner value when `this` was the last strong
/// pointer, `None` otherwise; of all the callers exactly one gets `Some`.
#[verifier::external_body]
fn arc_into_inner<T>(this: Arc<T>) -> (r: Option<T>)
    ensures
        r is Some ==> r == Some(*this),
{
    Arc::into_inner(this)
}

/// An owning handle to a value that several threads may share. Its counts are
/// updated atomically, so handles may be cloned and dropped from any thread.
pub struct ThreadSafeSharedCell<T> {
    inner: Arc<T>,
}

impl<T> ThreadSafeSharedCell<T> {
    /// The shared value.
    pub closed spec fn value(&self) -> T {
        *self.inner
    }

    /// A first owner of `value`.
    pub fn new(value: T) -> (c: ThreadSafeSharedCell<T>)
        ensures
            c.value() == value,
    {
        ThreadSafeSharedCell { inner: Arc::new(value) }
    }

    /// Another owner of the same value.
    pub fn clone_cell(&self) -> (c: ThreadSafeSharedCell<T>)
        ensures
            c.value() == self.value(),
    {
        ThreadSafeSharedCell { inner: Arc::clone(&self.inner) }
    }

    /// Read access to the shared value.
    pub fn get(&self) -> (v: &T)
        ensures
            *v == self.value(),
    {
        &*self.inner
    }
    /// The number of owners at the moment of the call; other threads may
    /// change it at any time, but `self` is one of them.
    pub fn strong_count(&self) -> (n: usize)
        ensures
            n >= 1,
    {
        arc_strong_count(&self.inner)
    }

    /// Gives up this owner. The value comes back, `Some`, to exactly one of the
    /// owners: the last to let go, however the threads race.
    pub fn into_inner(self) -> (r: Option<T>)
        ensures
            r is Some ==> r == Some(self.value()),
    {
        arc_into_inner(self.inner)
    }
}

} // verus!

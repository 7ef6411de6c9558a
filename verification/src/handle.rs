//! A clonable owning handle standing for the foreign runtime's
//! refcounted objects: the value is shared behind a reference count
//! and reached only through safe accessors.

use std::sync::Arc;
use vstd::prelude::*;

verus! {

/// A shared owning handle to a `T`.
#[derive(Clone)]
pub struct Ao2<T> {
    inner: Arc<T>,
}

impl<T> Ao2<T> {
    /// The held value.
    pub closed spec fn value_spec(&self) -> T {
        *self.inner
    }

    /// Allocates a fresh handle owning `value`.
    pub fn new(value: T) -> (r: Self)
        ensures
            r.value_spec() == value,
    {
        Ao2 { inner: Arc::new(value) }
    }

    /// Borrows the held value.
    pub fn get(&self) -> (r: &T)
        ensures
            *r == self.value_spec(),
    {
        &*self.inner
    }
}

} // verus!

use crate::FFISafe;
use std::sync::Arc;
use vstd::prelude::*;

verus! {

/// A shared handle to one value. Each handle counts as one reference; the
/// value is destroyed by whichever handle drops the last reference.
pub struct Arced<T: FFISafe> {
    inner: Arc<T>,
}

impl<T: FFISafe> View for Arced<T> {
    type V = T;

    closed spec fn view(&self) -> T {
        *self.inner
    }
}

impl<T: FFISafe> Arced<T> {
    /// Moves `data` behind a fresh count of one reference.
    pub fn new(data: T) -> (r: Self)
        ensures
            r@ == data,
    {
        Arced { inner: Arc::new(data) }
    }

    /// A second handle to the value of `arc`: retains one more reference.
    pub fn from_raw(arc: &Self) -> (r: Self)
        ensures
            r@ == arc@,
    {
        Arced { inner: Arc::clone(&arc.inner) }
    }

    /// The shared value.
    pub fn deref(&self) -> (r: &T)
        ensures
            *r == self@,
    {
        &self.inner
    }
}

} // verus!

use crate::FFISafe;
use vstd::prelude::*;

verus! {

/// Builds owned cells: one block holding exactly one value.
pub struct RTSafeBoxWrapper;

/// An owned cell: the only handle to one value held in its own block.
pub struct RTBox<T: FFISafe> {
    slot: Box<T>,
}

impl<T: FFISafe> View for RTBox<T> {
    type V = T;

    closed spec fn view(&self) -> T {
        *self.slot
    }
}

impl RTSafeBoxWrapper {
    /// Moves `data` into a fresh cell.
    pub fn new<T: FFISafe>(data: T) -> (r: RTBox<T>)
        ensures
            r@ == data,
    {
        RTBox { slot: Box::new(data) }
    }
}

impl<T: FFISafe> RTBox<T> {
    /// The value held, for as long as the handle lives.
    pub fn deref(&self) -> (r: &T)
        ensures
            *r == self@,
    {
        &self.slot
    }

    /// The value held, to be changed in place.
    pub fn deref_mut(&mut self) -> (r: &mut T)
        ensures
            *r == old(self)@,
            final(self)@ == *final(r),
    {
        &mut *self.slot
    }

    /// Reads the value out and frees the cell.
    pub fn unwrap(self) -> (r: T)
        ensures
            r == self@,
    {
        *self.slot
    }
}

} // verus!

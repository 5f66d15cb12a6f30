//! Owned values behind the C API: a heap cell whose content is deleted
//! through its own `delete` when the owner gives it up.

use vstd::prelude::*;

verus! {

/// A value that releases what it holds when deleted.
pub trait Owned {
    fn delete(&mut self);
}

/// A value on the heap, owned.
#[derive(Debug)]
pub struct Own<T: Owned> {
    inner: Box<T>,
}

impl<T: Owned> Own<T> {
    /// The value held.
    pub closed spec fn value(&self) -> T {
        *self.inner
    }

    /// Moves a value to the heap.
    pub fn new(value: T) -> (r: Own<T>)
        ensures
            r.value() == value,
    {
        Own { inner: Box::new(value) }
    }

    /// Deletes the value held, then gives up the cell.
    pub fn drop_value(own: Own<T>) {
        let mut inner = own.inner;
        inner.delete();
    }

    /// The value held.
    pub fn as_ref(&self) -> (r: &T)
        ensures
            *r == self.value(),
    {
        &self.inner
    }
}

} // verus!

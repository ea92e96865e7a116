//! A handle to a value that lives for the whole program.

use vstd::prelude::*;

verus! {

/// A handle to a `static` value.
#[derive(Debug)]
pub struct StaticPtr<T: 'static>(&'static T);

impl<T> StaticPtr<T> {
    /// The value it points to.
    pub closed spec fn target(&self) -> T {
        *self.0
    }

    /// The handle to `item`.
    pub fn new(item: &'static T) -> (p: Self)
        ensures
            p.target() == *item,
    {
        StaticPtr(item)
    }

    /// The value.
    pub fn get(&self) -> (r: &'static T)
        ensures
            *r == self.target(),
    {
        self.0
    }
}

impl<T> Clone for StaticPtr<T> {
    fn clone(&self) -> (p: Self)
        ensures
            p.target() == self.target(),
    {
        StaticPtr(self.0)
    }
}

impl<T> Copy for StaticPtr<T> {}

} // verus!

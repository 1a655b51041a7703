//! A value tagged, at the type level only, with the strategy that applies
//! to it. The tag lets two otherwise overlapping blanket implementations be
//! told apart.

use core::marker::PhantomData;
use vstd::prelude::*;

verus! {

/// Holds a `T` and remembers the strategy `S` in its type.
pub struct Holder<T, S>(T, PhantomData<S>);

impl<T, S> Holder<T, S> {
    /// The value that is held.
    pub closed spec fn inner(&self) -> T {
        self.0
    }

    /// Wraps `val`.
    pub fn new(val: T) -> (holder: Self)
        ensures
            holder.inner() == val,
    {
        Holder(val, PhantomData)
    }

    /// Gives the held value back.
    pub fn into_inner(self) -> (val: T)
        ensures
            val == self.inner(),
    {
        self.0
    }

    /// Borrows the held value.
    pub fn as_inner(&self) -> (val: &T)
        ensures
            *val == self.inner(),
    {
        &self.0
    }
}

} // verus!

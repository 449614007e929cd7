//! A size bound on the values a function accepts.
use vstd::prelude::*;
use vstd::layout::size_of;

verus! {

/// A marker that carries a boolean known when the program is built. Its field
/// is private and nothing in the library builds one: it is used as a type.
pub struct Assert<const CHECK: bool> {
    marker: (),
}

/// Implemented by the markers whose boolean is true.
pub trait IsTrue {}

impl IsTrue for Assert<true> {}

/// Accepts any value whose type is smaller than 768 bytes.
pub fn something<T>(val: T)
    requires
        size_of::<T>() < 768,
{
}

} // verus!

//! Small functions to patch: each is kept out of line so that it has a body of its own.
use vstd::prelude::*;

verus! {

/// The smallest function there is: its whole body is one `ret`.
#[inline(never)]
pub fn tiny() {
}

#[inline(never)]
pub fn the_ultimate_question() -> (r: u32)
    ensures
        r == 42,
{
    42
}

#[inline(never)]
pub fn other_question() -> (r: u32)
    ensures
        r == 23,
{
    23
}

/// A generic function: each instance is a function of its own.
#[inline(never)]
pub fn default<T: Default>() -> (r: T)
    ensures
        call_ensures(T::default, (), r),
{
    T::default()
}

} // verus!

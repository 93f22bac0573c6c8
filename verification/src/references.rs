//! References and borrowing: a value, a shared reference to it and a
//! mutable one, each handed through a function.

use vstd::prelude::*;

verus! {

/// Takes a string and gives it back.
pub fn this_is_t(t: String) -> (out: String)
    ensures
        out == t,
{
    t
}

/// Takes a shared reference and gives it back.
pub fn this_is_ref(r: &String) -> (out: &String)
    ensures
        out == r,
{
    r
}

/// Takes a mutable reference and gives it back: what is written through the
/// result is written to the string that `r` refers to.
pub fn this_is_mut_ref(r: &mut String) -> (out: &mut String)
    ensures
        *out == *old(r),
        *final(r) == *final(out),
{
    r
}

} // verus!

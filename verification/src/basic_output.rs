//! Writing to the screen, which takes a lock on standard output.

use vstd::prelude::*;

verus! {

/// The text that the lesson writes through the locked handle.
pub fn stdout_lock() -> (out: String)
    ensures
        out@ == "hey, stdout!"@,
{
    "hey, stdout!".to_string()
}

} // verus!

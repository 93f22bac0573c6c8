//! Bindings that can be assigned to, and names that are used again.

use vstd::prelude::*;

verus! {

/// A name bound to 1, bound again so that it can become 2, and bound once
/// more to a string that grows. Returns the string.
pub fn quiz() -> (x: String)
    ensures
        x@ == "hello, world!"@,
{
    let x: i32 = 1;
    assert(x == 1);

    let mut x = x;
    x = 2;
    assert(x == 2);

    let mut x = "hello".to_string();
    x.push_str(", world!");
    proof {
        reveal_strlit("hello");
        reveal_strlit(", world!");
        reveal_strlit("hello, world!");
    }
    assert(x@ =~= "hello, world!"@);
    x
}

} // verus!

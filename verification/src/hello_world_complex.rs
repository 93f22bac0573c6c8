//! A greeting that takes up what was typed.

use vstd::prelude::*;

verus! {

/// The message for what was read into `buffer`, which is taken as it is,
/// line feed included.
pub open spec fn message(buffer: Seq<char>) -> Seq<char> {
    "Hello, world! Welcome to LCPU RLG, "@ + buffer + "!"@
}

/// Returns the message to write for what was read into `buffer`.
pub fn greeting(buffer: &str) -> (s: String)
    ensures
        s@ == message(buffer@),
{
    let mut s = "Hello, world! Welcome to LCPU RLG, ".to_string();
    s.push_str(buffer);
    s.push_str("!");
    s
}

} // verus!

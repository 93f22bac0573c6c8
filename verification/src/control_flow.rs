//! Control flow with `if`, `else if` and `else`.

use vstd::prelude::*;

verus! {

/// The word for how `x` compares with 5.
pub open spec fn compared_with_five(x: int) -> Seq<char> {
    if x < 5 {
        "Less"@
    } else if x > 5 {
        "Greater"@
    } else {
        "Equal"@
    }
}

/// Compares `x` with 5 and returns the line that says how: `Less`, `Equal`
/// or `Greater`.
pub fn cf_if(x: i32) -> (out: String)
    ensures
        out@ == compared_with_five(x as int).push('\n'),
{
    let word = if x < 5 {
        "Less"
    } else if x > 5 {
        "Greater"
    } else {
        "Equal"
    };
    let mut out = word.to_string();
    out.push('\n');
    out
}

} // verus!

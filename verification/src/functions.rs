//! Functions: parameters with their types, and the type of the result.

use crate::decimal::{signed_decimal, write_integer};
use vstd::prelude::*;

verus! {

/// The line that `foo` writes for `x` and `y`.
pub open spec fn foo_line(x: int, y: int) -> Seq<char> {
    ("x: "@ + signed_decimal(x) + ", y: "@ + signed_decimal(y)).push('\n')
}

/// Writes a line that shows `x` and `y`, and returns `hello`: the result,
/// and after it the text written.
pub fn foo(x: i32, y: i32) -> (r: (&'static str, String))
    ensures
        r.0@ == "hello"@,
        r.1@ == foo_line(x as int, y as int),
{
    let mut out = "x: ".to_string();
    write_integer(&mut out, x as i64);
    out.push_str(", y: ");
    write_integer(&mut out, y as i64);
    out.push('\n');
    ("hello", out)
}

/// Calls `foo` on 1 and 2, which returns `hello`. Returns the line that the
/// call writes.
pub fn quiz() -> (out: String)
    ensures
        out@ == "x: 1, y: 2\n"@,
{
    let (word, out) = foo(1, 2);
    assert(word@ == "hello"@);
    proof {
        reveal_strlit("x: ");
        reveal_strlit(", y: ");
        reveal_strlit("x: 1, y: 2\n");
        assert(signed_decimal(1) =~= seq!['1']);
        assert(signed_decimal(2) =~= seq!['2']);
    }
    assert(out@ =~= "x: 1, y: 2\n"@);
    out
}

} // verus!

//! Reading a line from the keyboard, which takes a lock on standard input.
//!
//! The lesson asks for a line, reads it and writes it back. Reading is left
//! to the caller: this module says what is written before and after it.

use crate::text::write_line;
use vstd::prelude::*;

verus! {

/// What the lesson writes before it reads.
pub fn prompt() -> (out: &'static str)
    ensures
        out@ == "Feed in here: "@,
{
    "Feed in here: "
}

/// What the lesson writes after it has read `buffer`: the same text, as a
/// line.
pub fn stdin_lock(buffer: &str) -> (out: String)
    ensures
        out@ == buffer@.push('\n'),
{
    let mut out = String::new();
    write_line(&mut out, buffer);
    assert(out@ =~= buffer@.push('\n'));
    out
}

} // verus!

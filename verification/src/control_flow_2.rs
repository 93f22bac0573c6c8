//! Control flow with `match`.

use crate::text::{lemma_trimmed_twice, same_text, trim, trimmed, write_line};
use vstd::prelude::*;

verus! {

/// The answer to a command, white space around it left aside: `LCPU-RLG`
/// to `whoami`, `EXIT` to `exit`, and any other text itself.
pub open spec fn answer(buffer: Seq<char>) -> Seq<char> {
    let command = trimmed(buffer);
    if command == "whoami"@ {
        "LCPU-RLG"@
    } else if command == "exit"@ {
        "EXIT"@
    } else {
        command
    }
}

/// White space around a command does not change the answer.
pub proof fn lemma_answer_trims(buffer: Seq<char>)
    ensures
        answer(trimmed(buffer)) == answer(buffer),
{
    lemma_trimmed_twice(buffer);
}

/// Returns the line that answers the command read into `buffer`.
pub fn cf_match(buffer: &str) -> (out: String)
    ensures
        out@ == answer(buffer@).push('\n'),
{
    let command = trim(buffer);
    let reply = if same_text(command, "whoami") {
        "LCPU-RLG"
    } else if same_text(command, "exit") {
        "EXIT"
    } else {
        command
    };
    let mut out = String::new();
    write_line(&mut out, reply);
    assert(out@ =~= answer(buffer@).push('\n'));
    out
}

} // verus!

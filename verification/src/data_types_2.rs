//! Characters and strings, and a `yes` that leaves the letter `y` out.

use crate::decimal::i32_of;
use crate::text::{lemma_trimmed_twice, trim, trimmed};
use vstd::prelude::*;

verus! {

/// `s` without the letter `y`.
pub open spec fn without_y(s: Seq<char>) -> Seq<char> {
    s.filter(|c: char| c != 'y')
}

/// `s` written `n` times over.
pub open spec fn repeated(s: Seq<char>, n: nat) -> Seq<char>
    decreases n,
{
    if n == 0 {
        Seq::empty()
    } else {
        repeated(s, (n - 1) as nat) + s
    }
}

/// The line of the answer for a text `s` and a count `x`: `s` without the
/// white space around it and without the letter `y`, written `x` times
/// over, and not at all where `x` is negative.
pub open spec fn answer(s: Seq<char>, x: int) -> Seq<char> {
    repeated(without_y(trimmed(s)), if x > 0 { x as nat } else { 0 }).push('\n')
}

/// White space around the text does not change the answer.
pub proof fn lemma_answer_trims(s: Seq<char>, x: int)
    ensures
        answer(trimmed(s), x) == answer(s, x),
{
    lemma_trimmed_twice(s);
}

/// No letter `y` is left, and every other character is, in its place.
pub proof fn lemma_without_y(s: Seq<char>)
    ensures
        !without_y(s).contains('y'),
        forall|c: char| c != 'y' && s.contains(c) ==> without_y(s).contains(c),
        without_y(s).len() <= s.len(),
        !s.contains('y') ==> without_y(s) == s,
{
    broadcast use vstd::seq_lib::group_filter_ensures;

    if !s.contains('y') {
        lemma_keeps_all(s);
    }
}

/// A text without the letter `y` is left as it is.
proof fn lemma_keeps_all(s: Seq<char>)
    requires
        !s.contains('y'),
    ensures
        without_y(s) == s,
    decreases s.len(),
{
    reveal(Seq::filter);
    if s.len() > 0 {
        assert(s.drop_last().push(s.last()) == s);
        assert forall|i: int| 0 <= i < s.drop_last().len() implies s.drop_last()[i] != 'y' by {
            assert(s.contains(s[i]));
        }
        assert(!s.drop_last().contains('y'));
        lemma_keeps_all(s.drop_last());
        assert(s.contains(s.last()));
    }
}

/// A text written `n` times over is `n` times as long.
pub proof fn lemma_repeated_len(s: Seq<char>, n: nat)
    ensures
        repeated(s, n).len() == n * s.len(),
    decreases n,
{
    let len = s.len() as int;
    if n > 0 {
        lemma_repeated_len(s, (n - 1) as nat);
        assert(n * len == (n - 1) * len + len) by (nonlinear_arith);
    } else {
        assert(0 * len == 0) by (nonlinear_arith);
    }
}

/// Returns the line that answers the quiz for the text `s` and the count `x`.
pub fn quiz(s: &str, x: i32) -> (result: String)
    ensures
        result@ == answer(s@, x as int),
{
    let mut result = String::new();

    let word = trim(s);
    let mut kept = String::new();
    for c in it: word.chars()
        invariant
            it.seq() == word@,
            kept@ == without_y(word@.take(it.index() as int)),
    {
        proof {
            word@.take(it.index() as int).lemma_filter_push(c, |c: char| c != 'y');
            word@.lemma_take_succ_push(it.index() as int);
        }
        if c != 'y' {
            kept.push(c);
        }
    }
    assert(word@.take(word@.len() as int) == word@);

    let mut i: i32 = 0;
    while i < x
        invariant
            0 <= i,
            i <= x || i == 0,
            result@ == repeated(kept@, i as nat),
        decreases x - i,
    {
        result.push_str(kept.as_str());
        i = i + 1;
    }
    result.push('\n');
    result
}

/// The `i32` that `s` writes, white space around it left aside. `s` must
/// write one.
pub fn parse_i32(s: &str) -> (x: i32)
    requires
        i32_of(trimmed(s@)) is Some,
    ensures
        Some(x) == i32_of(trimmed(s@)),
{
    crate::decimal::parse_i32(trim(s)).unwrap()
}

} // verus!

//! Numbers and booleans: fixed-size integers and casts between them.

use crate::decimal::{decimal, i32_of, parse_i32, signed_decimal, write_integer, write_natural};
use crate::text::{trim, trimmed};
use vstd::prelude::*;

verus! {

/// The lowest eight bits of `x`, read as an unsigned number.
pub open spec fn low_byte(x: int) -> nat {
    (x % 256) as nat
}

/// The three lines of the answer for an integer `x` and a number whose
/// integer part is `whole`: the lowest eight bits of `x` as an unsigned
/// number, `whole`, and the sum of the two.
pub open spec fn answer(x: int, whole: int) -> Seq<char> {
    ((decimal(low_byte(x)).push('\n') + signed_decimal(whole)).push('\n') + signed_decimal(
        low_byte(x) + whole,
    )).push('\n')
}

/// The lowest eight bits are a number below 256, which is the number itself
/// where that is from 0 to 255, and the same for numbers 256 apart.
pub proof fn lemma_low_byte(x: int)
    ensures
        low_byte(x) < 256,
        0 <= x < 256 ==> low_byte(x) == x,
        low_byte(x + 256) == low_byte(x),
{
}

/// The lowest eight bits of `x` as an unsigned number: what the cast to
/// `u8` keeps.
pub fn lowest_bits(x: i32) -> (low: u8)
    ensures
        low == low_byte(x as int),
{
    let low: u8 = #[verifier::truncate] (x as u8);
    assert((x as u8) as int == (x as int) % 256) by (bit_vector);
    low
}

/// Returns the three lines that answer the quiz for the integer `x` and a
/// number whose integer part is `whole`.
pub fn quiz(x: i32, whole: i32) -> (out: String)
    ensures
        out@ == answer(x as int, whole as int),
{
    let low = lowest_bits(x);
    let sum: i64 = low as i64 + whole as i64;
    let mut out = String::new();
    write_natural(&mut out, low as u64);
    out.push('\n');
    write_integer(&mut out, whole as i64);
    out.push('\n');
    write_integer(&mut out, sum);
    out.push('\n');
    assert(out@ =~= answer(x as int, whole as int));
    out
}

/// The `i32` written on the line that was read into `buffer`, white space
/// around it left aside. The line must hold one.
pub fn read_i32(buffer: &str) -> (x: i32)
    requires
        i32_of(trimmed(buffer@)) is Some,
    ensures
        Some(x) == i32_of(trimmed(buffer@)),
{
    parse_i32(trim(buffer)).unwrap()
}

} // verus!

//! Whole numbers written in decimal: reading them from text and writing them.

use vstd::prelude::*;
use vstd::string::StrSliceExecFns;

verus! {

/// Whether `c` is one of the ten decimal digits.
pub open spec fn is_digit(c: char) -> bool {
    '0' <= c <= '9'
}

/// The number a decimal digit stands for.
pub open spec fn digit_of(c: char) -> nat {
    if is_digit(c) {
        (c as u32 - '0' as u32) as nat
    } else {
        0
    }
}

/// The digit that stands for `d`, for `d` below ten.
pub open spec fn digit_char(d: nat) -> char {
    ('0' as u32 + d) as char
}

/// Whether `s` holds decimal digits only.
pub open spec fn all_digits(s: Seq<char>) -> bool {
    forall|i: int| 0 <= i < s.len() ==> is_digit(#[trigger] s[i])
}

/// The number that the digits of `s` write, the most significant first.
pub open spec fn digits_value(s: Seq<char>) -> nat
    decreases s.len(),
{
    if s.len() == 0 {
        0
    } else {
        digits_value(s.drop_last()) * 10 + digit_of(s.last())
    }
}

/// The natural number that `s` writes: one or more digits, nothing else.
pub open spec fn natural_of(s: Seq<char>) -> Option<nat> {
    if s.len() > 0 && all_digits(s) {
        Some(digits_value(s))
    } else {
        None
    }
}

/// The integer that `s` writes: digits, with at most one sign before them.
pub open spec fn integer_of(s: Seq<char>) -> Option<int> {
    if s.len() > 0 && s[0] == '-' {
        match natural_of(s.drop_first()) {
            Some(n) => Some(-(n as int)),
            None => None,
        }
    } else if s.len() > 0 && s[0] == '+' {
        match natural_of(s.drop_first()) {
            Some(n) => Some(n as int),
            None => None,
        }
    } else {
        match natural_of(s) {
            Some(n) => Some(n as int),
            None => None,
        }
    }
}

/// The `i32` that `s` writes, if it writes an integer and that fits.
pub open spec fn i32_of(s: Seq<char>) -> Option<i32> {
    match integer_of(s) {
        Some(v) => if i32::MIN <= v <= i32::MAX {
            Some(v as i32)
        } else {
            None
        },
        None => None,
    }
}

/// `n` in decimal, without leading zeros.
pub open spec fn decimal(n: nat) -> Seq<char>
    decreases n,
{
    if n < 10 {
        seq![digit_char(n)]
    } else {
        decimal(n / 10).push(digit_char(n % 10))
    }
}

/// `v` in decimal, with a minus sign before it where it is negative.
pub open spec fn signed_decimal(v: int) -> Seq<char> {
    if v < 0 {
        seq!['-'] + decimal((-v) as nat)
    } else {
        decimal(v as nat)
    }
}

/// A digit character stands for the number it was made from.
pub proof fn lemma_digit_char(d: nat)
    requires
        d < 10,
    ensures
        is_digit(digit_char(d)),
        digit_of(digit_char(d)) == d,
{
}

/// The digits read so far never write more than all of them.
pub proof fn lemma_digits_value_grows(s: Seq<char>, i: int)
    requires
        0 <= i <= s.len(),
    ensures
        digits_value(s.take(i)) <= digits_value(s),
    decreases s.len() - i,
{
    if i == s.len() {
        assert(s.take(i) == s);
    } else {
        lemma_digits_value_grows(s.drop_last(), i);
        assert(s.drop_last().take(i) == s.take(i));
    }
}

/// Reading what was written gives the number back.
pub proof fn lemma_decimal_reads_back(n: nat)
    ensures
        natural_of(decimal(n)) == Some(n),
    decreases n,
{
    let s = decimal(n);
    if n < 10 {
        lemma_digit_char(n);
        assert(s.drop_last().len() == 0);
        assert(digits_value(s.drop_last()) == 0);
    } else {
        lemma_decimal_reads_back(n / 10);
        lemma_digit_char(n % 10);
        let head = decimal(n / 10);
        assert(s.drop_last() == head);
        assert forall|i: int| 0 <= i < s.len() implies is_digit(#[trigger] s[i]) by {
            if i < head.len() {
                assert(s[i] == head[i]);
            }
        }
    }
}

/// A number of more than one digit does not start with a zero.
pub proof fn lemma_decimal_no_leading_zero(n: nat)
    ensures
        decimal(n).len() >= 1,
        n >= 10 <==> decimal(n).len() > 1,
        n > 0 ==> decimal(n)[0] != '0',
    decreases n,
{
    if n >= 10 {
        lemma_decimal_no_leading_zero(n / 10);
    }
}

/// Reading a signed number that was written gives it back.
pub proof fn lemma_signed_decimal_reads_back(v: int)
    ensures
        integer_of(signed_decimal(v)) == Some(v),
        i32::MIN <= v <= i32::MAX ==> i32_of(signed_decimal(v)) == Some(v as i32),
{
    let s = signed_decimal(v);
    if v < 0 {
        let n = (-v) as nat;
        lemma_decimal_reads_back(n);
        assert(s.drop_first() == decimal(n));
    } else {
        let n = v as nat;
        lemma_decimal_reads_back(n);
        lemma_digit_char(n % 10);
        assert(is_digit(s[0])) by {
            assert(all_digits(s));
        }
    }
}

/// Reads a natural number of at most `limit`.
///
/// `Some` exactly when `s` is one or more decimal digits that write a number
/// no greater than `limit`.
pub fn parse_natural(s: &str, limit: u64) -> (r: Option<u64>)
    ensures
        r == match natural_of(s@) {
            Some(n) => if n <= limit {
                Some(n as u64)
            } else {
                None
            },
            None => None,
        },
{
    let mut acc: u64 = 0;
    let mut seen = false;
    for c in it: s.chars()
        invariant
            it.seq() == s@,
            all_digits(s@.take(it.index() as int)),
            acc == digits_value(s@.take(it.index() as int)),
            acc <= limit,
            seen == (it.index() > 0),
    {
        let ghost i = it.index() as int;
        proof {
            s@.lemma_take_succ_push(i);
            assert(s@.take(i + 1).drop_last() == s@.take(i));
        }
        if !('0' <= c && c <= '9') {
            assert(!all_digits(s@)) by {
                assert(s@[i] == c);
            }
            return None;
        }
        proof {
            assert forall|k: int| 0 <= k < s@.take(i + 1).len() implies is_digit(
                #[trigger] s@.take(i + 1)[k],
            ) by {
                if k < i {
                    assert(s@.take(i)[k] == s@[k]);
                }
            }
            lemma_digits_value_grows(s@, i + 1);
        }
        let d: u64 = (c as u32 - '0' as u32) as u64;
        let next = match acc.checked_mul(10) {
            Some(m) => m.checked_add(d),
            None => None,
        };
        match next {
            Some(v) => {
                if v > limit {
                    return None;
                }
                acc = v;
            },
            None => {
                return None;
            },
        }
        seen = true;
    }
    assert(s@.take(s@.len() as int) == s@);
    if seen {
        Some(acc)
    } else {
        None
    }
}

/// Reads an `i32`: decimal digits, with at most one `+` or `-` before them.
///
/// `Some` exactly when `s` is written so and the number fits in an `i32`.
pub fn parse_i32(s: &str) -> (r: Option<i32>)
    ensures
        r == i32_of(s@),
{
    let n = s.unicode_len();
    if n == 0 {
        return None;
    }
    let first = s.get_char(0);
    if first == '-' {
        let rest = s.substring_char(1, n);
        assert(rest@ == s@.drop_first());
        match parse_natural(rest, 2147483648) {
            Some(m) => {
                if m == 2147483648 {
                    Some(i32::MIN)
                } else {
                    Some(-(m as i32))
                }
            },
            None => None,
        }
    } else if first == '+' {
        let rest = s.substring_char(1, n);
        assert(rest@ == s@.drop_first());
        match parse_natural(rest, 2147483647) {
            Some(m) => Some(m as i32),
            None => None,
        }
    } else {
        match parse_natural(s, 2147483647) {
            Some(m) => Some(m as i32),
            None => None,
        }
    }
}

/// The digit that stands for `d`.
fn digit(d: u8) -> (c: char)
    requires
        d < 10,
    ensures
        c == digit_char(d as nat),
{
    (48u8 + d) as char
}

/// Appends `n` in decimal to `out`.
pub fn write_natural(out: &mut String, n: u64)
    ensures
        final(out)@ == old(out)@ + decimal(n as nat),
    decreases n,
{
    if n >= 10 {
        write_natural(out, n / 10);
    }
    out.push(digit((n % 10) as u8));
}

/// Appends `v` in decimal to `out`, with a minus sign where it is negative.
pub fn write_integer(out: &mut String, v: i64)
    ensures
        final(out)@ == old(out)@ + signed_decimal(v as int),
{
    if v < 0 {
        out.push('-');
        let magnitude: u64 = (-(v + 1)) as u64 + 1;
        write_natural(out, magnitude);
    } else {
        write_natural(out, v as u64);
    }
}

} // verus!

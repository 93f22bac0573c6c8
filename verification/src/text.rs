//! Text handling shared by the lessons: white space, trimming, comparing
//! and appending.

use vstd::prelude::*;
use vstd::std_specs::iter::IteratorSpec;
use vstd::string::StrSliceExecFns;

verus! {

/// Appends `ch` to `s`.
///
/// Trusted: `String::push` of the standard library, which is documented to
/// append the given character to the end of the string.
pub assume_specification[ String::push ](s: &mut String, ch: char)
    ensures
        final(s)@ == old(s)@.push(ch),
;

/// Appends `string` to `s`.
///
/// Trusted: `String::push_str` of the standard library, which is documented
/// to append the given string slice onto the end of the string.
pub assume_specification[ String::push_str ](s: &mut String, string: &str)
    ensures
        final(s)@ == old(s)@ + string@,
;

/// Whether `c` has the Unicode property `White_Space`.
pub open spec fn is_space(c: char) -> bool {
    let u = c as u32;
    ||| 0x09 <= u <= 0x0D
    ||| u == 0x20
    ||| u == 0x85
    ||| u == 0xA0
    ||| u == 0x1680
    ||| 0x2000 <= u <= 0x200A
    ||| u == 0x2028
    ||| u == 0x2029
    ||| u == 0x202F
    ||| u == 0x205F
    ||| u == 0x3000
}

/// `s` without the white space it starts with.
pub open spec fn skip_leading(s: Seq<char>) -> Seq<char>
    decreases s.len(),
{
    if s.len() > 0 && is_space(s[0]) {
        skip_leading(s.drop_first())
    } else {
        s
    }
}

/// `s` without the white space it ends with.
pub open spec fn skip_trailing(s: Seq<char>) -> Seq<char>
    decreases s.len(),
{
    if s.len() > 0 && is_space(s.last()) {
        skip_trailing(s.drop_last())
    } else {
        s
    }
}

/// `s` without the white space at either end.
pub open spec fn trimmed(s: Seq<char>) -> Seq<char> {
    skip_trailing(skip_leading(s))
}

/// Whether every character of `s` is white space.
pub open spec fn all_space(s: Seq<char>) -> bool {
    forall|i: int| 0 <= i < s.len() ==> is_space(#[trigger] s[i])
}

/// Skipping leading white space leaves what follows the first `a`
/// characters, where those are white space and the next one is not.
pub proof fn lemma_skip_leading(s: Seq<char>, a: int)
    requires
        0 <= a <= s.len(),
        all_space(s.take(a)),
        a < s.len() ==> !is_space(s[a]),
    ensures
        skip_leading(s) == s.skip(a),
    decreases a,
{
    if a == 0 {
        assert(s.skip(0) == s);
    } else {
        assert(s.take(a)[0] == s[0]);
        let t = s.drop_first();
        assert forall|i: int| 0 <= i < t.take(a - 1).len() implies is_space(
            #[trigger] t.take(a - 1)[i],
        ) by {
            assert(t.take(a - 1)[i] == s.take(a)[i + 1]);
        }
        lemma_skip_leading(t, a - 1);
        assert(t.skip(a - 1) == s.skip(a));
    }
}

/// Skipping trailing white space leaves the first `b` characters, where
/// all after them are white space and the last of them is not.
pub proof fn lemma_skip_trailing(s: Seq<char>, b: int)
    requires
        0 <= b <= s.len(),
        all_space(s.skip(b)),
        0 < b ==> !is_space(s[b - 1]),
    ensures
        skip_trailing(s) == s.take(b),
    decreases s.len() - b,
{
    if b == s.len() {
        assert(s.take(b) == s);
    } else {
        assert(s.skip(b)[s.len() - b - 1] == s.last());
        let t = s.drop_last();
        assert forall|i: int| 0 <= i < t.skip(b).len() implies is_space(#[trigger] t.skip(b)[i]) by {
            assert(t.skip(b)[i] == s.skip(b)[i]);
        }
        lemma_skip_trailing(t, b);
        assert(t.take(b) == s.take(b));
    }
}

/// Skipping leading white space leaves the end of the text, which does not
/// start with white space, and takes away white space only.
pub proof fn lemma_skip_leading_rest(s: Seq<char>)
    ensures
        skip_leading(s).len() <= s.len(),
        skip_leading(s) == s.skip(s.len() - skip_leading(s).len()),
        all_space(s.take(s.len() - skip_leading(s).len())),
        skip_leading(s).len() > 0 ==> !is_space(skip_leading(s)[0]),
    decreases s.len(),
{
    if s.len() > 0 && is_space(s[0]) {
        let t = s.drop_first();
        lemma_skip_leading_rest(t);
        let a = t.len() - skip_leading(t).len();
        assert(t.skip(a) == s.skip(a + 1));
        assert forall|i: int| 0 <= i < s.take(a + 1).len() implies is_space(
            #[trigger] s.take(a + 1)[i],
        ) by {
            if i > 0 {
                assert(s.take(a + 1)[i] == t.take(a)[i - 1]);
            }
        }
    } else {
        assert(s.skip(0) == s);
    }
}

/// Skipping trailing white space leaves the start of the text, which does
/// not end with white space, and takes away white space only.
pub proof fn lemma_skip_trailing_rest(s: Seq<char>)
    ensures
        skip_trailing(s).len() <= s.len(),
        skip_trailing(s) == s.take(skip_trailing(s).len() as int),
        all_space(s.skip(skip_trailing(s).len() as int)),
        skip_trailing(s).len() > 0 ==> !is_space(skip_trailing(s).last()),
        s.len() > 0 && !is_space(s[0]) ==> skip_trailing(s).len() > 0,
    decreases s.len(),
{
    if s.len() > 0 && is_space(s.last()) {
        let t = s.drop_last();
        lemma_skip_trailing_rest(t);
        let b = skip_trailing(t).len() as int;
        assert(t.take(b) == s.take(b));
        assert forall|i: int| 0 <= i < s.skip(b).len() implies is_space(#[trigger] s.skip(b)[i]) by {
            if i < t.skip(b).len() {
                assert(s.skip(b)[i] == t.skip(b)[i]);
            }
        }
    } else {
        assert(s.take(s.len() as int) == s);
    }
}

/// What is left after trimming neither starts nor ends with white space.
pub proof fn lemma_trimmed_ends(s: Seq<char>)
    ensures
        trimmed(s).len() > 0 ==> !is_space(trimmed(s)[0]) && !is_space(trimmed(s).last()),
{
    lemma_skip_leading_rest(s);
    lemma_skip_trailing_rest(skip_leading(s));
}

/// Trimming what was trimmed changes nothing.
pub proof fn lemma_trimmed_twice(s: Seq<char>)
    ensures
        trimmed(trimmed(s)) == trimmed(s),
{
    lemma_trimmed_ends(s);
}

/// A text trims to nothing exactly when it holds white space only.
pub proof fn lemma_trimmed_blank(s: Seq<char>)
    ensures
        trimmed(s).len() == 0 <==> all_space(s),
{
    lemma_skip_leading_rest(s);
    lemma_skip_trailing_rest(skip_leading(s));
    if all_space(s) {
        if skip_leading(s).len() > 0 {
            assert(skip_leading(s)[0] == s[s.len() - skip_leading(s).len()]);
        }
    }
    if trimmed(s).len() == 0 {
        assert(s.take(s.len() as int) == s);
    }
}

/// What is left after trimming is a part of the text, with white space only
/// before and after it.
pub proof fn lemma_trimmed_part(s: Seq<char>) -> (ends: (int, int))
    ensures
        0 <= ends.0 <= ends.1 <= s.len(),
        trimmed(s) == s.subrange(ends.0, ends.1),
        all_space(s.take(ends.0)),
        all_space(s.skip(ends.1)),
{
    lemma_skip_leading_rest(s);
    let t = skip_leading(s);
    lemma_skip_trailing_rest(t);
    let a = s.len() - t.len();
    let b = a + trimmed(s).len();
    assert(t.take(b - a) == s.subrange(a, b));
    assert(t.skip(b - a) == s.skip(b));
    (a, b)
}

/// Whether `c` is white space.
pub fn is_whitespace(c: char) -> (r: bool)
    ensures
        r == is_space(c),
{
    let u: u32 = c as u32;
    (0x09 <= u && u <= 0x0D) || u == 0x20 || u == 0x85 || u == 0xA0 || u == 0x1680 || (0x2000 <= u
        && u <= 0x200A) || u == 0x2028 || u == 0x2029 || u == 0x202F || u == 0x205F || u == 0x3000
}

/// The part of `s` between its leading and its trailing white space.
pub fn trim(s: &str) -> (out: &str)
    ensures
        out@ == trimmed(s@),
{
    let n = s.unicode_len();
    let mut i: usize = 0;
    let mut from: usize = 0;
    let mut to: usize = 0;
    let mut blank = true;
    for c in it: s.chars()
        invariant
            it.seq() == s@,
            n == s@.len(),
            i == it.index(),
            i <= n,
            blank ==> all_space(s@.take(i as int)) && from == 0 && to == 0,
            !blank ==> from < to <= i && all_space(s@.take(from as int)) && !is_space(
                s@[from as int],
            ) && !is_space(s@[to - 1]) && all_space(s@.subrange(to as int, i as int)),
    {
        if !is_whitespace(c) {
            if blank {
                from = i;
                blank = false;
            }
            to = i + 1;
            assert(s@.subrange(to as int, i + 1).len() == 0);
        } else {
            assert forall|k: int| 0 <= k < s@.take(i + 1).len() && blank implies is_space(
                #[trigger] s@.take(i + 1)[k],
            ) by {
                if k < i {
                    assert(s@.take(i as int)[k] == s@[k]);
                }
            }
            assert forall|k: int| 0 <= k < s@.subrange(to as int, i + 1).len()
                && !blank implies is_space(#[trigger] s@.subrange(to as int, i + 1)[k]) by {
                if to + k < i {
                    assert(s@.subrange(to as int, i as int)[k] == s@[to + k]);
                }
            }
        }
        i += 1;
    }
    proof {
        assert(s@.take(n as int) == s@);
        if blank {
            lemma_skip_leading(s@, n as int);
            assert(s@.skip(n as int).len() == 0);
            assert(skip_trailing(s@.skip(n as int)) == s@.skip(n as int));
            assert(s@.subrange(0, 0) == s@.skip(n as int));
        } else {
            lemma_skip_leading(s@, from as int);
            let t = s@.skip(from as int);
            assert(t.skip(to - from) == s@.subrange(to as int, n as int));
            assert(t[to - from - 1] == s@[to - 1]);
            lemma_skip_trailing(t, to - from);
            assert(t.take(to - from) == s@.subrange(from as int, to as int));
        }
    }
    s.substring_char(from, to)
}

/// Whether `a` and `b` hold the same characters.
pub fn same_text(a: &str, b: &str) -> (r: bool)
    ensures
        r == (a@ == b@),
{
    let mut other = b.chars();
    for c in it: a.chars()
        invariant
            it.seq() == a@,
            other.obeys_prophetic_iter_laws(),
            other.remaining() == b@.skip(it.index() as int),
            it.index() <= b@.len(),
            a@.take(it.index() as int) == b@.take(it.index() as int),
    {
        let ghost i = it.index() as int;
        match other.next() {
            None => {
                assert(a@.len() > b@.len());
                return false;
            },
            Some(d) => {
                assert(c == a@[i] && d == b@[i]);
                if c != d {
                    return false;
                }
                assert(b@.skip(i).drop_first() == b@.skip(i + 1));
                assert(a@.take(i + 1) == a@.take(i).push(c));
                assert(b@.take(i + 1) == b@.take(i).push(d));
            },
        }
    }
    let ghost n = a@.len() as int;
    assert(a@.take(n) == a@);
    match other.next() {
        None => {
            assert(b@.take(n) == b@);
            true
        },
        Some(_) => {
            assert(b@.len() > a@.len());
            false
        },
    }
}

/// Appends `line` and a line feed to `out`, as writing a line does.
pub fn write_line(out: &mut String, line: &str)
    ensures
        final(out)@ == (old(out)@ + line@).push('\n'),
{
    out.push_str(line);
    out.push('\n');
}

} // verus!

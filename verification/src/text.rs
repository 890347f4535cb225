//! Character-level helpers: conversions between strings and character
//! vectors, decimal rendering and placeholder substitution.

use vstd::prelude::*;

verus! {

/// `String::push` appends the given character to the end of the string and
/// changes nothing else.
pub assume_specification[ String::push ](s: &mut String, ch: char)
    ensures
        final(s)@ == old(s)@.push(ch),
;

/// The characters of `s`, in order.
pub fn chars_of(s: &str) -> (chars: Vec<char>)
    ensures
        chars@ == s@,
{
    let n: usize = s.unicode_len();
    let mut chars: Vec<char> = Vec::new();
    let mut i: usize = 0;
    while i < n
        invariant
            n == s@.len(),
            i <= n,
            chars@ == s@.subrange(0, i as int),
        decreases n - i,
    {
        chars.push(s.get_char(i));
        i += 1;
        assert(chars@ =~= s@.subrange(0, i as int));
    }
    assert(s@.subrange(0, n as int) =~= s@);
    chars
}

/// The string made of `chars`, in order.
pub fn string_of(chars: &Vec<char>) -> (s: String)
    ensures
        s@ == chars@,
{
    let mut s: String = String::new();
    let mut i: usize = 0;
    while i < chars.len()
        invariant
            i <= chars.len(),
            s@ == chars@.subrange(0, i as int),
        decreases chars.len() - i,
    {
        s.push(chars[i]);
        i += 1;
        assert(s@ =~= chars@.subrange(0, i as int));
    }
    assert(chars@.subrange(0, chars.len() as int) =~= chars@);
    s
}

/// The character that writes the decimal digit `d`.
pub open spec fn digit_char(d: nat) -> char {
    if d == 0 {
        '0'
    } else if d == 1 {
        '1'
    } else if d == 2 {
        '2'
    } else if d == 3 {
        '3'
    } else if d == 4 {
        '4'
    } else if d == 5 {
        '5'
    } else if d == 6 {
        '6'
    } else if d == 7 {
        '7'
    } else if d == 8 {
        '8'
    } else {
        '9'
    }
}

/// The decimal text of `n`: no sign, no leading zero, `"0"` for zero.
pub open spec fn decimal_text(n: nat) -> Seq<char>
    decreases n,
{
    if n < 10 {
        seq![digit_char(n)]
    } else {
        decimal_text(n / 10).push(digit_char(n % 10))
    }
}

fn digit_to_char(d: u32) -> (c: char)
    requires
        d < 10,
    ensures
        c == digit_char(d as nat),
{
    match d {
        0 => '0',
        1 => '1',
        2 => '2',
        3 => '3',
        4 => '4',
        5 => '5',
        6 => '6',
        7 => '7',
        8 => '8',
        _ => '9',
    }
}

/// Appends the decimal text of `n` to `out`.
pub fn push_decimal(out: &mut Vec<char>, n: u32)
    ensures
        final(out)@ == old(out)@ + decimal_text(n as nat),
    decreases n,
{
    if n >= 10 {
        push_decimal(out, n / 10);
    }
    out.push(digit_to_char(n % 10));
    assert(final(out)@ =~= old(out)@ + decimal_text(n as nat));
}

/// `text` with every occurrence of `pattern` replaced by `replacement`,
/// scanning from the left and never matching inside a replaced stretch.
/// An empty pattern occurs nowhere.
pub open spec fn replace_all(text: Seq<char>, pattern: Seq<char>, replacement: Seq<char>) -> Seq<
    char,
>
    decreases text.len(),
{
    if pattern.len() == 0 || text.len() < pattern.len() {
        text
    } else if text.subrange(0, pattern.len() as int) == pattern {
        replacement + replace_all(text.skip(pattern.len() as int), pattern, replacement)
    } else {
        seq![text[0]] + replace_all(text.skip(1), pattern, replacement)
    }
}

/// Whether `pattern` stands in `text` at position `at`.
fn occurs_at(text: &Vec<char>, at: usize, pattern: &Vec<char>) -> (found: bool)
    requires
        at + pattern.len() <= text.len(),
    ensures
        found == (text@.subrange(at as int, at + pattern.len()) == pattern@),
{
    let mut k: usize = 0;
    while k < pattern.len()
        invariant
            at + pattern.len() <= text.len(),
            k <= pattern.len(),
            forall|j: int| 0 <= j < k ==> text@[at + j] == pattern@[j],
        decreases pattern.len() - k,
    {
        if text[at + k] != pattern[k] {
            assert(text@.subrange(at as int, at + pattern.len())[k as int] != pattern@[k as int]);
            return false;
        }
        k += 1;
    }
    assert(text@.subrange(at as int, at + pattern.len()) =~= pattern@);
    true
}

/// Appends all of `tail` to `out`.
fn push_all(out: &mut Vec<char>, tail: &Vec<char>, from: usize)
    requires
        from <= tail.len(),
    ensures
        final(out)@ == old(out)@ + tail@.skip(from as int),
{
    let mut k: usize = from;
    while k < tail.len()
        invariant
            from <= k <= tail.len(),
            out@ == old(out)@ + tail@.subrange(from as int, k as int),
        decreases tail.len() - k,
    {
        out.push(tail[k]);
        k += 1;
        assert(out@ =~= old(out)@ + tail@.subrange(from as int, k as int));
    }
    assert(tail@.subrange(from as int, tail.len() as int) =~= tail@.skip(from as int));
}

/// Replaces every occurrence of `pattern` in `text` by `replacement`.
pub fn substitute(text: &Vec<char>, pattern: &Vec<char>, replacement: &Vec<char>) -> (out: Vec<
    char,
>)
    ensures
        out@ == replace_all(text@, pattern@, replacement@),
{
    let mut out: Vec<char> = Vec::new();
    let n: usize = text.len();
    let m: usize = pattern.len();
    if m == 0 || n < m {
        push_all(&mut out, text, 0);
        assert(text@.skip(0) =~= text@);
        assert(out@ =~= text@);
        return out;
    }
    let mut i: usize = 0;
    assert(text@.skip(0) =~= text@);
    assert(out@ + replace_all(text@, pattern@, replacement@) =~= replace_all(
        text@,
        pattern@,
        replacement@,
    ));
    while i <= n - m
        invariant
            n == text.len(),
            m == pattern.len(),
            0 < m <= n,
            i <= n,
            out@ + replace_all(text@.skip(i as int), pattern@, replacement@) == replace_all(
                text@,
                pattern@,
                replacement@,
            ),
        decreases n - i,
    {
        let ghost rest = text@.skip(i as int);
        let ghost before = out@;
        assert(rest.subrange(0, m as int) =~= text@.subrange(i as int, i + m));
        if occurs_at(text, i, pattern) {
            push_all(&mut out, replacement, 0);
            assert(replacement@.skip(0) =~= replacement@);
            assert(rest.skip(m as int) =~= text@.skip(i + m));
            i += m;
            assert(out@ + replace_all(text@.skip(i as int), pattern@, replacement@) =~= before
                + replace_all(rest, pattern@, replacement@));
        } else {
            out.push(text[i]);
            assert(rest.skip(1) =~= text@.skip(i + 1));
            i += 1;
            assert(out@ + replace_all(text@.skip(i as int), pattern@, replacement@) =~= before
                + replace_all(rest, pattern@, replacement@));
        }
    }
    let ghost before = out@;
    push_all(&mut out, text, i);
    assert(out@ =~= before + replace_all(text@.skip(i as int), pattern@, replacement@));
    out
}

} // verus!

//! Characters and strings: what this crate takes from `std` on trust, and the
//! small helpers built on it.

use vstd::prelude::*;

verus! {

/// Whether `c` is white space: whether it has the Unicode property
/// `White_Space`. These are the 25 characters U+0009 to U+000D, U+0020, U+0085,
/// U+00A0, U+1680, U+2000 to U+200A, U+2028, U+2029, U+202F, U+205F and
/// U+3000.
pub open spec fn white_space(c: char) -> bool {
    let n = c as u32;
    ||| 0x09 <= n <= 0x0d
    ||| n == 0x20
    ||| n == 0x85
    ||| n == 0xa0
    ||| n == 0x1680
    ||| 0x2000 <= n <= 0x200a
    ||| n == 0x2028
    ||| n == 0x2029
    ||| n == 0x202f
    ||| n == 0x205f
    ||| n == 0x3000
}

/// `char::is_whitespace` is taken on trust: it tells whether the character
/// has the property `White_Space`, which is what [`white_space`] lists.
pub assume_specification[ char::is_whitespace ](c: char) -> (b: bool)
    ensures
        b == white_space(c),
;

/// `String::push` is taken on trust: it appends the one character to the end.
pub assume_specification[ String::push ](s: &mut String, c: char)
    ensures
        final(s)@ == old(s)@.push(c),
;

/// The characters of `s`, in order.
pub fn to_chars(s: &str) -> (v: Vec<char>)
    ensures
        v@ == s@,
{
    let mut v: Vec<char> = Vec::new();
    let chars = s.chars();
    for c in it: chars
        invariant
            it.seq() == s@,
            v@ == it.seq().take(it.index()),
    {
        v.push(c);
    }
    v
}

/// Whether `s` holds a white-space character.
pub open spec fn has_whitespace(s: Seq<char>) -> bool {
    exists|i: int| 0 <= i < s.len() && white_space(s[i])
}

/// Tells whether `s` holds a white-space character.
pub fn contains_whitespace(s: &str) -> (b: bool)
    ensures
        b == has_whitespace(s@),
{
    let mut found = false;
    let chars = s.chars();
    for c in it: chars
        invariant
            it.seq() == s@,
            found == has_whitespace(s@.take(it.index())),
    {
        let ghost k = it.index();
        proof {
            let shorter = s@.take(k);
            let longer = s@.take(k + 1);
            assert(longer[k] == c);
            if has_whitespace(shorter) {
                let i = choose|i: int| 0 <= i < shorter.len() && white_space(shorter[i]);
                assert(white_space(longer[i]));
            }
            if has_whitespace(longer) && !white_space(c) {
                let i = choose|i: int| 0 <= i < longer.len() && white_space(longer[i]);
                assert(white_space(shorter[i]));
            }
        }
        if c.is_whitespace() {
            found = true;
        }
    }
    assert(s@.take(s@.len() as int) == s@);
    found
}

} // verus!

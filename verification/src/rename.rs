//! The rename resolver: telling `old -> new` apart from a single path, and
//! putting quotes back around a path that needs them.
//!
//! A payload is a rename when it holds an arrow: a space, `->`, and a space.
//! The first arrow decides. The first path is what stands before it on the same
//! line of text. The second path is what follows it: up to the next double
//! quote if it begins with one, else all the rest. One double quote directly at
//! either end of a path is dropped. Quotes are not matched against each other.

use vstd::prelude::*;
use crate::text::{contains_whitespace, has_whitespace, to_chars, white_space};

verus! {

/// Whether an arrow starts at index `i` of `s`.
pub open spec fn arrow_at(s: Seq<char>, i: int) -> bool {
    &&& 0 <= i
    &&& i + 4 <= s.len()
    &&& s[i] == ' '
    &&& s[i + 1] == '-'
    &&& s[i + 2] == '>'
    &&& s[i + 3] == ' '
}

/// Whether `s` holds an arrow anywhere.
pub open spec fn has_arrow(s: Seq<char>) -> bool {
    exists|i: int| arrow_at(s, i)
}

/// Whether the first arrow of `s` starts at `p`.
pub open spec fn first_arrow_at(s: Seq<char>, p: int) -> bool {
    &&& arrow_at(s, p)
    &&& forall|i: int| 0 <= i < p ==> !arrow_at(s, i)
}

/// Where the first arrow of `s` starts. Meaningful when `has_arrow(s)`.
pub open spec fn first_arrow(s: Seq<char>) -> int {
    choose|p: int| first_arrow_at(s, p)
}

/// The index just behind the last line feed among the first `p` characters of
/// `s`, or 0 when there is none: where the line of text that reaches `p` begins.
pub open spec fn line_start(s: Seq<char>, p: int) -> int
    decreases p,
{
    if p <= 0 {
        0
    } else if s[p - 1] == '\n' {
        p
    } else {
        line_start(s, p - 1)
    }
}

/// The index of the first double quote of `s` at or behind `b`, or the length
/// of `s` when there is none.
pub open spec fn quote_from(s: Seq<char>, b: int) -> int
    decreases s.len() - b,
{
    if b >= s.len() {
        s.len() as int
    } else if s[b] == '"' {
        b
    } else {
        quote_from(s, b + 1)
    }
}

/// The first path of a rename whose first arrow starts at `p`: the text from
/// the start of the arrow's line up to the arrow, without one leading and one
/// trailing double quote.
pub open spec fn first_path(s: Seq<char>, p: int) -> Seq<char> {
    let a0 = line_start(s, p);
    let a = if a0 < p && s[a0] == '"' {
        a0 + 1
    } else {
        a0
    };
    let e = if a < p && s[p - 1] == '"' {
        p - 1
    } else {
        p
    };
    s.subrange(a, e)
}

/// The second path of a rename whose first arrow starts at `p`. Where a
/// double quote follows the arrow, it is the text behind that quote up to the
/// next double quote or the end. Where none does, it is all the rest, without
/// one double quote at the very end.
pub open spec fn second_path(s: Seq<char>, p: int) -> Seq<char> {
    let q = p + 4;
    if q < s.len() && s[q] == '"' {
        s.subrange(q + 1, quote_from(s, q + 1))
    } else if q < s.len() && s.last() == '"' {
        s.subrange(q, s.len() - 1)
    } else {
        s.subrange(q, s.len() as int)
    }
}

/// The two paths that the payload `s` names, if it is a rename.
pub open spec fn rename_of(s: Seq<char>) -> Option<(Seq<char>, Seq<char>)> {
    if has_arrow(s) {
        Some((first_path(s, first_arrow(s)), second_path(s, first_arrow(s))))
    } else {
        None
    }
}

/// A path as it is shown again once its own quotes are gone: inside double
/// quotes if it holds white space, bare if not.
pub open spec fn requoted(s: Seq<char>) -> Seq<char> {
    if has_whitespace(s) {
        seq!['"'] + s + seq!['"']
    } else {
        s
    }
}

/// There is one first arrow at most.
pub proof fn lemma_first_arrow_unique(s: Seq<char>, p: int)
    requires
        first_arrow_at(s, p),
    ensures
        has_arrow(s),
        first_arrow(s) == p,
{
}

/// Before any arrow there is a first one.
proof fn lemma_first_arrow_before(s: Seq<char>, i: int)
    requires
        arrow_at(s, i),
    ensures
        exists|p: int| first_arrow_at(s, p),
    decreases i,
{
    if exists|j: int| 0 <= j < i && arrow_at(s, j) {
        let j = choose|j: int| 0 <= j < i && arrow_at(s, j);
        lemma_first_arrow_before(s, j);
    } else {
        assert(first_arrow_at(s, i));
    }
}

/// A payload that holds an arrow has a first one.
pub proof fn lemma_first_arrow(s: Seq<char>)
    requires
        has_arrow(s),
    ensures
        first_arrow_at(s, first_arrow(s)),
{
    let i = choose|i: int| arrow_at(s, i);
    lemma_first_arrow_before(s, i);
}

/// Both paths of a rename are pieces of the payload: each character of either
/// is a character of the payload.
pub proof fn lemma_paths_within(s: Seq<char>)
    requires
        has_arrow(s),
    ensures
        ({
            let paths = rename_of(s)->0;
            &&& forall|i: int|
                0 <= i < paths.0.len() ==> exists|j: int|
                    0 <= j < s.len() && s[j] == #[trigger] paths.0[i]
            &&& forall|i: int|
                0 <= i < paths.1.len() ==> exists|j: int|
                    0 <= j < s.len() && s[j] == #[trigger] paths.1[i]
        }),
{
    let p = first_arrow(s);
    lemma_first_arrow(s);
    lemma_line_start_bounds(s, p);
    let q = p + 4;
    if q < s.len() && s[q] == '"' {
        lemma_quote_from_bounds(s, q + 1);
    }
    let paths = rename_of(s)->0;
    let a0 = line_start(s, p);
    let a = if a0 < p && s[a0] == '"' {
        a0 + 1
    } else {
        a0
    };
    assert forall|i: int| 0 <= i < paths.0.len() implies exists|j: int|
        0 <= j < s.len() && s[j] == #[trigger] paths.0[i] by {
    }
    let b = if q < s.len() && s[q] == '"' {
        q + 1
    } else {
        q
    };
    assert forall|i: int| 0 <= i < paths.1.len() implies exists|j: int|
        0 <= j < s.len() && s[j] == #[trigger] paths.1[i] by {
    }
}

/// The start of a line lies at or before the index it was asked for.
pub proof fn lemma_line_start_bounds(s: Seq<char>, p: int)
    requires
        0 <= p,
    ensures
        0 <= line_start(s, p) <= p,
    decreases p,
{
    if p > 0 && s[p - 1] != '\n' {
        lemma_line_start_bounds(s, p - 1);
    }
}

/// The next quote lies at or behind the index it was asked from, within `s`.
pub proof fn lemma_quote_from_bounds(s: Seq<char>, b: int)
    requires
        0 <= b <= s.len(),
    ensures
        b <= quote_from(s, b) <= s.len(),
    decreases s.len() - b,
{
    if b < s.len() && s[b] != '"' {
        lemma_quote_from_bounds(s, b + 1);
    }
}

/// Whether `-` with `>` directly behind it starts at index `i` of `s`.
pub open spec fn tip_at(s: Seq<char>, i: int) -> bool {
    0 <= i && i + 1 < s.len() && s[i] == '-' && s[i + 1] == '>'
}

/// A path as a payload may hold it: with or without a double quote in front,
/// with or without one behind.
pub open spec fn in_quotes(path: Seq<char>, front: bool, back: bool) -> Seq<char> {
    (if front {
        seq!['"']
    } else {
        Seq::empty()
    }) + path + (if back {
        seq!['"']
    } else {
        Seq::empty()
    })
}

/// Where no line feed stands among the first `p` characters, the line that
/// reaches `p` begins at 0.
pub proof fn lemma_line_start_zero(s: Seq<char>, p: int)
    requires
        0 <= p <= s.len(),
        forall|i: int| 0 <= i < p ==> s[i] != '\n',
    ensures
        line_start(s, p) == 0,
    decreases p,
{
    if p > 0 {
        lemma_line_start_zero(s, p - 1);
    }
}

/// Where no double quote stands from `b` up to `f`, and `f` holds one or is the
/// end, the next quote from `b` on is at `f`.
pub proof fn lemma_quote_from_run(s: Seq<char>, b: int, f: int)
    requires
        0 <= b <= f <= s.len(),
        forall|i: int| b <= i < f ==> s[i] != '"',
        f == s.len() || s[f] == '"',
    ensures
        quote_from(s, b) == f,
    decreases f - b,
{
    if b < f {
        lemma_quote_from_run(s, b + 1, f);
    }
}

/// Two paths written around an arrow are read back as they were written,
/// whichever of the four quotes around them are there: provided that neither
/// path holds a double quote, and that the first holds no line feed and no `-`
/// with `>` directly behind it.
pub proof fn lemma_rename_round_trip(
    from: Seq<char>,
    to: Seq<char>,
    from_front: bool,
    from_back: bool,
    to_front: bool,
    to_back: bool,
)
    requires
        forall|i: int| 0 <= i < from.len() ==> from[i] != '\n' && from[i] != '"',
        forall|i: int| !tip_at(from, i),
        forall|i: int| 0 <= i < to.len() ==> to[i] != '"',
    ensures
        rename_of(
            in_quotes(from, from_front, from_back) + seq![' ', '-', '>', ' '] + in_quotes(
                to,
                to_front,
                to_back,
            ),
        ) == Some((from, to)),
{
    let before = in_quotes(from, from_front, from_back);
    let behind = in_quotes(to, to_front, to_back);
    let s = before + seq![' ', '-', '>', ' '] + behind;
    let p = before.len() as int;
    let lead: int = if from_front { 1 } else { 0 };
    let q = p + 4;
    let skip: int = if to_front { 1 } else { 0 };
    assert forall|i: int| 0 <= i < p implies !arrow_at(s, i) by {
        if arrow_at(s, i) {
            assert(tip_at(from, i + 1 - lead));
        }
    }
    assert(arrow_at(s, p));
    lemma_first_arrow_unique(s, p);
    assert forall|i: int| 0 <= i < p implies s[i] != '\n' by {}
    lemma_line_start_zero(s, p);
    assert(first_path(s, p) == from);
    assert forall|i: int| q + skip <= i < q + skip + to.len() implies s[i] != '"' by {}
    if q < s.len() && s[q] == '"' {
        let f = q + 1 + (if to_front { to.len() as int } else { 0 });
        lemma_quote_from_run(s, q + 1, f);
    }
    assert(second_path(s, p) == to);
}

/// Putting the quotes back a second time changes nothing on a path without
/// white space: such a path stays bare both times.
pub proof fn lemma_requoted_again_without_whitespace(path: Seq<char>)
    requires
        !has_whitespace(path),
    ensures
        requoted(requoted(path)) == requoted(path),
        requoted(path) == path,
{
}

/// A path with white space gets a pair of quotes each time the quotes are put
/// back: the quoted form holds the same white space, so a second pass wraps it
/// once more.
pub proof fn lemma_requoted_again_with_whitespace(path: Seq<char>)
    requires
        has_whitespace(path),
    ensures
        requoted(path) == seq!['"'] + path + seq!['"'],
        requoted(requoted(path)) == seq!['"', '"'] + path + seq!['"', '"'],
        requoted(requoted(path)) != requoted(path),
{
    let once = seq!['"'] + path + seq!['"'];
    let i = choose|i: int| 0 <= i < path.len() && white_space(path[i]);
    assert(white_space(once[i + 1]));
}

/// Tells whether an arrow starts at index `i`.
fn arrow_starts(chars: &Vec<char>, i: usize) -> (b: bool)
    requires
        i + 4 <= chars.len(),
    ensures
        b == arrow_at(chars@, i as int),
{
    chars[i] == ' ' && chars[i + 1] == '-' && chars[i + 2] == '>' && chars[i + 3] == ' '
}

/// Finds where the first arrow starts, if there is one.
fn find_arrow(chars: &Vec<char>) -> (r: Option<usize>)
    ensures
        match r {
            Some(p) => first_arrow_at(chars@, p as int),
            None => !has_arrow(chars@),
        },
{
    let n: usize = chars.len();
    let starts: usize = if n >= 4 {
        n - 3
    } else {
        0
    };
    let mut i: usize = 0;
    while i < starts
        invariant
            n == chars.len(),
            starts == if n >= 4 {
                n - 3
            } else {
                0
            },
            i <= starts,
            forall|j: int| 0 <= j < i ==> !arrow_at(chars@, j),
        decreases starts - i,
    {
        if arrow_starts(chars, i) {
            return Some(i);
        }
        i += 1;
    }
    None
}

/// Walks back from `p` to the start of its line of text.
fn start_of_line(chars: &Vec<char>, p: usize) -> (a: usize)
    requires
        p <= chars.len(),
    ensures
        a == line_start(chars@, p as int),
        a <= p,
{
    let mut a: usize = p;
    while a > 0 && chars[a - 1] != '\n'
        invariant
            a <= p <= chars.len(),
            line_start(chars@, p as int) == line_start(chars@, a as int),
        decreases a,
    {
        a -= 1;
    }
    a
}

/// Walks on from `b` to the next double quote, or to the end.
fn next_quote(chars: &Vec<char>, b: usize) -> (f: usize)
    requires
        b <= chars.len(),
    ensures
        f == quote_from(chars@, b as int),
        b <= f <= chars.len(),
{
    let mut f: usize = b;
    while f < chars.len() && chars[f] != '"'
        invariant
            b <= f <= chars.len(),
            quote_from(chars@, b as int) == quote_from(chars@, f as int),
        decreases chars.len() - f,
    {
        f += 1;
    }
    f
}

/// Splits a payload into the two paths of a rename, or answers `None` when it
/// holds no arrow and so is one plain path.
pub fn parse_rename<'a>(line: &'a str) -> (r: Option<(&'a str, &'a str)>)
    ensures
        match r {
            Some((from, to)) => rename_of(line@) == Some((from@, to@)),
            None => rename_of(line@) is None,
        },
{
    let chars = to_chars(line);
    match find_arrow(&chars) {
        None => None,
        Some(p) => {
            proof {
                lemma_first_arrow_unique(chars@, p as int);
            }
            let n: usize = chars.len();
            let a0: usize = start_of_line(&chars, p);
            let a: usize = if a0 < p && chars[a0] == '"' {
                a0 + 1
            } else {
                a0
            };
            let e: usize = if a < p && chars[p - 1] == '"' {
                p - 1
            } else {
                p
            };
            let q: usize = p + 4;
            let to = if q < n && chars[q] == '"' {
                line.substring_char(q + 1, next_quote(&chars, q + 1))
            } else if q < n && chars[n - 1] == '"' {
                line.substring_char(q, n - 1)
            } else {
                line.substring_char(q, n)
            };
            Some((line.substring_char(a, e), to))
        },
    }
}

/// Puts double quotes around `s` if it holds white space, and hands it back
/// as it is if not.
pub fn add_quotes_if_with_whitespace(s: &str) -> (r: String)
    ensures
        r@ == requoted(s@),
{
    if contains_whitespace(s) {
        let mut r = String::new();
        r.push('"');
        r.append(s);
        r.push('"');
        r
    } else {
        s.to_owned()
    }
}

} // verus!

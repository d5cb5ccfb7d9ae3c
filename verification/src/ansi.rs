//! The ANSI escapes that the decoration is made of, the coloured form of a
//! status code, and what a text is without its colour escapes.

use vstd::prelude::*;

verus! {

/// Colour of the left status character: green.
pub const STAGED: &'static str = "\x1b[32m";

/// Colour of the right status character: red.
pub const UNSTAGED: &'static str = "\x1b[31m";

/// Colour of both characters of an untracked entry: red.
pub const ALERT: &'static str = "\x1b[31m";

/// Colour of a path that has no style of its own: the terminal's default
/// foreground, selected explicitly.
pub const PATH: &'static str = "\x1b[39m";

/// Back to the neutral rendition.
pub const RESET: &'static str = "\x1b[0m";

/// The coloured form of the status characters `ch1` and `ch2`: both in the
/// alert colour when both are `?`, else the first in the staged and the second
/// in the unstaged colour; a reset closes either form.
pub open spec fn deco_status_code(ch1: char, ch2: char) -> Seq<char> {
    if ch1 == '?' && ch2 == '?' {
        ALERT@ + seq![ch1, ch2] + RESET@
    } else {
        STAGED@ + seq![ch1] + UNSTAGED@ + seq![ch2] + RESET@
    }
}

/// A piece of text in the flat path colour, closed by a reset.
pub open spec fn flat(text: Seq<char>) -> Seq<char> {
    PATH@ + text + RESET@
}

/// Whether `c` may stand among the parameters of a colour escape: a digit or a
/// semicolon.
pub open spec fn is_parameter(c: char) -> bool {
    c == '0' || c == '1' || c == '2' || c == '3' || c == '4' || c == '5' || c == '6' || c == '7'
        || c == '8' || c == '9' || c == ';'
}

/// Whether `s` is one colour escape: the escape character, `[`, digits and
/// semicolons, and `m`.
pub open spec fn is_escape(s: Seq<char>) -> bool {
    &&& s.len() >= 3
    &&& s[0] == '\x1b'
    &&& s[1] == '['
    &&& s.last() == 'm'
    &&& forall|i: int| 2 <= i < s.len() - 1 ==> is_parameter(#[trigger] s[i])
}

/// Whether the escape character stands nowhere in `s`.
pub open spec fn escape_free(s: Seq<char>) -> bool {
    forall|i: int| 0 <= i < s.len() ==> #[trigger] s[i] != '\x1b'
}

/// The first index of `s` at or behind `i` that holds no parameter, or the
/// length of `s` when there is none.
pub open spec fn parameters_end(s: Seq<char>, i: int) -> int
    decreases s.len() - i,
{
    if i >= s.len() {
        s.len() as int
    } else if is_parameter(s[i]) {
        parameters_end(s, i + 1)
    } else {
        i
    }
}

/// The length of the colour escape that `s` begins with, or 0 when it begins
/// with none.
pub open spec fn escape_len(s: Seq<char>) -> int {
    if s.len() >= 3 && s[0] == '\x1b' && s[1] == '[' && parameters_end(s, 2) < s.len()
        && s[parameters_end(s, 2)] == 'm' {
        parameters_end(s, 2) + 1
    } else {
        0
    }
}

/// `s` without its colour escapes: what a terminal shows of it.
pub open spec fn stripped(s: Seq<char>) -> Seq<char>
    decreases s.len(),
{
    if s.len() == 0 {
        Seq::empty()
    } else if 0 < escape_len(s) <= s.len() {
        stripped(s.skip(escape_len(s)))
    } else {
        seq![s[0]] + stripped(s.skip(1))
    }
}

/// Whether `s` ends with `tail`.
pub open spec fn ends_with(s: Seq<char>, tail: Seq<char>) -> bool {
    s.len() >= tail.len() && s.subrange(s.len() - tail.len(), s.len() as int) == tail
}

/// The parameters of an escape end at its `m`.
proof fn lemma_parameters_end(e: Seq<char>, rest: Seq<char>, i: int)
    requires
        is_escape(e),
        2 <= i <= e.len() - 1,
    ensures
        parameters_end(e + rest, i) == e.len() - 1,
    decreases e.len() - i,
{
    if i < e.len() - 1 {
        lemma_parameters_end(e, rest, i + 1);
    }
}

/// A colour escape in front is stripped whole.
pub proof fn lemma_stripped_escape(e: Seq<char>, rest: Seq<char>)
    requires
        is_escape(e),
    ensures
        stripped(e + rest) == stripped(rest),
{
    let s = e + rest;
    lemma_parameters_end(e, rest, 2);
    assert(s.skip(e.len() as int) == rest);
}

/// Text without the escape character stays as it is.
pub proof fn lemma_stripped_text(text: Seq<char>, rest: Seq<char>)
    requires
        escape_free(text),
    ensures
        stripped(text + rest) == text + stripped(rest),
    decreases text.len(),
{
    if text.len() > 0 {
        let tail = text.skip(1);
        assert((text + rest).skip(1) == tail + rest);
        assert forall|i: int| 0 <= i < tail.len() implies #[trigger] tail[i] != '\x1b' by {}
        lemma_stripped_text(tail, rest);
    }
}

/// The escapes that the decoration writes are colour escapes, and the reset is
/// none of the colours.
pub proof fn lemma_escapes()
    ensures
        is_escape(STAGED@),
        is_escape(UNSTAGED@),
        is_escape(ALERT@),
        is_escape(PATH@),
        is_escape(RESET@),
        PATH@ != RESET@,
        RESET@ == seq!['\x1b', '[', '0', 'm'],
{
    reveal_strlit("\x1b[32m");
    reveal_strlit("\x1b[31m");
    reveal_strlit("\x1b[39m");
    reveal_strlit("\x1b[0m");
}

/// A coloured status code, without its escapes, is its two characters: where
/// neither is the escape character.
pub proof fn lemma_stripped_status_code(ch1: char, ch2: char, rest: Seq<char>)
    requires
        ch1 != '\x1b',
        ch2 != '\x1b',
    ensures
        stripped(deco_status_code(ch1, ch2) + rest) == seq![ch1, ch2] + stripped(rest),
{
    lemma_escapes();
    let closed = RESET@ + rest;
    lemma_stripped_escape(RESET@, rest);
    if ch1 == '?' && ch2 == '?' {
        let both = seq![ch1, ch2] + closed;
        assert(deco_status_code(ch1, ch2) + rest == ALERT@ + both);
        lemma_stripped_escape(ALERT@, both);
        lemma_stripped_text(seq![ch1, ch2], closed);
    } else {
        let second = seq![ch2] + closed;
        let turned = UNSTAGED@ + second;
        let first = seq![ch1] + turned;
        assert(deco_status_code(ch1, ch2) + rest == STAGED@ + first);
        lemma_stripped_escape(STAGED@, first);
        lemma_stripped_text(seq![ch1], turned);
        lemma_stripped_escape(UNSTAGED@, second);
        lemma_stripped_text(seq![ch2], closed);
    }
}

/// Colours the two characters of a status code.
pub fn get_deco_status_code(ch1: char, ch2: char) -> (deco: String)
    ensures
        deco@ == deco_status_code(ch1, ch2),
{
    let mut deco = String::new();
    if ch1 == '?' && ch2 == '?' {
        deco.append(ALERT);
        deco.push(ch1);
        deco.push(ch2);
        deco.append(RESET);
    } else {
        deco.append(STAGED);
        deco.push(ch1);
        deco.append(UNSTAGED);
        deco.push(ch2);
        deco.append(RESET);
    }
    deco
}

/// Colours a piece of text in the flat path colour.
pub fn paint_flat(text: &str) -> (shown: String)
    ensures
        shown@ == flat(text@),
{
    let mut shown = String::new();
    shown.append(PATH);
    shown.append(text);
    shown.append(RESET);
    shown
}

} // verus!

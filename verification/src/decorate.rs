//! The decorator: the output lines for one input line.
//!
//! A line that is no status line gives nothing. A status line with one path
//! gives one line. A rename gives one line with both paths around an arrow, or,
//! in split mode, two lines that each repeat the payload and add one of the two
//! paths.

use vstd::prelude::*;
use lscolors::LsColors;
use crate::ansi::{
    deco_status_code, ends_with, escape_free, flat, get_deco_status_code, lemma_escapes,
    lemma_stripped_status_code, lemma_stripped_text, stripped, PATH, RESET,
};
use crate::rename::{
    add_quotes_if_with_whitespace, has_arrow, lemma_paths_within, parse_rename, rename_of,
    requoted,
};
use crate::status::{accepted, normalized, parse_line, payload_of, status_of};
use crate::style::{
    lemma_flat_is_styled, lemma_styled_form_ends_with_one_reset, lemma_styled_form_stripped,
    lscolor_path, styled_form,
};

verus! {

/// What stands between the two paths of a rename shown on one line.
pub const ARROW: &'static str = " -> ";

/// What stands between the payload and the path in split mode.
pub const DIVIDER: &'static str = " :: ";

/// The line for a single path: status code, a space, the path as shown.
pub open spec fn plain_line(deco: Seq<char>, shown: Seq<char>) -> Seq<char> {
    deco + seq![' '] + shown + seq!['\n']
}

/// The line for a rename in joined mode: status code, a space, the first path
/// as shown, the arrow, the second path as shown.
pub open spec fn joined_line(deco: Seq<char>, shown1: Seq<char>, shown2: Seq<char>) -> Seq<char> {
    deco + seq![' '] + shown1 + ARROW@ + shown2 + seq!['\n']
}

/// One of the two lines for a rename in split mode: status code, a space, the
/// payload as it came, the divider, one path as shown.
pub open spec fn split_line(deco: Seq<char>, payload: Seq<char>, shown: Seq<char>) -> Seq<char> {
    deco + seq![' '] + payload + DIVIDER@ + shown + seq!['\n']
}

/// The texts of a payload that are shown as paths: the payload itself, or the
/// two paths of a rename, each with its quotes put back where it needs them.
pub open spec fn shown_paths(payload: Seq<char>) -> Seq<Seq<char>> {
    match rename_of(payload) {
        Some((from, to)) => seq![requoted(from), requoted(to)],
        None => seq![payload],
    }
}

/// The output for `line`, where `shown` holds the painted form of each text of
/// [`shown_paths`], in order.
pub open spec fn decorated(line: Seq<char>, split: bool, shown: Seq<Seq<char>>) -> Seq<Seq<char>> {
    if !accepted(line) {
        Seq::empty()
    } else {
        let deco = deco_status_code(status_of(line).ch1, status_of(line).ch2);
        let payload = payload_of(line);
        if rename_of(payload) is None {
            seq![plain_line(deco, shown[0])]
        } else if split {
            seq![split_line(deco, payload, shown[0]), split_line(deco, payload, shown[1])]
        } else {
            seq![joined_line(deco, shown[0], shown[1])]
        }
    }
}

/// The texts of [`shown_paths`], each in the flat path colour.
pub open spec fn flat_paths(payload: Seq<char>) -> Seq<Seq<char>> {
    shown_paths(payload).map_values(|path: Seq<char>| flat(path))
}

/// Whether `shown` holds a styled form of each text of [`shown_paths`], in
/// order: the text as it is, cut into pieces, each piece between an escape and
/// a reset.
pub open spec fn painted_paths(shown: Seq<Seq<char>>, payload: Seq<char>) -> bool {
    &&& shown.len() == shown_paths(payload).len()
    &&& forall|i: int|
        0 <= i < shown.len() ==> styled_form(#[trigger] shown[i], shown_paths(payload)[i])
}

/// The flat paths of a payload are painted paths of it.
pub proof fn lemma_flat_paths_painted(payload: Seq<char>)
    ensures
        painted_paths(flat_paths(payload), payload),
{
    assert forall|i: int| 0 <= i < flat_paths(payload).len() implies styled_form(
        #[trigger] flat_paths(payload)[i],
        shown_paths(payload)[i],
    ) by {
        lemma_flat_is_styled(shown_paths(payload)[i]);
    }
}

/// The output for `line` when every path is in the flat path colour.
pub open spec fn decorated_flat(line: Seq<char>, split: bool) -> Seq<Seq<char>> {
    decorated(line, split, flat_paths(payload_of(line)))
}

/// A status line with one path, shown flat, gives one line: the coloured
/// status code, a space, the path colour, the path text as it came, one reset
/// and the line feed.
pub proof fn lemma_plain_path_kept(x: char, y: char, path: Seq<char>, split: bool)
    requires
        path.len() >= 1,
        !has_arrow(path),
    ensures
        decorated_flat(seq![x, y, ' '] + path, split) == seq![
            deco_status_code(normalized(x), normalized(y)) + seq![' '] + PATH@ + path + RESET@
                + seq!['\n'],
        ],
{
    let line = seq![x, y, ' '] + path;
    assert(payload_of(line) == path);
    assert(plain_line(deco_status_code(normalized(x), normalized(y)), flat(path))
        == deco_status_code(normalized(x), normalized(y)) + seq![' '] + PATH@ + path + RESET@
        + seq!['\n']);
}

/// A status line with one path gives one line whatever the ruleset. Without
/// its escapes that line is the status code, a space and the path text as it
/// came; and it ends with one reset, not two, and the line feed. This holds
/// where the line has no escape character of its own.
pub proof fn lemma_plain_path_kept_in_colours(
    x: char,
    y: char,
    path: Seq<char>,
    split: bool,
    shown: Seq<Seq<char>>,
)
    requires
        path.len() >= 1,
        !has_arrow(path),
        painted_paths(shown, path),
        x != '\x1b',
        y != '\x1b',
        escape_free(path),
    ensures
        ({
            let out = decorated(seq![x, y, ' '] + path, split, shown);
            &&& out.len() == 1
            &&& stripped(out[0]) == seq![normalized(x), normalized(y), ' '] + path + seq!['\n']
            &&& ends_with(out[0], RESET@ + seq!['\n'])
            &&& !ends_with(out[0], RESET@ + RESET@ + seq!['\n'])
        }),
{
    let line = seq![x, y, ' '] + path;
    assert(payload_of(line) == path);
    let deco = deco_status_code(normalized(x), normalized(y));
    let out = decorated(line, split, shown);
    let end = seq!['\n'];
    let behind = seq![' '] + (shown[0] + end);
    assert(out[0] == deco + behind);
    lemma_stripped_status_code(normalized(x), normalized(y), behind);
    lemma_stripped_text(seq![' '], shown[0] + end);
    lemma_styled_form_stripped(shown[0], path, end);
    lemma_stripped_text(end, Seq::empty());
    assert(seq![normalized(x), normalized(y)] + (seq![' '] + (path + end)) == seq![
        normalized(x),
        normalized(y),
        ' ',
    ] + path + end);
    lemma_styled_form_ends_with_one_reset(shown[0], path);
    let n = out[0].len() as int;
    let m = shown[0].len() as int;
    let reset = RESET@;
    let r = reset.len() as int;
    assert(out[0].subrange(n - r - 1, n) == reset + end) by {
        assert forall|j: int| 0 <= j < r implies out[0][n - r - 1 + j] == reset[j] by {}
    }
    if ends_with(out[0], reset + reset + end) {
        lemma_escapes();
        let twice = reset + reset;
        let tail = out[0].subrange(n - 2 * r - 1, n);
        assert forall|j: int| 0 <= j < 2 * r implies out[0][n - 2 * r - 1 + j] == twice[j] by {
            assert(tail[j] == (twice + end)[j]);
        }
        if m < 2 * r {
            let j = 2 * r - m - 1;
            assert(out[0][n - 2 * r - 1 + j] == twice[j]);
        } else {
            assert(shown[0].subrange(m - 2 * r, m) == twice) by {
                assert forall|j: int| 0 <= j < 2 * r implies shown[0][m - 2 * r + j]
                    == twice[j] by {}
            }
        }
    }
}

/// Split mode gives a rename two lines whatever the ruleset, and each ends
/// with a styled form of one of the two paths: without its escapes, the first
/// path with its quotes put back on the first line and the second on the
/// second, where the payload has no escape character of its own.
pub proof fn lemma_split_rename_in_colours(line: Seq<char>, shown: Seq<Seq<char>>)
    requires
        accepted(line),
        has_arrow(payload_of(line)),
        painted_paths(shown, payload_of(line)),
    ensures
        ({
            let head = deco_status_code(status_of(line).ch1, status_of(line).ch2) + seq![' ']
                + payload_of(line) + DIVIDER@;
            let paths = rename_of(payload_of(line))->0;
            let out = decorated(line, true, shown);
            &&& out.len() == 2
            &&& out[0] == head + shown[0] + seq!['\n']
            &&& out[1] == head + shown[1] + seq!['\n']
            &&& styled_form(shown[0], requoted(paths.0))
            &&& styled_form(shown[1], requoted(paths.1))
            &&& escape_free(payload_of(line)) ==> stripped(shown[0]) == requoted(paths.0)
                && stripped(shown[1]) == requoted(paths.1)
        }),
{
    let payload = payload_of(line);
    let paths = rename_of(payload)->0;
    if escape_free(payload) {
        lemma_paths_within(payload);
        lemma_requoted_escape_free(paths.0);
        lemma_requoted_escape_free(paths.1);
        lemma_styled_form_stripped(shown[0], requoted(paths.0), Seq::empty());
        lemma_styled_form_stripped(shown[1], requoted(paths.1), Seq::empty());
    }
}

/// Putting quotes back brings in no escape character.
pub proof fn lemma_requoted_escape_free(path: Seq<char>)
    requires
        escape_free(path),
    ensures
        escape_free(requoted(path)),
{
    let quoted = seq!['"'] + path + seq!['"'];
    assert forall|i: int| 0 <= i < quoted.len() implies #[trigger] quoted[i] != '\x1b' by {}
}

/// Split mode gives a rename two lines. Both begin with the same text: the
/// coloured status code, a space, the payload as it came and the divider. The
/// first ends with the first path as shown, the second with the second, and
/// each with its line feed.
pub proof fn lemma_split_rename_two_lines(line: Seq<char>, shown: Seq<Seq<char>>)
    requires
        accepted(line),
        has_arrow(payload_of(line)),
    ensures
        ({
            let head = deco_status_code(status_of(line).ch1, status_of(line).ch2) + seq![' ']
                + payload_of(line) + DIVIDER@;
            let out = decorated(line, true, shown);
            &&& out.len() == 2
            &&& out[0] == head + shown[0] + seq!['\n']
            &&& out[1] == head + shown[1] + seq!['\n']
        }),
{
}

/// In split mode and with flat colours, the two lines of a rename differ in
/// the path at their end and in nothing else: the first ends with the first
/// path of the rename, the second with the second, each with its quotes put
/// back where it needs them.
pub proof fn lemma_split_rename_flat(line: Seq<char>)
    requires
        accepted(line),
        has_arrow(payload_of(line)),
    ensures
        ({
            let head = deco_status_code(status_of(line).ch1, status_of(line).ch2) + seq![' ']
                + payload_of(line) + DIVIDER@;
            let paths = rename_of(payload_of(line))->0;
            decorated_flat(line, true) == seq![
                head + flat(requoted(paths.0)) + seq!['\n'],
                head + flat(requoted(paths.1)) + seq!['\n'],
            ]
        }),
{
    lemma_split_rename_two_lines(line, flat_paths(payload_of(line)));
}

/// Builds the line for a single path from its parts.
pub fn render_plain(deco: &str, shown: &str) -> (line: String)
    ensures
        line@ == plain_line(deco@, shown@),
{
    let mut line = String::new();
    line.append(deco);
    line.push(' ');
    line.append(shown);
    line.push('\n');
    line
}

/// Builds the line for a rename in joined mode from its parts.
pub fn render_joined(deco: &str, shown1: &str, shown2: &str) -> (line: String)
    ensures
        line@ == joined_line(deco@, shown1@, shown2@),
{
    let mut line = String::new();
    line.append(deco);
    line.push(' ');
    line.append(shown1);
    line.append(ARROW);
    line.append(shown2);
    line.push('\n');
    line
}

/// Builds one line for a rename in split mode from its parts.
pub fn render_split(deco: &str, payload: &str, shown: &str) -> (line: String)
    ensures
        line@ == split_line(deco@, payload@, shown@),
{
    let mut line = String::new();
    line.append(deco);
    line.push(' ');
    line.append(payload);
    line.append(DIVIDER);
    line.append(shown);
    line.push('\n');
    line
}

/// Decorates one input line. The result holds the output lines, each with its
/// line feed: none for a line that is no status line, two for a rename in
/// split mode, one otherwise.
///
/// Without a ruleset the output is [`decorated_flat`]. With one, which escapes
/// stand around the pieces of a path depends on the ruleset and on the file
/// system; the layout is that of [`decorated`] all the same, and each path is
/// shown in a styled form of its text.
pub fn process_line(ls_colors: Option<&LsColors>, split: bool, line: &str) -> (out: Vec<String>)
    ensures
        out@.len() == 0 <==> !accepted(line@),
        line@.len() < 4 ==> out@.len() == 0,
        line@.len() >= 3 && line@[2] != ' ' ==> out@.len() == 0,
        ls_colors is None ==> out.deep_view() == decorated_flat(line@, split),
        exists|shown: Seq<Seq<char>>|
            painted_paths(shown, payload_of(line@)) && out.deep_view() == #[trigger] decorated(
                line@,
                split,
                shown,
            ),
{
    let mut out: Vec<String> = Vec::new();
    match parse_line(line) {
        None => {
            proof {
                lemma_flat_paths_painted(payload_of(line@));
            }
        },
        Some((code, payload)) => {
            let deco = get_deco_status_code(code.ch1, code.ch2);
            match parse_rename(payload) {
                Some((path1, path2)) => {
                    let path1q = add_quotes_if_with_whitespace(path1);
                    let path2q = add_quotes_if_with_whitespace(path2);
                    let shown1 = lscolor_path(ls_colors, path1q.as_str());
                    let shown2 = lscolor_path(ls_colors, path2q.as_str());
                    if split {
                        out.push(render_split(deco.as_str(), payload, shown1.as_str()));
                        out.push(render_split(deco.as_str(), payload, shown2.as_str()));
                    } else {
                        out.push(render_joined(deco.as_str(), shown1.as_str(), shown2.as_str()));
                    }
                    assert(out.deep_view() == decorated(line@, split, seq![shown1@, shown2@]));
                },
                None => {
                    let shown0 = lscolor_path(ls_colors, payload);
                    out.push(render_plain(deco.as_str(), shown0.as_str()));
                    assert(out.deep_view() == decorated(line@, split, seq![shown0@]));
                },
            }
        },
    }
    out
}

} // verus!

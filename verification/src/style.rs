//! Per-component styling of a path. The styles come from an `LS_COLORS`
//! ruleset held by `lscolors`; what is done with them is decided here: a
//! component is painted in its own style where that style is one escape to
//! switch it on and a reset to switch it off, and in the flat path colour
//! where it is not; and a path whose components do not add up to the path as
//! it came is shown flat as a whole.

use vstd::prelude::*;
use lscolors::LsColors;
use std::path::Path;
use crate::ansi::{
    ends_with, escape_free, flat, is_escape, is_parameter, lemma_escapes, lemma_stripped_escape,
    lemma_stripped_text, paint_flat, stripped, PATH, RESET,
};
use crate::text::to_chars;

verus! {

/// `lscolors::LsColors`, the ruleset read from an `LS_COLORS` text. It is
/// carried through as it is: nothing here looks inside.
#[verifier::external_type_specification]
#[verifier::external_body]
pub struct ExLsColors(LsColors);

/// The escapes of one style.
#[derive(Debug)]
pub struct AnsiStyle {
    /// What is written before the styled text.
    pub open: String,
    /// What is written behind it.
    pub close: String,
}

/// One component of a path as the ruleset answers for it.
#[derive(Debug)]
pub struct StyledComponent {
    /// The component as text, with the path separator behind it where another
    /// component follows.
    pub text: String,
    /// The style of the component; `None` when the ruleset has none for it.
    pub style: Option<AnsiStyle>,
}

/// What an [`AnsiStyle`] stands for.
pub struct StyleModel {
    pub open: Seq<char>,
    pub close: Seq<char>,
}

/// What a [`StyledComponent`] stands for.
pub struct ComponentModel {
    pub text: Seq<char>,
    pub style: Option<StyleModel>,
}

impl View for AnsiStyle {
    type V = StyleModel;

    open spec fn view(&self) -> StyleModel {
        StyleModel { open: self.open@, close: self.close@ }
    }
}

impl View for StyledComponent {
    type V = ComponentModel;

    open spec fn view(&self) -> ComponentModel {
        ComponentModel {
            text: self.text@,
            style: match self.style {
                Some(style) => Some(style@),
                None => None,
            },
        }
    }
}

/// The models of a run of components, in order.
pub open spec fn models(parts: Seq<StyledComponent>) -> Seq<ComponentModel> {
    parts.map_values(|part: StyledComponent| part@)
}

/// Whether a style can be used as it is: it opens with one colour escape other
/// than the reset, and closes with the reset.
pub open spec fn usable(style: StyleModel) -> bool {
    is_escape(style.open) && style.open != RESET@ && style.close == RESET@
}

/// One component as it is shown: between the escape of its style and the reset
/// where the style is usable, in the flat path colour where it has no style or
/// an unusable one.
pub open spec fn shown_component(part: ComponentModel) -> Seq<char> {
    match part.style {
        Some(style) => if usable(style) {
            style.open + part.text + style.close
        } else {
            flat(part.text)
        },
        None => flat(part.text),
    }
}

/// A run of components as it is shown: each one as [`shown_component`] has
/// it, in order, with nothing in between.
pub open spec fn shown_components(parts: Seq<ComponentModel>) -> Seq<char>
    decreases parts.len(),
{
    if parts.len() == 0 {
        Seq::empty()
    } else {
        shown_components(parts.drop_last()) + shown_component(parts.last())
    }
}

/// The texts of a run of components, one behind the other.
pub open spec fn joined_texts(parts: Seq<ComponentModel>) -> Seq<char>
    decreases parts.len(),
{
    if parts.len() == 0 {
        Seq::empty()
    } else {
        joined_texts(parts.drop_last()) + parts.last().text
    }
}

/// Whether `shown` is `path` in colours: cut into one or more pieces, each
/// piece shown as [`shown_component`] has it, so that the pieces of text, read
/// one behind the other, are `path` as it came.
pub open spec fn styled_form(shown: Seq<char>, path: Seq<char>) -> bool {
    exists|parts: Seq<ComponentModel>|
        parts.len() >= 1 && #[trigger] joined_texts(parts) == path && shown == shown_components(
            parts,
        )
}

/// The flat form of a path is one of its styled forms: the path as one piece
/// without a style.
pub proof fn lemma_flat_is_styled(path: Seq<char>)
    ensures
        styled_form(flat(path), path),
{
    let parts = seq![ComponentModel { text: path, style: None }];
    reveal_with_fuel(joined_texts, 2);
    reveal_with_fuel(shown_components, 2);
    assert(joined_texts(parts) == path);
}

/// The escape that a component is shown behind: that of its style where the
/// style is usable, that of the flat path colour where it is not.
pub open spec fn escape_of(part: ComponentModel) -> Seq<char> {
    match part.style {
        Some(style) => if usable(style) {
            style.open
        } else {
            PATH@
        },
        None => PATH@,
    }
}

/// A component is shown as one colour escape other than the reset, its text,
/// and the reset.
pub proof fn lemma_shown_component(part: ComponentModel)
    ensures
        shown_component(part) == escape_of(part) + part.text + RESET@,
        is_escape(escape_of(part)),
        escape_of(part) != RESET@,
{
    lemma_escapes();
}

/// Without their escapes, components as they are shown are their texts one
/// behind the other, where these hold no escape character of their own.
pub proof fn lemma_stripped_components(parts: Seq<ComponentModel>, rest: Seq<char>)
    requires
        escape_free(joined_texts(parts)),
    ensures
        stripped(shown_components(parts) + rest) == joined_texts(parts) + stripped(rest),
    decreases parts.len(),
{
    if parts.len() > 0 {
        let init = parts.drop_last();
        let last = parts.last();
        let before = joined_texts(init);
        assert forall|i: int| 0 <= i < before.len() implies #[trigger] before[i] != '\x1b' by {
            assert(joined_texts(parts)[i] == before[i]);
        }
        assert forall|i: int| 0 <= i < last.text.len() implies #[trigger] last.text[i]
            != '\x1b' by {
            assert(joined_texts(parts)[before.len() + i] == last.text[i]);
        }
        lemma_shown_component(last);
        lemma_escapes();
        let esc = escape_of(last);
        let after_esc = last.text + (RESET@ + rest);
        let after_text = RESET@ + rest;
        lemma_stripped_components(init, shown_component(last) + rest);
        assert(shown_components(parts) + rest == shown_components(init) + (shown_component(last)
            + rest));
        assert(shown_component(last) + rest == esc + after_esc);
        lemma_stripped_escape(esc, after_esc);
        lemma_stripped_text(last.text, after_text);
        lemma_stripped_escape(RESET@, rest);
    }
}

/// A styled form, without its escapes, is the path as it came: where the path
/// holds no escape character of its own.
pub proof fn lemma_styled_form_stripped(shown: Seq<char>, path: Seq<char>, rest: Seq<char>)
    requires
        styled_form(shown, path),
        escape_free(path),
    ensures
        stripped(shown + rest) == path + stripped(rest),
{
    let parts = choose|parts: Seq<ComponentModel>|
        parts.len() >= 1 && #[trigger] joined_texts(parts) == path && shown == shown_components(
            parts,
        );
    lemma_stripped_components(parts, rest);
}

/// A styled form ends with one reset, and not with two: where the path holds
/// no escape character of its own.
pub proof fn lemma_styled_form_ends_with_one_reset(shown: Seq<char>, path: Seq<char>)
    requires
        styled_form(shown, path),
        escape_free(path),
    ensures
        ends_with(shown, RESET@),
        !ends_with(shown, RESET@ + RESET@),
{
    let parts = choose|parts: Seq<ComponentModel>|
        parts.len() >= 1 && #[trigger] joined_texts(parts) == path && shown == shown_components(
            parts,
        );
    let last = parts.last();
    let prev = shown_components(parts.drop_last());
    let before = joined_texts(parts.drop_last());
    let esc = escape_of(last);
    let text = last.text;
    lemma_shown_component(last);
    lemma_escapes();
    assert forall|i: int| 0 <= i < text.len() implies #[trigger] text[i] != '\x1b' by {
        assert(path[before.len() + i] == text[i]);
    }
    let body = prev + esc + text;
    let n = body.len() as int;
    assert(shown.subrange(shown.len() - 4, shown.len() as int) == RESET@);
    if ends_with(shown, RESET@ + RESET@) {
        let tail = shown.subrange(shown.len() - 8, shown.len() as int);
        assert forall|j: int| 0 <= j < 4 implies body[n - 4 + j] == RESET@[j] by {
            assert(tail[j] == shown[shown.len() - 8 + j]);
        }
        if text.len() == 0 && esc.len() == 4 {
            assert forall|j: int| 0 <= j < 4 implies esc[j] == RESET@[j] by {}
            assert(esc == RESET@);
        }
    }
}

/// Asks the ruleset for the components of `path` and the escapes of the style
/// of each.
///
/// This calls `LsColors::style_for_path_components`, and for each style found
/// `Style::to_nu_ansi_term_style` with `prefix` and `suffix` on the result.
/// Which style a component gets depends on what the file system holds at
/// `path`, and the split into components on the platform's path rules, so
/// nothing is promised of the result.
#[verifier::external_body]
fn style_for_path_components(ls_colors: &LsColors, path: &str) -> (parts: Vec<StyledComponent>) {
    ls_colors
        .style_for_path_components(Path::new(path))
        .map(|(component, style)| StyledComponent {
            text: component.to_string_lossy().into_owned(),
            style: style.map(|found| {
                let ansi = found.to_nu_ansi_term_style();
                AnsiStyle { open: ansi.prefix().to_string(), close: ansi.suffix().to_string() }
            }),
        })
        .collect()
}

/// Tells whether two texts are the same.
fn same_text(a: &str, b: &str) -> (same: bool)
    ensures
        same == (a@ == b@),
{
    a.to_owned() == b.to_owned()
}

/// Tells whether `c` is a digit or a semicolon.
fn parameter(c: char) -> (b: bool)
    ensures
        b == is_parameter(c),
{
    c == '0' || c == '1' || c == '2' || c == '3' || c == '4' || c == '5' || c == '6' || c == '7'
        || c == '8' || c == '9' || c == ';'
}

/// Tells whether `s` is one colour escape.
fn escape(s: &str) -> (b: bool)
    ensures
        b == is_escape(s@),
{
    let chars = to_chars(s);
    let n: usize = chars.len();
    if n < 3 || chars[0] != '\x1b' || chars[1] != '[' || chars[n - 1] != 'm' {
        return false;
    }
    let mut i: usize = 2;
    while i < n - 1
        invariant
            chars@ == s@,
            n == chars.len(),
            n >= 3,
            chars[0] == '\x1b' && chars[1] == '[' && chars[n - 1] == 'm',
            2 <= i <= n - 1,
            forall|j: int| 2 <= j < i ==> is_parameter(#[trigger] s@[j]),
        decreases n - i,
    {
        if !parameter(chars[i]) {
            return false;
        }
        i += 1;
    }
    true
}

/// Tells whether a style can be used as it is.
pub fn usable_style(style: &AnsiStyle) -> (b: bool)
    ensures
        b == usable(style@),
{
    escape(style.open.as_str()) && !same_text(style.open.as_str(), RESET) && same_text(
        style.close.as_str(),
        RESET,
    )
}

/// Puts the texts of a run of components one behind the other.
pub fn join_texts(parts: &Vec<StyledComponent>) -> (joined: String)
    ensures
        joined@ == joined_texts(models(parts@)),
{
    let mut joined = String::new();
    let mut i: usize = 0;
    while i < parts.len()
        invariant
            i <= parts.len(),
            joined@ == joined_texts(models(parts@).take(i as int)),
        decreases parts.len() - i,
    {
        proof {
            let done = models(parts@).take(i as int);
            let next = models(parts@).take(i + 1);
            assert(next.drop_last() == done);
        }
        joined.append(parts[i].text.as_str());
        i += 1;
    }
    assert(models(parts@).take(parts@.len() as int) == models(parts@));
    joined
}

/// Puts a run of components together as it is shown: each in its own style
/// where that is usable, and in the flat path colour where it is not.
pub fn paint_components(parts: &Vec<StyledComponent>) -> (shown: String)
    ensures
        shown@ == shown_components(models(parts@)),
{
    let mut shown = String::new();
    let mut i: usize = 0;
    while i < parts.len()
        invariant
            i <= parts.len(),
            shown@ == shown_components(models(parts@).take(i as int)),
        decreases parts.len() - i,
    {
        let part = &parts[i];
        proof {
            let done = models(parts@).take(i as int);
            let next = models(parts@).take(i + 1);
            assert(next.drop_last() == done);
        }
        let mut own = false;
        match &part.style {
            Some(style) => {
                if usable_style(style) {
                    shown.append(style.open.as_str());
                    shown.append(part.text.as_str());
                    shown.append(style.close.as_str());
                    own = true;
                }
            },
            None => {},
        }
        if !own {
            let bare = paint_flat(part.text.as_str());
            shown.append(bare.as_str());
        }
        i += 1;
    }
    assert(models(parts@).take(parts@.len() as int) == models(parts@));
    shown
}

/// The path as it is shown. Without a ruleset the whole path is in the flat
/// path colour. With one, it is shown component by component as
/// [`paint_components`] does, if the ruleset answers with components whose
/// texts add up to the path; if it does not, the whole path is shown flat.
/// Either way the text of the path stands in the result as it came, with
/// escapes around its pieces.
pub fn lscolor_path(ls_colors: Option<&LsColors>, path: &str) -> (shown: String)
    ensures
        ls_colors is None ==> shown@ == flat(path@),
        styled_form(shown@, path@),
{
    proof {
        lemma_flat_is_styled(path@);
    }
    match ls_colors {
        Some(rules) => {
            let parts = style_for_path_components(rules, path);
            if parts.len() >= 1 && same_text(join_texts(&parts).as_str(), path) {
                paint_components(&parts)
            } else {
                paint_flat(path)
            }
        },
        None => paint_flat(path),
    }
}

} // verus!

//! The line parser: a status line is a two-character status code, one space,
//! and a path payload.

use vstd::prelude::*;

verus! {

/// The character that stands for "no status on this side".
pub const PLACEHOLDER: char = '_';

/// The two status characters of a line, with each blank replaced by
/// [`PLACEHOLDER`].
#[derive(Clone, Copy, Debug, PartialEq, Eq, Structural)]
pub struct StatusCode {
    /// The left character: the staged side.
    pub ch1: char,
    /// The right character: the unstaged side.
    pub ch2: char,
}

/// A status character as it is kept: a space becomes the placeholder.
pub open spec fn normalized(c: char) -> char {
    if c == ' ' {
        PLACEHOLDER
    } else {
        c
    }
}

impl StatusCode {
    /// Neither character is a blank.
    pub open spec fn wf(self) -> bool {
        self.ch1 != ' ' && self.ch2 != ' '
    }

    /// The status code that the raw characters `x` and `y` stand for.
    pub open spec fn of(x: char, y: char) -> StatusCode {
        StatusCode { ch1: normalized(x), ch2: normalized(y) }
    }

    /// Makes a status code of two raw characters, replacing blanks.
    pub fn new(x: char, y: char) -> (code: StatusCode)
        ensures
            code == Self::of(x, y),
            code.wf(),
    {
        StatusCode {
            ch1: if x == ' ' {
                PLACEHOLDER
            } else {
                x
            },
            ch2: if y == ' ' {
                PLACEHOLDER
            } else {
                y
            },
        }
    }
}

/// Whether `line` is taken as a status line: it has four characters at least,
/// and its third is a space.
pub open spec fn accepted(line: Seq<char>) -> bool {
    line.len() >= 4 && line[2] == ' '
}

/// The status code of an accepted line.
pub open spec fn status_of(line: Seq<char>) -> StatusCode {
    StatusCode::of(line[0], line[1])
}

/// The payload of an accepted line: all that follows the separating space,
/// untrimmed.
pub open spec fn payload_of(line: Seq<char>) -> Seq<char> {
    line.subrange(3, line.len() as int)
}

/// Splits a line into its status code and its payload. A line of fewer than
/// four characters, or with anything but a space as its third, is no status
/// line and gives `None`.
pub fn parse_line<'a>(line: &'a str) -> (r: Option<(StatusCode, &'a str)>)
    ensures
        r is Some <==> accepted(line@),
        line@.len() < 4 ==> r is None,
        line@.len() >= 3 && line@[2] != ' ' ==> r is None,
        match r {
            Some((code, payload)) => {
                &&& code == status_of(line@)
                &&& code.wf()
                &&& payload@ == payload_of(line@)
            },
            None => true,
        },
{
    let n: usize = line.unicode_len();
    if n < 4 {
        return None;
    }
    if line.get_char(2) != ' ' {
        return None;
    }
    let code = StatusCode::new(line.get_char(0), line.get_char(1));
    Some((code, line.substring_char(3, n)))
}

} // verus!

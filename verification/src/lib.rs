//! Decoration of version-control status lines with ANSI colours.
//!
//! A status line is a two-character status code, a space and a path, or two
//! paths around an arrow for a rename. [`process_line`] turns one such line
//! into the lines to print: the status code in its colours, and each path
//! either in one flat colour or, with an `LS_COLORS` ruleset, component by
//! component in the styles of that ruleset.
//!
//! - [`status`]: the line parser.
//! - [`rename`]: the rename resolver, and the quoting of paths.
//! - [`ansi`]: the escapes, and the colours of a status code.
//! - [`style`]: the styling of a path by its components.
//! - [`decorate`]: the layout of the output lines.
//! - [`text`]: characters and strings.

pub mod ansi;
pub mod decorate;
pub mod rename;
pub mod status;
pub mod style;
pub mod text;

pub use crate::ansi::get_deco_status_code;
pub use crate::decorate::process_line;
pub use crate::rename::{add_quotes_if_with_whitespace, parse_rename};
pub use crate::status::{parse_line, StatusCode};
pub use crate::style::lscolor_path;

//! The place of a node in a text, as a line and a column counted from one.

use crate::ast::STMT;
use crate::lsp::basic::Position;
use crate::text::{
    lemma_position_counted, line_start_before, newlines_before, position_of, TextDocument,
};
use vstd::prelude::*;
use vstd::string::{is_ascii, StrSliceExecFns};

verus! {

/// A place in a text: the line and the column, both counted from one, and
/// the offset.
#[derive(Copy, Clone, Debug, PartialEq, Eq, Structural)]
pub struct LineCol {
    pub line: u64,
    pub column: u64,
    pub offset: usize,
}

/// The place of `offset` in the text `s`: its position, with line and
/// character counted from one. None where `offset` lies behind the end of
/// `s`, and where a count is more than a `u64` holds.
pub open spec fn line_col_at(s: Seq<char>, offset: int) -> Option<LineCol> {
    match position_of(s, offset) {
        Some(p) => if p.line < u64::MAX && p.character < u64::MAX {
            Some(
                LineCol {
                    line: (p.line + 1) as u64,
                    column: (p.character + 1) as u64,
                    offset: offset as usize,
                },
            )
        } else {
            None
        },
        None => None,
    }
}

/// `peg::Parse::position_repr` on a `str`: the line is one more than the
/// number of line feeds before the offset, the column one more than the
/// number of characters between the last of them and the offset. The
/// function takes the offset in bytes; in a text of ASCII characters alone
/// that is the offset in characters. It slices the text at the offset, so
/// the offset must lie within the text.
#[verifier::external_body]
fn position_repr(text: &str, offset: usize) -> (place: (usize, usize))
    requires
        is_ascii(text),
        offset <= text@.len(),
    ensures
        place.0 == newlines_before(text@, offset as int) + 1,
        place.1 == offset - line_start_before(text@, offset as int) + 1,
{
    let place = peg::Parse::position_repr(text, offset);
    (place.line, place.column)
}

/// The position of offset `offset` in `inp`.
pub fn position_in(inp: &str, offset: usize) -> (r: Option<Position>)
    ensures
        r == position_of(inp@, offset as int),
        r is Some <==> offset <= inp@.len(),
{
    if inp.is_ascii() && offset <= inp.unicode_len() {
        let (line, column) = position_repr(inp, offset);
        proof {
            lemma_position_counted(inp@, offset as int);
        }
        Some(Position { line: (line - 1) as u64, character: (column - 1) as u64 })
    } else {
        TextDocument::from_text(inp.to_owned()).lookup_pos(offset)
    }
}

/// The place of offset `offset` in `inp`.
pub fn line_col_of(inp: &str, offset: usize) -> (r: Option<LineCol>)
    ensures
        r == line_col_at(inp@, offset as int),
{
    match position_in(inp, offset) {
        Some(p) => if p.line < u64::MAX && p.character < u64::MAX {
            Some(LineCol { line: p.line + 1, column: p.character + 1, offset })
        } else {
            None
        },
        None => None,
    }
}

/// Things that have a place in the text they were read from.
pub trait StringLocated {
    /// The offset at which the thing starts.
    spec fn start_offset(&self) -> int;

    /// The place at which the thing starts in `inp`.
    fn line_col(&self, inp: &str) -> (r: Option<LineCol>)
        ensures
            r == line_col_at(inp@, self.start_offset()),
    ;
}

impl StringLocated for STMT {
    open spec fn start_offset(&self) -> int {
        self@.start()
    }

    fn line_col(&self, inp: &str) -> (r: Option<LineCol>) {
        line_col_of(inp, self.get_range().start)
    }
}

} // verus!

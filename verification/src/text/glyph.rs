//! Logic specific to individual glyph layout.

use vstd::prelude::*;
use super::cursor::{Index, line_holds_char};
use super::line::Info;

verus! {

/// What `index_after_cursor` returns: the char index directly after the cursor `idx`, if the
/// cursor lies within the line that it names.
pub open spec fn char_after_cursor(infos: Seq<Info>, idx: Index) -> Option<usize> {
    if idx.line < infos.len() && infos[idx.line as int].start_char + idx.char
        <= infos[idx.line as int].end_break.char_of() {
        Some((infos[idx.line as int].start_char + idx.char) as usize)
    } else {
        None
    }
}

/// Find the index of the character that directly follows the cursor at the given `cursor_idx`.
///
/// Returns `None` if either the given `cursor::Index` `line` or `idx` fields are out of bounds
/// of the line information given by `line_infos`.
pub fn index_after_cursor(line_infos: &[Info], cursor_idx: Index) -> (r: Option<usize>)
    requires
        cursor_idx.line < line_infos@.len() ==> line_infos@[cursor_idx.line as int].start_char
            + cursor_idx.char <= usize::MAX,
    ensures
        r == char_after_cursor(line_infos@, cursor_idx),
{
    if cursor_idx.line < line_infos.len() {
        let line_info = line_infos[cursor_idx.line];
        let start_char = line_info.start_char;
        let end_char = line_info.end_char();
        let char_index = start_char + cursor_idx.char;
        if char_index <= end_char {
            Some(char_index)
        } else {
            None
        }
    } else {
        None
    }
}

/// Converting a char index into a cursor (as `cursor::index_before_char` does) and back again
/// (with `index_after_cursor`) gives the same char index.
pub proof fn law_index_after_cursor_inverts_index_before_char(
    infos: Seq<Info>,
    char_index: usize,
    idx: Index,
)
    requires
        idx.line < infos.len(),
        line_holds_char(infos[idx.line as int], char_index),
        idx.char == char_index - infos[idx.line as int].start_char,
    ensures
        char_after_cursor(infos, idx) == Some(char_index),
{
}

} // verus!

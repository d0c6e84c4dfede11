//! Logic related to the positioning of the cursor within text.

use vstd::prelude::*;
use super::line::Info;

verus! {

/// An index representing the position of a cursor within some text.
#[derive(Copy, Clone, Debug, PartialEq, Eq, Structural, PartialOrd, Ord)]
pub struct Index {
    /// The index of the line upon which the cursor is situated.
    pub line: usize,
    /// The index within all possible cursor positions for the line.
    ///
    /// For example, for the line `foo`, a `char` of `1` would indicate the cursor's position
    /// as `f|oo` where `|` is the cursor.
    pub char: usize,
}

/// What `Index::previous` returns for the cursor `idx` within the given lines.
pub open spec fn previous_index(idx: Index, infos: Seq<Info>) -> Option<Index> {
    if idx.char > 0 {
        if idx.line < infos.len() && idx.char - 1 <= infos[idx.line as int].char_count() {
            Some(Index { line: idx.line, char: (idx.char - 1) as usize })
        } else {
            None
        }
    } else if idx.line > 0 {
        if idx.line - 1 < infos.len() {
            Some(
                Index {
                    line: (idx.line - 1) as usize,
                    char: infos[idx.line - 1].char_count() as usize,
                },
            )
        } else {
            None
        }
    } else {
        None
    }
}

/// What `Index::next` returns for the cursor `idx` within the given lines.
pub open spec fn next_index(idx: Index, infos: Seq<Info>) -> Option<Index> {
    if idx.line < infos.len() {
        if idx.char >= infos[idx.line as int].char_count() {
            if idx.line + 1 < infos.len() {
                Some(Index { line: (idx.line + 1) as usize, char: 0 })
            } else {
                None
            }
        } else {
            Some(Index { line: idx.line, char: (idx.char + 1) as usize })
        }
    } else {
        None
    }
}

/// The given char index is one of the cursor positions of the line `info`: from its first char
/// up to the position at its end.
pub open spec fn line_holds_char(info: Info, char_index: usize) -> bool {
    info.start_char <= char_index <= info.end_break.char_of()
}

impl Index {
    /// The cursor index that comes before `self`.
    ///
    /// If `self` is at the beginning of the text, this returns `None`.
    ///
    /// If `self` is at the beginning of a line other than the first, this returns the last
    /// index position of the previous line.
    ///
    /// If `self` is a position other than the start of a line, it will return the position
    /// that is immediately to the left.
    pub fn previous(self, line_infos: &[Info]) -> (r: Option<Self>)
        ensures
            r == previous_index(self, line_infos@),
    {
        let Index { line, char } = self;
        if char > 0 {
            let new_char = char - 1;
            if line < line_infos.len() {
                let info = line_infos[line];
                if new_char <= info.char_range_len() {
                    Some(Index { line: line, char: new_char })
                } else {
                    None
                }
            } else {
                None
            }
        } else if line > 0 {
            let new_line = line - 1;
            if new_line < line_infos.len() {
                let info = line_infos[new_line];
                let new_char = info.char_range_len();
                Some(Index { line: new_line, char: new_char })
            } else {
                None
            }
        } else {
            None
        }
    }

    /// The cursor index that follows `self`.
    ///
    /// If `self` is at the end of the text, this returns `None`.
    ///
    /// If `self` is at the end of a line other than the last, this returns the first index of
    /// the next line.
    ///
    /// If `self` is a position other than the end of a line, it will return the position that
    /// is immediately to the right.
    pub fn next(self, line_infos: &[Info]) -> (r: Option<Self>)
        ensures
            r == next_index(self, line_infos@),
    {
        let Index { line, char } = self;
        if line < line_infos.len() {
            let info = line_infos[line];
            if char >= info.char_range_len() {
                if line + 1 < line_infos.len() {
                    Some(Index { line: line + 1, char: 0 })
                } else {
                    None
                }
            } else {
                Some(Index { line: line, char: char + 1 })
            }
        } else {
            None
        }
    }
}

/// Convert the given character index into a cursor `Index`.
///
/// The first line that has a cursor position at the char index is chosen; the index counts the
/// positions within that line.
pub fn index_before_char(line_infos: &[Info], char_index: usize) -> (r: Option<Index>)
    ensures
        match r {
            Some(idx) => {
                &&& idx.line < line_infos@.len()
                &&& line_holds_char(line_infos@[idx.line as int], char_index)
                &&& forall|j: int|
                    0 <= j < idx.line ==> !line_holds_char(#[trigger] line_infos@[j], char_index)
                &&& idx.char == char_index - line_infos@[idx.line as int].start_char
            },
            None => forall|j: int|
                0 <= j < line_infos@.len() ==> !line_holds_char(#[trigger] line_infos@[j], char_index),
        },
{
    let mut i: usize = 0;
    while i < line_infos.len()
        invariant
            0 <= i <= line_infos@.len(),
            forall|j: int| 0 <= j < i ==> !line_holds_char(#[trigger] line_infos@[j], char_index),
        decreases line_infos.len() - i,
    {
        let line_info = line_infos[i];
        let start_char = line_info.start_char;
        let end_char = line_info.end_char();
        if start_char <= char_index && char_index <= end_char {
            return Some(Index { line: i, char: char_index - start_char });
        }
        i = i + 1;
    }
    None
}

/// Moving the cursor forwards within a line and then backwards returns it to where it was.
pub proof fn law_previous_undoes_next_within_line(idx: Index, infos: Seq<Info>)
    requires
        infos.len() <= usize::MAX,
        next_index(idx, infos) matches Some(n) && n.line == idx.line,
    ensures
        previous_index(next_index(idx, infos).unwrap(), infos) == Some(idx),
{
}

/// Moving a cursor that lies within its line backwards within that line and then forwards
/// returns it to where it was.
pub proof fn law_next_undoes_previous_within_line(idx: Index, infos: Seq<Info>)
    requires
        idx.line < infos.len(),
        idx.char <= infos[idx.line as int].char_count(),
        previous_index(idx, infos) matches Some(p) && p.line == idx.line,
    ensures
        next_index(previous_index(idx, infos).unwrap(), infos) == Some(idx),
{
}

/// Moving forwards from the end of a line onto the next line, and then backwards, returns the
/// cursor to the end of that line.
pub proof fn law_previous_undoes_next_across_lines(idx: Index, infos: Seq<Info>)
    requires
        idx.line < infos.len(),
        idx.char == infos[idx.line as int].char_count(),
        next_index(idx, infos) matches Some(n) && n.line == idx.line + 1,
    ensures
        previous_index(next_index(idx, infos).unwrap(), infos) == Some(idx),
{
}

} // verus!

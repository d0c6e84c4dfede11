//! Text layout logic.

use vstd::prelude::*;
use vstd::utf8::{
    is_char_boundary, valid_utf8, valid_utf8_split, is_char_boundary_start_end_of_seq,
    is_char_boundary_iff_not_is_continuation_byte, encode_utf8_valid_utf8,
};
use vstd::string::StringSliceAdditionalSpecFns;

pub mod cursor;
pub mod font;
pub mod glyph;
pub mod line;

verus! {

/// An iterator yielding each line within the given `text` as a new `&str`, where the start and
/// end byte indices of each line are given by `ranges`.
#[derive(Clone)]
pub struct Lines<'a> {
    text: &'a str,
    ranges: Vec<std::ops::Range<usize>>,
    next_range: usize,
}

/// Whether `range` picks a whole number of characters out of the text whose UTF-8 encoding is
/// `bytes`: its ends are character boundaries, in order.
pub open spec fn is_line_range(bytes: Seq<u8>, range: std::ops::Range<usize>) -> bool {
    &&& range.start <= range.end
    &&& is_char_boundary(bytes, range.start as int)
    &&& is_char_boundary(bytes, range.end as int)
}

/// Produce an iterator yielding each line within the given `text` as a new `&str`, where the
/// start and end byte indices of each line are given by `ranges`.
pub fn lines<'a>(text: &'a str, ranges: Vec<std::ops::Range<usize>>) -> (r: Lines<'a>)
    ensures
        r.text() == text,
        r.remaining() == ranges@,
{
    Lines { text, ranges, next_range: 0 }
}

/// A character boundary of a text is one of any prefix of the text that holds it.
proof fn lemma_prefix_boundary(bytes: Seq<u8>, start: int, end: int)
    requires
        valid_utf8(bytes),
        is_char_boundary(bytes, start),
        is_char_boundary(bytes, end),
        start <= end,
    ensures
        is_char_boundary(bytes.subrange(0, end), start),
{
    is_char_boundary_start_end_of_seq(bytes);
    valid_utf8_split(bytes, end);
    let prefix = bytes.subrange(0, end);
    if start == end {
        is_char_boundary_start_end_of_seq(prefix);
    } else if start > 0 {
        is_char_boundary_iff_not_is_continuation_byte(bytes, start);
        is_char_boundary_iff_not_is_continuation_byte(prefix, start);
        assert(prefix[start] == bytes[start]);
    }
}

impl<'a> Lines<'a> {
    /// The text that the lines are taken from.
    pub closed spec fn text(&self) -> &'a str {
        self.text
    }

    /// The ranges of the lines that remain to be yielded.
    pub closed spec fn remaining(&self) -> Seq<std::ops::Range<usize>> {
        if self.next_range <= self.ranges@.len() {
            self.ranges@.subrange(self.next_range as int, self.ranges@.len() as int)
        } else {
            Seq::empty()
        }
    }

    /// Every remaining range picks whole characters out of the text.
    pub open spec fn wf(&self) -> bool {
        forall|i: int|
            0 <= i < self.remaining().len() ==> is_line_range(
                self.text().spec_bytes(),
                #[trigger] self.remaining()[i],
            )
    }

    /// Yields the text of the next line: the bytes of the text within its range.
    pub fn next(&mut self) -> (r: Option<&'a str>)
        requires
            old(self).wf(),
        ensures
            final(self).wf(),
            final(self).text() == old(self).text(),
            match r {
                None => old(self).remaining().len() == 0 && final(self).remaining().len() == 0,
                Some(line) => {
                    let range = old(self).remaining()[0];
                    &&& old(self).remaining().len() > 0
                    &&& line.spec_bytes() == old(self).text().spec_bytes().subrange(
                        range.start as int,
                        range.end as int,
                    )
                    &&& final(self).remaining() == old(self).remaining().drop_first()
                },
            },
    {
        if self.next_range >= self.ranges.len() {
            return None;
        }
        let ghost rem = self.remaining();
        assert(rem[0] == self.ranges@[self.next_range as int]);
        let start = self.ranges[self.next_range].start;
        let end = self.ranges[self.next_range].end;
        self.next_range = self.next_range + 1;
        assert(self.remaining() =~= rem.drop_first());
        assert(forall|i: int|
            0 <= i < self.remaining().len() ==> #[trigger] self.remaining()[i] == rem[i + 1]);
        let ghost bytes = self.text.spec_bytes();
        proof {
            encode_utf8_valid_utf8(self.text@);
            assert(is_line_range(bytes, rem[0]));
            lemma_prefix_boundary(bytes, start as int, end as int);
        }
        let (head, _) = self.text.split_at(end);
        let (_, line) = head.split_at(start);
        assert(line.spec_bytes() =~= bytes.subrange(start as int, end as int));
        Some(line)
    }
}

} // verus!

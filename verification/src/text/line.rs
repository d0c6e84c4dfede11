//! Text handling logic related to individual lines of text.
//!
//! This module is the core of multi-line text handling.

use vstd::prelude::*;
use vstd::string::{StrSliceExecFns, StringSliceAdditionalSpecFns};
use vstd::utf8::{encode_utf8, encode_scalar};

verus! {

/// The kinds of line break that may end a line of text.
#[derive(Copy, Clone, Debug, PartialEq, Eq, Structural)]
pub enum Break {
    /// A break caused by the text exceeding some maximum width.
    Wrap {
        /// The byte index at which the break occurs.
        byte: usize,
        /// The char index at which the string should wrap due to exceeding a maximum width.
        char: usize,
        /// The byte length which should be skipped in order to reach the first non-whitespace
        /// character to use as the beginning of the next line.
        len_bytes: usize,
    },
    /// A break caused by a newline character.
    Newline {
        /// The byte index at which the string should wrap due to exceeding a maximum width.
        byte: usize,
        /// The char index at which the string should wrap due to exceeding a maximum width.
        char: usize,
        /// The width of the "newline" token in bytes.
        len_bytes: usize,
    },
    /// The end of the string has been reached, with the given length.
    End {
        /// The ending byte index.
        byte: usize,
        /// The ending char index.
        char: usize,
    },
}

/// Information about a single line of text within a `&str`.
///
/// `Info` is a minimal amount of information that can be stored for efficient reasoning about
/// blocks of text given some `&str`. The `start` and `end_break` can be used for indexing into
/// the `&str`.
#[derive(Copy, Clone, Debug, PartialEq, Eq, Structural)]
pub struct Info {
    /// The index into the `&str` that represents the first character within the line.
    pub start_byte: usize,
    /// The character index of the first character in the line.
    pub start_char: usize,
    /// The index within the `&str` at which this line breaks into a new line, along with the
    /// index at which the following line begins. The variant describes whether the break is
    /// caused by a `Newline` character or a `Wrap` by the given wrap function.
    pub end_break: Break,
}

impl Break {
    /// The byte index at which the break occurs, whatever its kind.
    pub open spec fn byte_of(self) -> usize {
        match self {
            Break::Wrap { byte, .. } => byte,
            Break::Newline { byte, .. } => byte,
            Break::End { byte, .. } => byte,
        }
    }

    /// The char index at which the break occurs, whatever its kind.
    pub open spec fn char_of(self) -> usize {
        match self {
            Break::Wrap { char, .. } => char,
            Break::Newline { char, .. } => char,
            Break::End { char, .. } => char,
        }
    }

    /// Return the index at which the break occurs.
    pub fn byte_index(self) -> (r: usize)
        ensures
            r == self.byte_of(),
    {
        match self {
            Break::Wrap { byte, .. } | Break::Newline { byte, .. } | Break::End { byte, .. } => byte,
        }
    }

    /// Return the index of the `char` at which the break occurs.
    ///
    /// To clarify, this index is to be used in relation to the `Chars` iterator.
    pub fn char_index(self) -> (r: usize)
        ensures
            r == self.char_of(),
    {
        match self {
            Break::Wrap { char, .. } | Break::Newline { char, .. } | Break::End { char, .. } => char,
        }
    }
}

impl Info {
    /// The number of positions in the line's `char` range (zero when the range is empty).
    pub open spec fn char_count(self) -> nat {
        if self.end_break.char_of() >= self.start_char {
            (self.end_break.char_of() - self.start_char) as nat
        } else {
            0
        }
    }

    /// The end of the byte index range for indexing into the slice.
    pub fn end_byte(&self) -> (r: usize)
        ensures
            r == self.end_break.byte_of(),
    {
        self.end_break.byte_index()
    }

    /// The end of the index range for indexing into the slice.
    pub fn end_char(&self) -> (r: usize)
        ensures
            r == self.end_break.char_of(),
    {
        self.end_break.char_index()
    }

    /// The index range for indexing (via bytes) into the original str slice.
    pub fn byte_range(self) -> (r: std::ops::Range<usize>)
        ensures
            r.start == self.start_byte,
            r.end == self.end_break.byte_of(),
    {
        self.start_byte..self.end_byte()
    }

    /// The index range for indexing into a `char` iterator over the original str slice.
    pub fn char_range(self) -> (r: std::ops::Range<usize>)
        ensures
            r.start == self.start_char,
            r.end == self.end_break.char_of(),
    {
        self.start_char..self.end_char()
    }

    /// The length of `char_range`, as `Iterator::count` would give it.
    pub(crate) fn char_range_len(self) -> (r: usize)
        ensures
            r == self.char_count(),
    {
        let end = self.end_char();
        if end >= self.start_char {
            end - self.start_char
        } else {
            0
        }
    }
}

/// The number of bytes of the UTF-8 encoding of `cs`.
pub open spec fn utf8_len(cs: Seq<char>) -> nat {
    encode_utf8(cs).len()
}

/// Whether a line break starts at char `i` of `cs`: a `'\n'`, or a `'\r'` followed by a `'\n'`.
pub open spec fn is_newline_at(cs: Seq<char>, i: int) -> bool {
    cs[i] == '\n' || (cs[i] == '\r' && i + 1 < cs.len() && cs[i + 1] == '\n')
}

/// The length in bytes (and in chars) of the line break that starts at char `i` of `cs`.
pub open spec fn newline_len(cs: Seq<char>, i: int) -> usize {
    if cs[i] == '\n' {
        1
    } else {
        2
    }
}

/// The `Info` of each line of `cs` that begins at or after char `line_begin`, scanning from char
/// `j` (the chars from `line_begin` up to `j` hold no line break), where the current line starts
/// at byte `start_byte` and is counted as starting at char `start_char`.
///
/// A line ends at a line break with a `Newline` at the break's position; the next line starts
/// at the byte after the break and at the char count one past the break's position (so a
/// `"\r\n"` break counts as one char). The last line, if it is not empty, ends with `End` at the
/// end of the text.
pub open spec fn infos_scan(
    cs: Seq<char>,
    line_begin: int,
    j: int,
    start_byte: int,
    start_char: int,
) -> Seq<Info>
    decreases cs.len() - j,
{
    if j < 0 || j >= cs.len() {
        if 0 <= line_begin < cs.len() {
            seq![
                Info {
                    start_byte: start_byte as usize,
                    start_char: start_char as usize,
                    end_break: Break::End {
                        byte: (start_byte + utf8_len(cs.subrange(line_begin, cs.len() as int))) as usize,
                        char: (start_char + (cs.len() - line_begin)) as usize,
                    },
                },
            ]
        } else {
            Seq::empty()
        }
    } else if is_newline_at(cs, j) {
        let len = newline_len(cs, j);
        let byte = start_byte + utf8_len(cs.subrange(line_begin, j));
        let char = start_char + (j - line_begin);
        seq![
            Info {
                start_byte: start_byte as usize,
                start_char: start_char as usize,
                end_break: Break::Newline { byte: byte as usize, char: char as usize, len_bytes: len },
            },
        ] + infos_scan(cs, j + len, j + len, byte + len, char + 1)
    } else {
        infos_scan(cs, line_begin, j + 1, start_byte, start_char)
    }
}

/// The line `Info`s of `text`, broken at its line breaks only.
pub open spec fn line_infos(text: Seq<char>) -> Seq<Info> {
    infos_scan(text, 0, 0, 0, 0)
}

proof fn lemma_encode_append(a: Seq<char>, b: Seq<char>)
    ensures
        encode_utf8(a + b) == encode_utf8(a) + encode_utf8(b),
    decreases a.len(),
{
    if a.len() == 0 {
        assert(a + b =~= b);
        assert(encode_utf8(a) + encode_utf8(b) =~= encode_utf8(b));
    } else {
        lemma_encode_append(a.drop_first(), b);
        assert((a + b).drop_first() =~= a.drop_first() + b);
        assert(encode_utf8(a + b) =~= encode_scalar(a[0] as u32) + (encode_utf8(a.drop_first()) + encode_utf8(b)));
    }
}

/// The bytes of a range of chars extended by one char are those of the range and of the char.
proof fn lemma_utf8_len_extend(cs: Seq<char>, i: int, j: int)
    requires
        0 <= i <= j < cs.len(),
    ensures
        utf8_len(cs.subrange(i, j + 1)) == utf8_len(cs.subrange(i, j)) + encode_scalar(cs[j] as u32).len(),
{
    lemma_encode_append(cs.subrange(i, j), seq![cs[j]]);
    assert(cs.subrange(i, j + 1) =~= cs.subrange(i, j) + seq![cs[j]]);
    assert(encode_utf8(seq![cs[j]]) =~= encode_scalar(cs[j] as u32) + encode_utf8(seq![cs[j]].drop_first()));
    assert(seq![cs[j]].drop_first() =~= Seq::<char>::empty());
}

/// The bytes of a prefix are those of a shorter prefix and of the chars between.
proof fn lemma_utf8_len_split(cs: Seq<char>, i: int, j: int)
    requires
        0 <= i <= j <= cs.len(),
    ensures
        utf8_len(cs.take(j)) == utf8_len(cs.take(i)) + utf8_len(cs.subrange(i, j)),
        utf8_len(cs) == utf8_len(cs.take(j)) + utf8_len(cs.subrange(j, cs.len() as int)),
{
    lemma_encode_append(cs.take(i), cs.subrange(i, j));
    assert(cs.take(j) =~= cs.take(i) + cs.subrange(i, j));
    lemma_encode_append(cs.take(j), cs.subrange(j, cs.len() as int));
    assert(cs =~= cs.take(j) + cs.subrange(j, cs.len() as int));
}

/// Each line that a scan gives, but the last, ends at a line break, and the next line starts
/// at the byte just after that break and at the char count one past it.
proof fn lemma_scan_lines_follow_breaks(cs: Seq<char>, lb: int, j: int, sb: int, sc: int)
    requires
        0 <= lb <= j <= cs.len(),
        sb == utf8_len(cs.take(lb)),
        0 <= sc <= lb,
        utf8_len(cs) <= usize::MAX,
        cs.len() <= usize::MAX,
        forall|k: int| lb <= k < j ==> !is_newline_at(cs, k),
    ensures
        ({
            let r = infos_scan(cs, lb, j, sb, sc);
            &&& r.len() > 0 ==> r[0].start_byte == sb && r[0].start_char == sc
            &&& forall|i: int|
                0 <= i < r.len() - 1 ==> {
                    &&& (#[trigger] r[i]).end_break is Newline
                    &&& r[i + 1].start_byte == r[i].end_break->Newline_byte + r[i].end_break->Newline_len_bytes
                    &&& r[i + 1].start_char == r[i].end_break->Newline_char + 1
                }
        }),
    decreases cs.len() - j,
{
    lemma_utf8_len_split(cs, lb, cs.len() as int);
    if j < cs.len() {
        if is_newline_at(cs, j) {
            let len = newline_len(cs, j);
            let byte = sb + utf8_len(cs.subrange(lb, j));
            let char = sc + (j - lb);
            lemma_utf8_len_split(cs, lb, j);
            lemma_utf8_len_split(cs, j, j + len);
            lemma_utf8_len_extend(cs, j, j);
            assert(cs.subrange(j, j) =~= Seq::<char>::empty());
            if len == 2 {
                lemma_utf8_len_extend(cs, j, j + 1);
            }
            lemma_utf8_len_split(cs, j + len, cs.len() as int);
            lemma_scan_lines_follow_breaks(cs, j + len, j + len, byte + len, char + 1);
            let info = Info {
                start_byte: sb as usize,
                start_char: sc as usize,
                end_break: Break::Newline { byte: byte as usize, char: char as usize, len_bytes: len },
            };
            let rest = infos_scan(cs, j + len, j + len, byte + len, char + 1);
            let r = infos_scan(cs, lb, j, sb, sc);
            assert(r == seq![info] + rest);
            assert forall|i: int| 0 <= i < r.len() - 1 implies {
                &&& (#[trigger] r[i]).end_break is Newline
                &&& r[i + 1].start_byte == r[i].end_break->Newline_byte + r[i].end_break->Newline_len_bytes
                &&& r[i + 1].start_char == r[i].end_break->Newline_char + 1
            } by {
                if i > 0 {
                    assert(r[i] == rest[i - 1]);
                    assert(r[i + 1] == rest[i]);
                }
            }
        } else {
            lemma_scan_lines_follow_breaks(cs, lb, j + 1, sb, sc);
        }
    }
}

/// In a text whose length fits in memory, each line but the last ends at a line break, and the
/// next line starts at the byte just after that break, and at the char count one past the
/// break's position; the first line starts at the very beginning.
pub proof fn law_lines_follow_breaks(text: Seq<char>)
    requires
        utf8_len(text) <= usize::MAX,
        text.len() <= usize::MAX,
    ensures
        ({
            let r = line_infos(text);
            &&& r.len() > 0 ==> r[0].start_byte == 0 && r[0].start_char == 0
            &&& forall|i: int|
                0 <= i < r.len() - 1 ==> {
                    &&& (#[trigger] r[i]).end_break is Newline
                    &&& r[i + 1].start_byte == r[i].end_break->Newline_byte + r[i].end_break->Newline_len_bytes
                    &&& r[i + 1].start_char == r[i].end_break->Newline_char + 1
                }
        }),
{
    assert(text.take(0) =~= Seq::<char>::empty());
    lemma_scan_lines_follow_breaks(text, 0, 0, 0, 0);
}

/// The number of bytes of the UTF-8 encoding of `c`.
fn char_utf8_len(c: char) -> (r: usize)
    ensures
        r == encode_scalar(c as u32).len(),
        1 <= r <= 4,
{
    let v = c as u32;
    if v <= 0x7F {
        1
    } else if v <= 0x7FF {
        2
    } else if v <= 0xFFFF {
        3
    } else {
        4
    }
}

/// The chars of `text`, in order.
fn chars_of(text: &str) -> (r: Vec<char>)
    ensures
        r@ == text@,
{
    let n = text.unicode_len();
    let mut chars: Vec<char> = Vec::new();
    let mut i: usize = 0;
    while i < n
        invariant
            i <= n,
            n == text@.len(),
            chars@ == text@.take(i as int),
        decreases n - i,
    {
        chars.push(text.get_char(i));
        i = i + 1;
        assert(chars@ =~= text@.take(i as int));
    }
    assert(chars@ =~= text@);
    chars
}

/// The line that begins at byte `start_byte` and char `start_char` of a text of `text_len`
/// bytes, given the break that a break function found in the rest of the text (its indices
/// counted from the line's start), with where the next line begins.
pub open spec fn next_info_spec(text_len: usize, start_byte: usize, start_char: usize, next: Break)
    -> Option<(Info, usize, usize)>
{
    match next {
        Break::Newline { byte, char, len_bytes } => Some((
            Info {
                start_byte,
                start_char,
                end_break: Break::Newline {
                    byte: (start_byte + byte) as usize,
                    char: (start_char + char) as usize,
                    len_bytes,
                },
            },
            (start_byte + byte + len_bytes) as usize,
            (start_char + char + 1) as usize,
        )),
        Break::Wrap { byte, char, len_bytes } => Some((
            Info {
                start_byte,
                start_char,
                end_break: Break::Wrap {
                    byte: (start_byte + byte) as usize,
                    char: (start_char + char) as usize,
                    len_bytes,
                },
            },
            (start_byte + byte + len_bytes) as usize,
            (start_char + char + 1) as usize,
        )),
        Break::End { char, .. } => if start_byte < text_len {
            Some((
                Info {
                    start_byte,
                    start_char,
                    end_break: Break::End { byte: text_len, char: (start_char + char) as usize },
                },
                text_len,
                (start_char + char) as usize,
            ))
        } else {
            None
        },
    }
}

/// One step of the iteration over the lines of a text wrapped by some break function: the
/// `Info` of the line that begins at byte `start_byte` and char `start_char`, given the break
/// that the break function found in the rest of the text, along with the byte and char at
/// which the next line begins. Where the rest of the text is empty and ends there, there is no
/// line.
pub fn next_info(text_len: usize, start_byte: usize, start_char: usize, next: Break) -> (r: Option<(
    Info,
    usize,
    usize,
)>)
    requires
        match next {
            Break::Newline { byte, char, len_bytes } | Break::Wrap { byte, char, len_bytes } =>
                start_byte + byte + len_bytes <= usize::MAX && start_char + char + 1 <= usize::MAX,
            Break::End { char, .. } => start_char + char <= usize::MAX,
        },
    ensures
        r == next_info_spec(text_len, start_byte, start_char, next),
{
    match next {
        Break::Newline { byte, char, len_bytes } => {
            let info = Info {
                start_byte,
                start_char,
                end_break: Break::Newline { byte: start_byte + byte, char: start_char + char, len_bytes },
            };
            Some((info, start_byte + byte + len_bytes, start_char + char + 1))
        },
        Break::Wrap { byte, char, len_bytes } => {
            let info = Info {
                start_byte,
                start_char,
                end_break: Break::Wrap { byte: start_byte + byte, char: start_char + char, len_bytes },
            };
            Some((info, start_byte + byte + len_bytes, start_char + char + 1))
        },
        Break::End { char, .. } => {
            if start_byte < text_len {
                let total_chars = start_char + char;
                let info = Info {
                    start_byte,
                    start_char,
                    end_break: Break::End { byte: text_len, char: total_chars },
                };
                Some((info, text_len, total_chars))
            } else {
                None
            }
        },
    }
}

/// Produces an `Info` for every line in the given text, breaking each line only at the line
/// breaks within the text (either `\n` or `\r\n`); see `infos_scan`.
pub fn infos(text: &str) -> (r: Vec<Info>)
    ensures
        r@ == line_infos(text@),
{
    let cs = chars_of(text);
    let ghost s = cs@;
    let bytes = text.as_bytes();
    let total: usize = bytes.len();
    assert(total == utf8_len(s));
    let n = cs.len();
    let mut result: Vec<Info> = Vec::new();
    let mut line_begin: usize = 0;
    let mut j: usize = 0;
    let mut start_byte: usize = 0;
    let mut start_char: usize = 0;
    let mut byte: usize = 0;
    assert(s.take(0) =~= Seq::<char>::empty());
    assert(s.subrange(0, 0) =~= Seq::<char>::empty());
    while j < n
        invariant
            n == s.len(),
            s == text@,
            cs@ == s,
            total == utf8_len(s),
            line_begin <= j <= n,
            start_char <= line_begin,
            start_byte == utf8_len(s.take(line_begin as int)),
            byte == start_byte + utf8_len(s.subrange(line_begin as int, j as int)),
            result@ + infos_scan(s, line_begin as int, j as int, start_byte as int, start_char as int)
                == line_infos(s),
        decreases n - j,
    {
        proof {
            lemma_utf8_len_split(s, line_begin as int, j as int);
        }
        let c = cs[j];
        if c == '\n' || (c == '\r' && j + 1 < n && cs[j + 1] == '\n') {
            let len: usize = if c == '\n' {
                1
            } else {
                2
            };
            let char = start_char + (j - line_begin);
            proof {
                lemma_utf8_len_extend(s, j as int, j as int);
                assert(s.subrange(j as int, j as int) =~= Seq::<char>::empty());
                lemma_utf8_len_split(s, j as int, (j + len) as int);
                if len == 2 {
                    lemma_utf8_len_extend(s, j as int, j as int + 1);
                }
                lemma_utf8_len_split(s, line_begin as int, j as int);
            }
            result.push(
                Info {
                    start_byte,
                    start_char,
                    end_break: Break::Newline { byte, char, len_bytes: len },
                },
            );
            j = j + len;
            line_begin = j;
            start_byte = byte + len;
            start_char = char + 1;
            byte = start_byte;
            assert(s.subrange(line_begin as int, j as int) =~= Seq::<char>::empty());
        } else {
            proof {
                lemma_utf8_len_extend(s, line_begin as int, j as int);
                lemma_utf8_len_split(s, line_begin as int, (j + 1) as int);
            }
            byte = byte + char_utf8_len(c);
            j = j + 1;
        }
    }
    if line_begin < n {
        result.push(
            Info {
                start_byte,
                start_char,
                end_break: Break::End { byte, char: start_char + (n - line_begin) },
            },
        );
    }
    result
}

/// The break that breaking at line breaks only finds in the text from char `p`, scanning from
/// char `j`: the first line break at or after `j`, or the end of the text, with indices counted
/// from `p`.
pub open spec fn newline_break_from(cs: Seq<char>, p: int, j: int) -> Break
    decreases cs.len() - j,
{
    if j < 0 || j >= cs.len() {
        Break::End {
            byte: utf8_len(cs.subrange(p, cs.len() as int)) as usize,
            char: (cs.len() - p) as usize,
        }
    } else if is_newline_at(cs, j) {
        Break::Newline {
            byte: utf8_len(cs.subrange(p, j)) as usize,
            char: (j - p) as usize,
            len_bytes: newline_len(cs, j),
        }
    } else {
        newline_break_from(cs, p, j + 1)
    }
}

/// The lines that stepping with `next_info` gives (at most `fuel` of them), from char `p` of
/// the text, where the line starts at byte `sb` and is counted as char `sc`, each step breaking
/// at the next line break.
pub open spec fn stepped_lines(cs: Seq<char>, p: int, sb: usize, sc: usize, fuel: nat) -> Seq<Info>
    decreases fuel,
{
    if fuel == 0 {
        Seq::empty()
    } else {
        let b = newline_break_from(cs, p, p);
        match next_info_spec(utf8_len(cs) as usize, sb, sc, b) {
            Some((info, nb, nc)) => {
                let np = match b {
                    Break::Newline { char, len_bytes, .. } => p + char + len_bytes,
                    _ => cs.len() as int,
                };
                seq![info] + stepped_lines(cs, np, nb, nc, (fuel - 1) as nat)
            },
            None => Seq::empty(),
        }
    }
}

proof fn lemma_stepped_matches_scan(cs: Seq<char>, lb: int, j: int, sb: int, sc: int, fuel: nat)
    requires
        0 <= lb <= j <= cs.len(),
        sb == utf8_len(cs.take(lb)),
        0 <= sc <= lb,
        utf8_len(cs) <= usize::MAX,
        cs.len() < usize::MAX,
        fuel > cs.len() - lb + 1,
        forall|k: int| lb <= k < j ==> !is_newline_at(cs, k),
        newline_break_from(cs, lb, lb) == newline_break_from(cs, lb, j),
    ensures
        infos_scan(cs, lb, j, sb, sc) == stepped_lines(cs, lb, sb as usize, sc as usize, fuel),
    decreases cs.len() - j,
{
    lemma_utf8_len_split(cs, lb, cs.len() as int);
    let total = utf8_len(cs);
    if j >= cs.len() {
        let rest = cs.subrange(lb, cs.len() as int);
        if lb < cs.len() {
            lemma_utf8_len_extend(cs, lb, lb);
            assert(cs.subrange(lb, lb) =~= Seq::<char>::empty());
            lemma_utf8_len_split(cs, lb, lb + 1);
            lemma_utf8_len_split(cs, lb + 1, cs.len() as int);
            assert(sb < total);
        } else {
            assert(rest =~= Seq::<char>::empty());
            assert(sb == total);
        }
        let b = newline_break_from(cs, lb, lb);
        assert(b == Break::End { byte: utf8_len(rest) as usize, char: (cs.len() - lb) as usize });
        if lb < cs.len() {
            let f1 = (fuel - 1) as nat;
            assert(cs.subrange(cs.len() as int, cs.len() as int) =~= Seq::<char>::empty());
            assert(newline_break_from(cs, cs.len() as int, cs.len() as int) == Break::End { byte: 0, char: 0 });
            assert(stepped_lines(cs, cs.len() as int, total as usize, (sc + cs.len() - lb) as usize, f1) =~= Seq::<Info>::empty());
        }
    } else if is_newline_at(cs, j) {
        let len = newline_len(cs, j);
        let byte = sb + utf8_len(cs.subrange(lb, j));
        let char = sc + (j - lb);
        lemma_utf8_len_split(cs, lb, j);
        lemma_utf8_len_split(cs, j, j + len);
        lemma_utf8_len_extend(cs, j, j);
        assert(cs.subrange(j, j) =~= Seq::<char>::empty());
        if len == 2 {
            lemma_utf8_len_extend(cs, j, j + 1);
        }
        lemma_utf8_len_split(cs, j + len, cs.len() as int);
        assert(newline_break_from(cs, j + len, j + len) == newline_break_from(cs, j + len, j + len));
        lemma_stepped_matches_scan(cs, j + len, j + len, byte + len, char + 1, (fuel - 1) as nat);
    } else {
        lemma_stepped_matches_scan(cs, lb, j + 1, sb, sc, fuel);
    }
}

/// The lines that `infos` gives are those that stepping with `next_info` gives, from the start
/// of the text, where each step's break is the next line break (or the end of the text).
pub proof fn law_infos_step_by_next_info(text: Seq<char>)
    requires
        utf8_len(text) <= usize::MAX,
        text.len() < usize::MAX,
    ensures
        line_infos(text) == stepped_lines(text, 0, 0, 0, (text.len() + 2) as nat),
{
    assert(text.take(0) =~= Seq::<char>::empty());
    lemma_stepped_matches_scan(text, 0, 0, 0, 0, (text.len() + 2) as nat);
}

} // verus!

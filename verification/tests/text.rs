use conrod::text::cursor::{index_before_char, Index};
use conrod::text::font::{from_bytes, Error, FontMap};
use conrod::text::glyph::index_after_cursor;
use conrod::text::line::{next_info, Break, Info};
use conrod::text::lines;

/// "foo\nbar baz" laid out as "foo", "bar" (wrapped) and "baz".
fn infos() -> Vec<Info> {
    vec![
        Info { start_byte: 0, start_char: 0, end_break: Break::Newline { byte: 3, char: 3, len_bytes: 1 } },
        Info { start_byte: 4, start_char: 4, end_break: Break::Wrap { byte: 7, char: 7, len_bytes: 1 } },
        Info { start_byte: 8, start_char: 8, end_break: Break::End { byte: 11, char: 11 } },
    ]
}

#[test]
fn break_indices_whatever_the_kind() {
    assert_eq!(Break::Wrap { byte: 5, char: 4, len_bytes: 1 }.byte_index(), 5);
    assert_eq!(Break::Wrap { byte: 5, char: 4, len_bytes: 1 }.char_index(), 4);
    assert_eq!(Break::Newline { byte: 7, char: 6, len_bytes: 2 }.byte_index(), 7);
    assert_eq!(Break::End { byte: 9, char: 8 }.char_index(), 8);
}

#[test]
fn line_info_ranges() {
    let info = infos()[1];
    assert_eq!(info.end_byte(), 7);
    assert_eq!(info.end_char(), 7);
    assert_eq!(info.byte_range(), 4..7);
    assert_eq!(info.char_range(), 4..7);
}

#[test]
fn cursor_moves_within_and_across_lines() {
    let infos = infos();
    assert_eq!(Index { line: 0, char: 1 }.next(&infos), Some(Index { line: 0, char: 2 }));
    assert_eq!(Index { line: 0, char: 3 }.next(&infos), Some(Index { line: 1, char: 0 }));
    assert_eq!(Index { line: 2, char: 3 }.next(&infos), None);
    assert_eq!(Index { line: 5, char: 0 }.next(&infos), None);
    assert_eq!(Index { line: 0, char: 2 }.previous(&infos), Some(Index { line: 0, char: 1 }));
    assert_eq!(Index { line: 1, char: 0 }.previous(&infos), Some(Index { line: 0, char: 3 }));
    assert_eq!(Index { line: 0, char: 0 }.previous(&infos), None);
    assert_eq!(Index { line: 2, char: 0 }.previous(&infos), Some(Index { line: 1, char: 3 }));
}

#[test]
fn previous_from_a_line_start_gives_the_last_position_of_the_line_above() {
    let infos = conrod::text::line::infos("ab\ncd\nef");
    assert_eq!(Index { line: 2, char: 0 }.previous(&infos), Some(Index { line: 1, char: 2 }));
}

#[test]
fn previous_undoes_next_within_a_line() {
    let infos = infos();
    let idx = Index { line: 2, char: 1 };
    assert_eq!(idx.next(&infos).unwrap().previous(&infos), Some(idx));
}

#[test]
fn char_index_to_cursor_and_back() {
    let infos = infos();
    assert_eq!(index_before_char(&infos, 2), Some(Index { line: 0, char: 2 }));
    assert_eq!(index_before_char(&infos, 6), Some(Index { line: 1, char: 2 }));
    assert_eq!(index_before_char(&infos, 4), Some(Index { line: 1, char: 0 }));
    assert_eq!(index_before_char(&infos, 3), Some(Index { line: 0, char: 3 }));
    assert_eq!(index_before_char(&infos, 12), None);
    assert_eq!(index_before_char(&infos, 13), None);
    assert_eq!(index_after_cursor(&infos, Index { line: 1, char: 2 }), Some(6));
    assert_eq!(index_after_cursor(&infos, Index { line: 1, char: 9 }), None);
    assert_eq!(index_after_cursor(&infos, Index { line: 7, char: 0 }), None);
    let idx = index_before_char(&infos, 9).unwrap();
    assert_eq!(index_after_cursor(&infos, idx), Some(9));
}

#[test]
fn lines_yields_the_text_of_each_range() {
    let text = "foo\nbär baz";
    let mut ls = lines(text, vec![0..3, 4..8, 9..12]);
    assert_eq!(ls.next(), Some("foo"));
    assert_eq!(ls.next(), Some("bär"));
    assert_eq!(ls.next(), Some("baz"));
    assert_eq!(ls.next(), None);
    assert_eq!(ls.next(), None);
}

#[test]
fn from_bytes_rejects_data_that_is_no_font() {
    match from_bytes(vec![1, 2, 3, 4, 5, 6, 7, 8]) {
        Err(Error::NoFont) => {},
        _ => panic!("expected no font"),
    }
}

#[test]
fn empty_font_map_has_no_fonts() {
    let map = FontMap::new();
    let mut ids = map.ids();
    assert!(ids.next().is_none());
}

#[test]
fn infos_break_only_at_newlines() {
    use_infos_case(
        "ab\ncd",
        vec![
            Info { start_byte: 0, start_char: 0, end_break: Break::Newline { byte: 2, char: 2, len_bytes: 1 } },
            Info { start_byte: 3, start_char: 3, end_break: Break::End { byte: 5, char: 5 } },
        ],
    );
}

#[test]
fn infos_treat_carriage_return_newline_as_one_break() {
    use_infos_case(
        "ab\r\ncd",
        vec![
            Info { start_byte: 0, start_char: 0, end_break: Break::Newline { byte: 2, char: 2, len_bytes: 2 } },
            Info { start_byte: 4, start_char: 3, end_break: Break::End { byte: 6, char: 5 } },
        ],
    );
}

#[test]
fn infos_give_no_line_after_a_final_newline() {
    use_infos_case(
        "abc\n",
        vec![Info { start_byte: 0, start_char: 0, end_break: Break::Newline { byte: 3, char: 3, len_bytes: 1 } }],
    );
    use_infos_case("", vec![]);
}

#[test]
fn infos_count_bytes_of_multibyte_chars() {
    use_infos_case(
        "é\nx\ry",
        vec![
            Info { start_byte: 0, start_char: 0, end_break: Break::Newline { byte: 2, char: 1, len_bytes: 1 } },
            Info { start_byte: 3, start_char: 2, end_break: Break::End { byte: 6, char: 5 } },
        ],
    );
}

fn use_infos_case(text: &str, expected: Vec<Info>) {
    assert_eq!(conrod::text::line::infos(text), expected);
}

#[test]
fn next_info_steps_over_newlines_wraps_and_the_end() {
    // "ab\ncd": a newline found after two chars of the line that starts at the text's start.
    let (info, byte, char) = next_info(5, 0, 0, Break::Newline { byte: 2, char: 2, len_bytes: 1 }).unwrap();
    assert_eq!(info, Info { start_byte: 0, start_char: 0, end_break: Break::Newline { byte: 2, char: 2, len_bytes: 1 } });
    assert_eq!((byte, char), (3, 3));
    // The rest, "cd", ends the text.
    let (info, byte, char) = next_info(5, 3, 3, Break::End { byte: 2, char: 2 }).unwrap();
    assert_eq!(info, Info { start_byte: 3, start_char: 3, end_break: Break::End { byte: 5, char: 5 } });
    assert_eq!((byte, char), (5, 5));
    // Nothing is left after the end.
    assert_eq!(next_info(5, 5, 5, Break::End { byte: 0, char: 0 }), None);
    // A wrap at a whitespace skips it.
    let (info, byte, char) = next_info(11, 0, 0, Break::Wrap { byte: 5, char: 5, len_bytes: 1 }).unwrap();
    assert_eq!(info.end_break, Break::Wrap { byte: 5, char: 5, len_bytes: 1 });
    assert_eq!((byte, char), (6, 6));
}

#[test]
fn next_info_with_newline_breaks_gives_the_lines_of_infos() {
    let text = "ab\ncd";
    let mut lines = Vec::new();
    let mut state = (0, 0);
    let breaks = [Break::Newline { byte: 2, char: 2, len_bytes: 1 }, Break::End { byte: 2, char: 2 }, Break::End { byte: 0, char: 0 }];
    for b in breaks.iter() {
        match next_info(text.len(), state.0, state.1, *b) {
            Some((info, byte, char)) => {
                lines.push(info);
                state = (byte, char);
            },
            None => break,
        }
    }
    assert_eq!(lines, conrod::text::line::infos(text));
}

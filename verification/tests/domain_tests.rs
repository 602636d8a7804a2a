use textedit::domain::buffer::Buffer;
use textedit::domain::cursor::{Cursor, Selection};
use textedit::domain::operations::{Operation, OperationHistory};
use textedit::domain::position::Position;

#[test]
fn test_buffer_new_is_empty() {
    let buffer = Buffer::new();
    assert_eq!(buffer.len_chars(), 0);
}

#[test]
fn test_buffer_from_str() {
    let buffer = Buffer::from_str("hello");
    assert_eq!(buffer.len_chars(), 5);
    assert_eq!(buffer.as_str(), "hello");
}

#[test]
fn test_buffer_insert() {
    let mut buffer = Buffer::from_str("hello");
    buffer.insert(2, "X");
    assert_eq!(buffer.as_str(), "heXllo");
}

#[test]
fn test_buffer_remove() {
    let mut buffer = Buffer::from_str("hello");
    buffer.remove(0, 2);
    assert_eq!(buffer.as_str(), "llo");
}

#[test]
fn test_buffer_get_char() {
    let buffer = Buffer::from_str("hello");
    assert_eq!(buffer.get_char(0), Some('h'));
    assert_eq!(buffer.get_char(4), Some('o'));
}

#[test]
fn test_buffer_len() {
    let buffer = Buffer::from_str("hello");
    assert_eq!(buffer.len_chars(), 5);
}

#[test]
fn test_buffer_len_lines() {
    let buffer = Buffer::from_str("line1\nline2");
    assert_eq!(buffer.len_lines(), 2);
}

#[test]
fn test_buffer_as_str() {
    let buffer = Buffer::from_str("hello world");
    assert_eq!(buffer.as_str(), "hello world");
}

#[test]
fn test_buffer_clear() {
    let mut buffer = Buffer::from_str("hello");
    buffer.clear();
    assert_eq!(buffer.len_chars(), 0);
}

#[test]
fn test_buffer_set_content() {
    let mut buffer = Buffer::new();
    buffer.set_content("test");
    assert_eq!(buffer.as_str(), "test");
}

#[test]
fn test_buffer_clone() {
    let buffer1 = Buffer::from_str("hello");
    let buffer2 = buffer1.clone();
    assert_eq!(buffer1.as_str(), buffer2.as_str());
}

#[test]
fn test_buffer_default() {
    let buffer = Buffer::default();
    assert_eq!(buffer.len_chars(), 0);
}

#[test]
fn buffer_insert_then_remove_restores_text() {
    let mut buffer = Buffer::from_str("héllo wörld");
    buffer.insert(3, "ÅB");
    assert_eq!(buffer.as_str(), "hélÅBlo wörld");
    buffer.remove(3, 2);
    assert_eq!(buffer.as_str(), "héllo wörld");
}

#[test]
fn buffer_remove_then_insert_restores_text() {
    let mut buffer = Buffer::from_str("abcdef");
    let removed: String = "cd".to_string();
    buffer.remove(2, 2);
    assert_eq!(buffer.as_str(), "abef");
    buffer.insert(2, &removed);
    assert_eq!(buffer.as_str(), "abcdef");
}

#[test]
fn buffer_lines_and_columns() {
    let buffer = Buffer::from_str("hello\nworld\r\nend");
    assert_eq!(buffer.len_lines(), 3);
    assert_eq!(buffer.line(1), Some("world\r\n".to_string()));
    assert_eq!(buffer.line(5), None);
    assert_eq!(buffer.line_len_chars(0), 6);
    assert_eq!(buffer.char_to_line_col(7), (1, 1));
    assert_eq!(buffer.line_col_to_char(2, 1), Some(14));
    assert_eq!(buffer.line_col_to_char(0, 9), None);
    assert_eq!(buffer.line_to_char(1), 6);
    assert_eq!(buffer.get_char(99), None);
}

#[test]
fn buffer_duplicate_is_independent() {
    let buffer = Buffer::from_str("abc");
    let mut copy = buffer.duplicate();
    copy.insert(3, "d");
    assert_eq!(buffer.as_str(), "abc");
    assert_eq!(copy.as_str(), "abcd");
}

#[test]
fn test_selection_new() {
    let sel = Selection::new(5, 10);
    assert_eq!(sel.start, 5);
    assert_eq!(sel.end, 10);
}

#[test]
fn test_selection_range() {
    let sel = Selection::new(5, 10);
    let (start, end) = sel.range();
    assert_eq!(start, 5);
    assert_eq!(end, 10);
}

#[test]
fn test_selection_range_reverse() {
    let sel = Selection::new(10, 5);
    let (start, end) = sel.range();
    assert_eq!(start, 5);
    assert_eq!(end, 10);
}

#[test]
fn test_selection_is_empty() {
    let sel = Selection::new(5, 5);
    assert!(sel.is_empty());
    let sel2 = Selection::new(5, 10);
    assert!(!sel2.is_empty());
}

#[test]
fn selection_len_either_way() {
    assert_eq!(Selection::new(3, 9).len(), 6);
    assert_eq!(Selection::new(9, 3).len(), 6);
}

#[test]
fn test_cursor_new() {
    let cursor = Cursor::new();
    assert_eq!(cursor.position(), 0);
    assert!(cursor.selection().is_none());
}

#[test]
fn test_cursor_set_position() {
    let mut cursor = Cursor::new();
    cursor.set_position(10);
    assert_eq!(cursor.position(), 10);
}

#[test]
fn test_cursor_extend_selection() {
    let mut cursor = Cursor::new();
    cursor.set_position(5);
    cursor.extend_selection(10);
    assert_eq!(cursor.position(), 10);
    assert!(cursor.selection().is_some());
}

#[test]
fn test_cursor_clear_selection() {
    let mut cursor = Cursor::new();
    cursor.set_selection_start(5);
    cursor.set_selection_end(10);
    assert!(cursor.selection().is_some());
    cursor.clear_selection();
    assert!(cursor.selection().is_none());
}

#[test]
fn test_cursor_move_forward() {
    let mut cursor = Cursor::new();
    cursor.set_position(5);
    cursor.move_forward(20);
    assert_eq!(cursor.position(), 6);
}

#[test]
fn test_cursor_move_backward() {
    let mut cursor = Cursor::new();
    cursor.set_position(5);
    cursor.move_backward();
    assert_eq!(cursor.position(), 4);
}

#[test]
fn test_cursor_move_to_line_start() {
    let buffer = Buffer::from_str("hello\nworld");
    let mut cursor = Cursor::new();
    cursor.set_position(8);
    cursor.move_to_line_start(&buffer);
    assert_eq!(cursor.position(), 6);
}

#[test]
fn test_cursor_move_to_line_end() {
    let buffer = Buffer::from_str("hello\nworld");
    let mut cursor = Cursor::new();
    cursor.set_position(6);
    cursor.move_to_line_end(&buffer);
    assert_eq!(cursor.position(), 11);
}

#[test]
fn test_cursor_move_up() {
    let buffer = Buffer::from_str("hello\nworld");
    let mut cursor = Cursor::new();
    cursor.set_position(8);
    cursor.move_up(&buffer);
    assert_eq!(cursor.position(), 2);
}

#[test]
fn test_cursor_move_down() {
    let buffer = Buffer::from_str("hello\nworld");
    let mut cursor = Cursor::new();
    cursor.set_position(2);
    cursor.move_down(&buffer);
    assert_eq!(cursor.position(), 8);
}

#[test]
fn test_cursor_select_line() {
    let buffer = Buffer::from_str("hello\nworld");
    let mut cursor = Cursor::new();
    cursor.set_position(7);
    cursor.select_line(&buffer);
    assert!(cursor.selection().is_some());
}

#[test]
fn test_cursor_select_word_at_cursor() {
    let buffer = Buffer::from_str("hello world");
    let mut cursor = Cursor::new();
    cursor.set_position(7);
    cursor.select_word_at_cursor(&buffer);
    assert!(cursor.selection().is_some());
}

#[test]
fn test_cursor_select_range() {
    let mut cursor = Cursor::new();
    cursor.select_range(5, 10);
    assert!(cursor.selection().is_some());
    let sel = cursor.selection().unwrap();
    assert_eq!(sel.start, 5);
    assert_eq!(sel.end, 10);
}

#[test]
fn cursor_word_moves() {
    let buffer = Buffer::from_str("foo  bar_baz qux");
    let mut cursor = Cursor::new();
    cursor.set_position(6);
    cursor.move_to_word_start(&buffer);
    assert_eq!(cursor.position(), 5);
    cursor.set_position(1);
    cursor.move_to_word_end(&buffer);
    assert_eq!(cursor.position(), 3);
    cursor.move_to_word_end(&buffer);
    assert_eq!(cursor.position(), 12);
    cursor.set_position(7);
    cursor.select_word_at_cursor(&buffer);
    let sel = cursor.selection().unwrap();
    assert_eq!((sel.start, sel.end), (5, 12));
}

#[test]
fn cursor_moves_up_and_down_by_column() {
    let buffer = Buffer::from_str("abcdef\nabcdef");
    let mut cursor = Cursor::new();
    cursor.set_position(10);
    cursor.move_up(&buffer);
    assert_eq!(cursor.position(), 3);
    cursor.move_down(&buffer);
    assert_eq!(cursor.position(), 10);
}

#[test]
fn cursor_move_backward_stops_at_zero() {
    let mut cursor = Cursor::new();
    cursor.move_backward();
    assert_eq!(cursor.position(), 0);
    cursor.set_position(3);
    cursor.move_forward(3);
    assert_eq!(cursor.position(), 3);
}

#[test]
fn test_position_new() {
    let pos = Position::new(5, 10);
    assert_eq!(pos.line, 5);
    assert_eq!(pos.column, 10);
}

#[test]
fn test_position_default() {
    let pos = Position::default();
    assert_eq!(pos.line, 0);
    assert_eq!(pos.column, 0);
}

#[test]
fn test_position_from_char_index() {
    let buffer = Buffer::from_str("hello\nworld");
    let pos = Position::from_char_index(&buffer, 0);
    assert_eq!(pos.line, 0);
    assert_eq!(pos.column, 0);

    let pos = Position::from_char_index(&buffer, 5);
    assert_eq!(pos.line, 0);
    assert_eq!(pos.column, 5);

    let pos = Position::from_char_index(&buffer, 6);
    assert_eq!(pos.line, 1);
    assert_eq!(pos.column, 0);
}

#[test]
fn test_position_from_char_index_end_of_buffer() {
    let buffer = Buffer::from_str("hi");
    let pos = Position::from_char_index(&buffer, 1);
    assert_eq!(pos.line, 0);
    assert_eq!(pos.column, 1);
}

#[test]
fn test_position_to_char_index() {
    let buffer = Buffer::from_str("hello\nworld");
    let pos = Position::new(0, 0);
    assert_eq!(pos.to_char_index(&buffer), Some(0));

    let pos = Position::new(0, 5);
    assert_eq!(pos.to_char_index(&buffer), Some(5));

    let pos = Position::new(1, 0);
    assert_eq!(pos.to_char_index(&buffer), Some(6));

    let pos = Position::new(1, 5);
    assert_eq!(pos.to_char_index(&buffer), Some(11));
}

#[test]
fn test_position_to_char_index_out_of_bounds() {
    let buffer = Buffer::from_str("hi");
    let pos = Position::new(10, 0);
    assert_eq!(pos.to_char_index(&buffer), None);

    let pos = Position::new(0, 100);
    assert_eq!(pos.to_char_index(&buffer), None);
}

#[test]
fn test_position_partial_eq() {
    let pos1 = Position::new(1, 2);
    let pos2 = Position::new(1, 2);
    let pos3 = Position::new(1, 3);
    assert_eq!(pos1, pos2);
    assert_ne!(pos1, pos3);
}

#[test]
fn test_position_clone_copy() {
    let pos1 = Position::new(1, 2);
    let pos2 = pos1;
    assert_eq!(pos1, pos2);

    let pos3 = pos1.clone();
    assert_eq!(pos1, pos3);
}

#[test]
fn position_round_trip_through_index() {
    let buffer = Buffer::from_str("ab\ncdé\nf");
    for idx in 0..=buffer.len_chars() {
        let pos = Position::from_char_index(&buffer, idx);
        assert_eq!(pos.to_char_index(&buffer), Some(idx));
    }
}

#[test]
fn history_undo_then_redo() {
    let mut history = OperationHistory::new();
    assert!(!history.can_undo());
    history.push(Operation::Insert { position: 0, text: "ab".to_string() });
    assert!(history.can_undo());
    match history.undo() {
        Some(Operation::Insert { position, text }) => {
            assert_eq!(position, 0);
            assert_eq!(text, "ab");
        }
        _ => panic!("expected the insert"),
    }
    assert!(history.can_redo());
    match history.redo() {
        Some(Operation::Delete { position, text }) => {
            assert_eq!(position, 0);
            assert_eq!(text, "ab");
        }
        _ => panic!("expected its reverse"),
    }
    assert!(!history.can_redo());
    assert!(history.can_undo());
    history.clear();
    assert!(!history.can_undo());
    assert!(history.undo().is_none());
}

#[test]
fn history_push_clears_redo() {
    let mut history = OperationHistory::default();
    history.push(Operation::Delete { position: 1, text: "x".to_string() });
    history.undo();
    assert!(history.can_redo());
    history.push(Operation::Insert { position: 0, text: "y".to_string() });
    assert!(!history.can_redo());
}

#[test]
fn word_end_stops_after_the_word() {
    let buffer = Buffer::from_str("hello world");
    let mut cursor = Cursor::new();
    cursor.move_to_word_end(&buffer);
    assert_eq!(cursor.position(), 5);
    assert!(cursor.selection().is_none());
    cursor.move_to_word_end(&buffer);
    assert_eq!(cursor.position(), 11);
    let mut other = Cursor::new();
    other.extend_selection_to_word_end(&buffer);
    assert_eq!(other.position(), 5);
    let sel = other.selection().unwrap();
    assert_eq!((sel.start, sel.end), (0, 5));
}

#[test]
fn select_line_counts_chars() {
    let wide = Buffer::from_str("h\u{e9}llo");
    let mut cursor = Cursor::new();
    cursor.select_line(&wide);
    let sel = cursor.selection().unwrap();
    assert_eq!((sel.start, sel.end), (0, 5));
    assert_eq!(cursor.position(), 5);

    let two = Buffer::from_str("hello\nworld");
    let mut second = Cursor::new();
    second.set_position(7);
    second.select_line(&two);
    let sel = second.selection().unwrap();
    assert_eq!((sel.start, sel.end), (6, 11));
    assert_eq!(second.position(), 11);

    let mut first = Cursor::new();
    first.set_position(2);
    first.select_line(&two);
    let sel = first.selection().unwrap();
    assert_eq!((sel.start, sel.end), (0, 6));
}

#[test]
fn line_end_stops_before_the_break() {
    let buffer = Buffer::from_str("hello\nworld");
    let mut cursor = Cursor::new();
    cursor.set_position(2);
    cursor.move_to_line_end(&buffer);
    assert_eq!(cursor.position(), 5);
    assert!(cursor.selection().is_none());

    let crlf = Buffer::from_str("ab\r\ncd");
    let mut other = Cursor::new();
    other.move_to_line_end(&crlf);
    assert_eq!(other.position(), 2);

    let wide = Buffer::from_str("h\u{e9}\nx");
    let mut third = Cursor::new();
    third.move_to_line_end(&wide);
    assert_eq!(third.position(), 2);
}

#[test]
fn vertical_moves_stay_on_the_next_line() {
    let up = Buffer::from_str("ab\nabcd");
    let mut cursor = Cursor::new();
    cursor.set_position(6);
    cursor.move_up(&up);
    assert_eq!(cursor.position(), 2);

    let down = Buffer::from_str("abcd\nab\nx");
    let mut other = Cursor::new();
    other.set_position(4);
    other.move_down(&down);
    assert_eq!(other.position(), 7);

    let mut third = Cursor::new();
    third.set_position(4);
    third.extend_selection_down(&down);
    assert_eq!(third.position(), 7);
    let sel = third.selection().unwrap();
    assert_eq!((sel.start, sel.end), (4, 7));
}

#[test]
fn undo_hands_edits_back_last_first() {
    let mut history = OperationHistory::new();
    history.push(Operation::Insert { position: 0, text: "a".to_string() });
    history.push(Operation::Insert { position: 1, text: "b".to_string() });
    history.push(Operation::Delete { position: 0, text: "c".to_string() });
    let positions_and_texts: Vec<(usize, String)> = (0..3)
        .map(|_| match history.undo().unwrap() {
            Operation::Insert { position, text } => (position, text),
            Operation::Delete { position, text } => (position, text),
        })
        .collect();
    assert_eq!(
        positions_and_texts,
        vec![(0, "c".to_string()), (1, "b".to_string()), (0, "a".to_string())]
    );
    assert!(!history.can_undo());
    assert!(history.can_redo());
    assert!(history.undo().is_none());
}

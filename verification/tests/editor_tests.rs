use textedit::editor::buffer::TextBuffer;
use textedit::editor::document::{decode_lossless, Document, FileEncoding, LineEnding};
use textedit::domain::buffer::Buffer;
use textedit::editor::cursor::Cursor as EditorCursor;

#[test]
fn test_new_buffer() {
    let buf = TextBuffer::new();
    assert!(buf.len() == 0);
    assert!(!buf.is_modified());
}

#[test]
fn test_insert() {
    let mut buf = TextBuffer::new();
    buf.insert(0, "Hello");
    assert_eq!(buf.get_text(), "Hello");
    assert!(buf.is_modified());
}

#[test]
fn test_lines() {
    let buf = TextBuffer::from_string("Line 1\nLine 2\nLine 3");
    assert_eq!(buf.num_lines(), 3);
    assert_eq!(buf.line(0), Some("Line 1".to_string()));
    assert_eq!(buf.line(1), Some("Line 2".to_string()));
    assert_eq!(buf.line(2), Some("Line 3".to_string()));
}

#[test]
fn test_remove() {
    let mut buf = TextBuffer::from_string("Hello World");
    buf.remove(5, 11);
    assert_eq!(buf.get_text(), "Hello");
}

#[test]
fn buffer_test_modified_flag() {
    let mut buf = TextBuffer::new();
    assert!(!buf.is_modified());
    buf.insert(0, "test");
    assert!(buf.is_modified());
    buf.set_modified(false);
    assert!(!buf.is_modified());
}

#[test]
fn text_buffer_lines_follow_str_lines() {
    let buf = TextBuffer::from_string("a\r\nbb\n\nc\r");
    assert_eq!(buf.num_lines(), 4);
    assert_eq!(buf.line(0), Some("a".to_string()));
    assert_eq!(buf.line(1), Some("bb".to_string()));
    assert_eq!(buf.line(2), Some("".to_string()));
    assert_eq!(buf.line(3), Some("c\r".to_string()));
    assert_eq!(buf.line(4), None);
    assert_eq!(buf.line_len(1), Some(2));
    assert_eq!(buf.line_len(9), None);
    assert_eq!(TextBuffer::from_string("x\n").num_lines(), 1);
    assert_eq!(TextBuffer::from_string("").num_lines(), 0);
}

#[test]
fn text_buffer_byte_offsets() {
    let buf = TextBuffer::from_string("héllo\nwörld\nend");
    assert_eq!(buf.len(), 15);
    assert_eq!(buf.char_at(1), Some('é'));
    assert_eq!(buf.char_at(15), None);
    assert_eq!(buf.line_to_byte(0), Some(0));
    assert_eq!(buf.line_to_byte(1), Some(7));
    assert_eq!(buf.line_to_byte(2), Some(14));
    assert_eq!(buf.line_to_byte(3), None);
    assert_eq!(buf.byte_to_char(3), Some(3));
    assert_eq!(buf.byte_to_char(17), None);
    assert_eq!(buf.get_text_range(0, 3), "hé");
    assert_eq!(buf.get_text_range(7, 100), "wörld\nend");
    assert_eq!(buf.get_text_range(5, 5), "");
}

#[test]
fn text_buffer_line_navigation() {
    let buf = TextBuffer::from_string("ab\ncde\nf");
    assert_eq!(buf.char_to_line(0), 0);
    assert_eq!(buf.char_to_line(4), 1);
    assert_eq!(buf.char_to_line(100), 2);
    assert_eq!(buf.line_beginning(5), 3);
    assert_eq!(buf.line_beginning(3), 3);
    assert_eq!(buf.line_beginning(1), 0);
    assert_eq!(buf.line_ending(4), 6);
    assert_eq!(buf.line_ending(8), 8);
    assert_eq!(buf.next_line(0), 3);
    assert_eq!(buf.next_line(4), 7);
    assert_eq!(buf.next_line(7), 8);
    assert_eq!(buf.prev_line(4), 0);
    assert_eq!(buf.prev_line(1), 0);
    assert_eq!(buf.prev_line(8), 3);
}

#[test]
fn text_buffer_words() {
    let buf = TextBuffer::from_string("héllo, wörld_1 !x");
    assert_eq!(buf.words(), vec![(0, 6), (8, 16), (18, 19)]);
    assert_eq!(TextBuffer::from_string("  ").words(), vec![]);
}

#[test]
fn text_buffer_insert_then_remove_restores_text() {
    let mut buf = TextBuffer::from_string("héllo");
    buf.insert(3, "ÅÄ");
    assert_eq!(buf.get_text(), "héÅÄllo");
    buf.remove(3, 7);
    assert_eq!(buf.get_text(), "héllo");
}

#[test]
fn text_buffer_insert_past_end_appends() {
    let mut buf = TextBuffer::from_string("ab");
    buf.insert(99, "c");
    assert_eq!(buf.get_text(), "abc");
    buf.remove(2, 1);
    assert_eq!(buf.get_text(), "abc");
}

#[test]
fn text_buffer_clone_keeps_id_and_text() {
    let buf = TextBuffer::from_string("x");
    let copy = buf.clone();
    assert_eq!(buf.id(), copy.id());
    assert_eq!(copy.get_text(), "x");
    assert_ne!(TextBuffer::new().id(), TextBuffer::new().id());
}

#[test]
fn test_new_document() {
    let doc = Document::new();
    assert!(doc.is_untitled());
    assert!(!doc.is_modified());
    assert_eq!(doc.encoding, FileEncoding::Utf8);
}

#[test]
fn test_from_text() {
    let doc = Document::from_text("Line 1\r\nLine 2");
    assert_eq!(doc.line_ending, LineEnding::Crlf);
}

#[test]
fn test_line_ending_detection() {
    assert_eq!(LineEnding::from_str("hello\r\nworld"), LineEnding::Crlf);
    assert_eq!(LineEnding::from_str("hello\nworld"), LineEnding::Lf);
    assert_eq!(LineEnding::from_str("hello\rworld"), LineEnding::Cr);
}

#[test]
fn test_save_and_load() {
    let mut doc = Document::new();
    doc.buffer = TextBuffer::from_string("Hello, World!");
    let bytes = doc.encoded_content();
    doc.mark_saved("/tmp/hello.txt".to_string());

    let mut doc2 = Document::new();
    doc2.load_bytes("/tmp/hello.txt".to_string(), &bytes);

    assert_eq!(doc2.buffer.get_text(), "Hello, World!");
}

#[test]
fn test_convert_line_endings() {
    let mut doc = Document::from_text("Line 1\nLine 2");

    doc.convert_line_endings(LineEnding::Crlf);
    assert!(doc.buffer.get_text().contains("\r\n"));
}

#[test]
fn test_file_name() {
    let mut doc = Document::new();
    assert_eq!(doc.file_name(), "Untitled");

    doc.file_path = Some("/path/to/test.txt".to_string());
    assert_eq!(doc.file_name(), "test.txt");
}

#[test]
fn document_test_modified_flag() {
    let mut doc = Document::new();
    assert!(!doc.is_modified());

    doc.buffer.insert(0, "test");
    assert!(doc.is_modified());

    doc.set_modified(false);
    assert!(!doc.is_modified());
}

#[test]
fn line_ending_names() {
    assert_eq!(LineEnding::Crlf.as_str(), "\r\n");
    assert_eq!(LineEnding::Lf.name(), "LF");
    assert_eq!(LineEnding::Cr.name(), "CR");
    assert_eq!(LineEnding::default(), LineEnding::Crlf);
    assert_eq!(LineEnding::from_str("no breaks"), LineEnding::Lf);
    assert_eq!(LineEnding::from_str("a\rb\r\nc"), LineEnding::Crlf);
}

#[test]
fn file_encoding_names() {
    assert_eq!(FileEncoding::Utf8.name(), "UTF-8");
    assert_eq!(FileEncoding::Utf16Le.name(), "UTF-16 LE");
    assert_eq!(FileEncoding::Ascii.name(), "ASCII");
    assert_eq!(FileEncoding::default(), FileEncoding::Utf8);
    assert_eq!(FileEncoding::from_name("UTF-16BE"), FileEncoding::Utf16Be);
    assert_eq!(FileEncoding::from_name("windows-1252"), FileEncoding::Other);
    assert_eq!(FileEncoding::from_encoding(encoding_rs::UTF_16LE), FileEncoding::Utf16Le);
    assert_eq!(FileEncoding::from_encoding(encoding_rs::UTF_8), FileEncoding::Utf8);
    assert_eq!(FileEncoding::from_encoding(encoding_rs::SHIFT_JIS), FileEncoding::Other);
    assert_eq!(FileEncoding::from_encoding(encoding_rs::UTF_16BE), FileEncoding::Utf16Be);
}

#[test]
fn file_name_of_plain_and_odd_paths() {
    let mut doc = Document::new();
    doc.file_path = Some("notes.txt".to_string());
    assert_eq!(doc.file_name(), "notes.txt");
    doc.file_path = Some("/".to_string());
    assert_eq!(doc.file_name(), "Untitled");
    doc.file_path = Some("dir/..".to_string());
    assert_eq!(doc.file_name(), "Untitled");
    doc.file_path = Some(String::new());
    assert_eq!(doc.file_name(), "Untitled");
    doc.file_path = Some("a/b/".to_string());
    assert_eq!(doc.file_name(), "b");
}

#[test]
fn decode_picks_the_encoding() {
    let (text, enc) = decode_lossless("grüße".as_bytes());
    assert_eq!(text, "grüße");
    assert_eq!(enc, FileEncoding::Utf8);
    let (text, enc) = decode_lossless(&[0xFF, 0xFE, b'h', 0, b'i', 0]);
    assert_eq!(text, "hi");
    assert_eq!(enc, FileEncoding::Utf16Le);
    let (text, enc) = decode_lossless(&[0xFE, 0xFF, 0, b'o', 0, b'k']);
    assert_eq!(text, "ok");
    assert_eq!(enc, FileEncoding::Utf16Be);
    let (text, enc) = decode_lossless(&[b'a', 0xC3, b'b']);
    assert_eq!(text, "a\u{FFFD}b");
    assert_eq!(enc, FileEncoding::Utf8);
}

#[test]
fn save_then_load_gives_back_the_text() {
    let mut doc = Document::from_text("zwölf\r\nélan");
    doc.encoding = FileEncoding::Utf16Be;
    let bytes = doc.encoded_content();
    assert_eq!(bytes, "zwölf\r\nélan".as_bytes().to_vec());
    let mut loaded = Document::new();
    loaded.load_bytes("f.txt".to_string(), &bytes);
    assert_eq!(loaded.buffer.get_text(), "zwölf\r\nélan");
    assert_eq!(loaded.encoding, FileEncoding::Utf8);
    assert_eq!(loaded.line_ending, LineEnding::Crlf);
    assert_eq!(loaded.file_path, Some("f.txt".to_string()));
    assert!(!loaded.is_modified());
    assert_eq!(loaded.get_path_string(), "f.txt");
}

#[test]
fn line_endings_convert_both_ways() {
    let mut doc = Document::from_text("a\nb\n");
    assert_eq!(doc.line_ending, LineEnding::Lf);
    doc.convert_line_endings(LineEnding::Crlf);
    assert_eq!(doc.buffer.get_text(), "a\r\nb\r\n");
    doc.convert_line_endings(LineEnding::Lf);
    assert_eq!(doc.buffer.get_text(), "a\nb\n");
    doc.convert_line_endings(LineEnding::Cr);
    assert_eq!(doc.buffer.get_text(), "a\rb\r");
    doc.convert_line_endings(LineEnding::Crlf);
    assert_eq!(doc.buffer.get_text(), "a\r\nb\r\n");
    doc.convert_line_endings(LineEnding::Crlf);
    assert_eq!(doc.buffer.get_text(), "a\r\nb\r\n");
}

#[test]
fn untitled_path_string() {
    let doc = Document::default();
    assert_eq!(doc.get_path_string(), "Untitled");
    assert_eq!(doc.file_name(), "Untitled");
}

#[test]
fn lf_cr_round_trip() {
    let mut doc = Document::from_text("x\ny\n\nz");
    doc.convert_line_endings(LineEnding::Cr);
    assert_eq!(doc.buffer.get_text(), "x\ry\r\rz");
    doc.convert_line_endings(LineEnding::Lf);
    assert_eq!(doc.buffer.get_text(), "x\ny\n\nz");
}

#[test]
fn editor_cursor_moves_by_words_and_lines() {
    let buffer = Buffer::from_str("hello world\r\nab");
    let mut cursor = EditorCursor::new();
    cursor.move_to_word_end(&buffer);
    assert_eq!(cursor.position(), 5);
    cursor.move_to_line_end(&buffer);
    assert_eq!(cursor.position(), 11);
    cursor.move_down(&buffer);
    assert_eq!(cursor.position(), 15);
    cursor.select_line(&buffer);
    let sel = cursor.selection().unwrap();
    assert_eq!((sel.start, sel.end), (13, 15));
    let mut other = EditorCursor::new();
    other.extend_selection_to_word_end(&buffer);
    let sel = other.selection().unwrap();
    assert_eq!((sel.start, sel.end), (0, 5));
}

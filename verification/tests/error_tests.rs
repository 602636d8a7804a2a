use std::io;
use textedit::error::EditorError;

#[test]
fn test_editor_error_display_io() {
    let err = EditorError::IoError(io::Error::new(io::ErrorKind::NotFound, "file not found"));
    let msg = err.to_string();
    assert!(msg.contains("File operation failed"));
}

#[test]
fn test_editor_error_display_buffer() {
    let err = EditorError::BufferError("out of bounds".to_string());
    let msg = err.to_string();
    assert!(msg.contains("Buffer error"));
    assert!(msg.contains("out of bounds"));
}

#[test]
fn test_editor_error_display_invalid_position() {
    let err = EditorError::InvalidPosition(5, 10);
    let msg = err.to_string();
    assert!(msg.contains("Invalid position"));
    assert!(msg.contains("5"));
    assert!(msg.contains("10"));
}

#[test]
fn test_editor_error_display_clipboard() {
    let err = EditorError::ClipboardError("access denied".to_string());
    let msg = err.to_string();
    assert!(msg.contains("Clipboard error"));
}

#[test]
fn test_editor_error_from_io_error() {
    let io_err = io::Error::new(io::ErrorKind::NotFound, "test error");
    let editor_err: EditorError = io_err.into();

    match editor_err {
        EditorError::IoError(_e) => {
            assert!(true);
        }
        _ => panic!("Expected IoError"),
    }
}

#[test]
fn test_editor_error_debug() {
    let err = EditorError::BufferError("test".to_string());
    let debug_str = format!("{:?}", err);
    assert!(debug_str.contains("BufferError"));
}

#[test]
fn editor_error_messages_exactly() {
    assert_eq!(
        EditorError::IoError(io::Error::new(io::ErrorKind::Other, "disk full")).to_string(),
        "File operation failed: disk full"
    );
    assert_eq!(EditorError::BufferError("x".to_string()).to_string(), "Buffer error: x");
    assert_eq!(
        EditorError::InvalidPosition(3, 41).to_string(),
        "Invalid position: line 3, column 41"
    );
    assert_eq!(EditorError::InvalidPosition(0, 0).to_string(), "Invalid position: line 0, column 0");
    assert_eq!(EditorError::ClipboardError("no".to_string()).to_string(), "Clipboard error: no");
    assert_eq!(EditorError::RenderError("r".to_string()).to_string(), "Render error: r");
    assert_eq!(EditorError::WindowError("w".to_string()).to_string(), "Window error: w");
    assert_eq!(EditorError::GpuError("g".to_string()).to_string(), "GPU error: g");
    assert_eq!(EditorError::ConfigError("c".to_string()).to_string(), "Configuration error: c");
    assert_eq!(EditorError::SyntaxError("s".to_string()).to_string(), "Syntax highlighting error: s");
    assert_eq!(EditorError::InvalidTheme("t".to_string()).to_string(), "Invalid theme: t");
}

use textedit::infrastructure::clipboard::ArboardClipboard;
use textedit::infrastructure::file_system::NativeFileSystem;

#[test]
fn test_arboard_clipboard_new() {
    let _clipboard = ArboardClipboard::new();
    assert!(true);
}

#[test]
fn test_arboard_clipboard_default() {
    let _clipboard = ArboardClipboard::default();
    assert!(true);
}

#[test]
fn test_native_file_system_new() {
    let _fs = NativeFileSystem::new();
    assert!(true);
}

#[test]
fn test_native_file_system_default() {
    let _fs = NativeFileSystem::default();
    assert!(true);
}

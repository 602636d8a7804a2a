use textedit::application::EditorService;
use textedit::editor::command_bar::{ActiveField, CommandBarMode, CommandBarState};
use textedit::editor::keyboard::KeyboardController as EditorKeyboard;
use textedit::editor::Editor;
use textedit::interface::app::{
    apply_click, editor_theme_for, handle_menu_action, next_click_count, EditorTheme, MenuEffect,
};
use textedit::interface::keyboard::{
    paste_text, KeyCode, KeyEvent, KeyboardController, ModifiersState,
};
use textedit::menu::{menu_action_for_id, menu_action_for_label, MenuAction};

fn key(code: KeyCode) -> KeyEvent {
    KeyEvent { pressed: true, physical_key: Some(code), text: None }
}

fn typed(text: &str) -> KeyEvent {
    KeyEvent { pressed: true, physical_key: Some(KeyCode::Other), text: Some(text.to_string()) }
}

fn ctrl() -> ModifiersState {
    ModifiersState { control: true, shift: false, alt: false, super_key: false }
}

fn shift() -> ModifiersState {
    ModifiersState { control: false, shift: true, alt: false, super_key: false }
}

fn editor_with(text: &str, caret: usize) -> EditorService {
    let mut editor = EditorService::new();
    editor.load_content(text.to_string());
    editor.cursor_mut().set_position(caret);
    editor
}

#[test]
fn typing_inserts_at_the_caret() {
    let mut editor = editor_with("ac", 1);
    let mut keys = KeyboardController::new();
    assert!(keys.handle_key_event(&mut editor, typed("bé")).0);
    assert_eq!(editor.buffer().as_str(), "abéc");
    assert_eq!(editor.cursor().position(), 3);
    assert!(editor.is_modified());
}

#[test]
fn control_text_is_not_typed() {
    let mut editor = editor_with("a", 1);
    let mut keys = KeyboardController::new();
    assert!(!keys.handle_key_event(&mut editor, typed("\u{7}")).0);
    assert!(!keys.handle_key_event(&mut editor, KeyEvent { pressed: false, physical_key: Some(KeyCode::Other), text: Some("x".to_string()) }).0);
    assert_eq!(editor.buffer().as_str(), "a");
}

#[test]
fn backspace_then_undo_restores_text() {
    let mut editor = editor_with("abc", 2);
    let mut keys = KeyboardController::new();
    keys.handle_key_event(&mut editor, key(KeyCode::Backspace));
    assert_eq!(editor.buffer().as_str(), "ac");
    assert_eq!(editor.cursor().position(), 1);
    keys.set_modifiers(ctrl());
    keys.handle_key_event(&mut editor, key(KeyCode::KeyZ));
    assert_eq!(editor.buffer().as_str(), "abc");
}

#[test]
fn delete_then_undo_restores_text() {
    let mut editor = editor_with("héllo", 1);
    let mut keys = KeyboardController::new();
    keys.handle_key_event(&mut editor, key(KeyCode::Delete));
    assert_eq!(editor.buffer().as_str(), "hllo");
    keys.set_modifiers(ctrl());
    keys.handle_key_event(&mut editor, key(KeyCode::KeyZ));
    assert_eq!(editor.buffer().as_str(), "héllo");
}

#[test]
fn selection_delete_then_undo_restores_text() {
    let mut editor = editor_with("hello world", 0);
    editor.cursor_mut().select_range(2, 7);
    let mut keys = KeyboardController::new();
    keys.handle_key_event(&mut editor, key(KeyCode::Backspace));
    assert_eq!(editor.buffer().as_str(), "heorld");
    assert_eq!(editor.cursor().position(), 2);
    keys.set_modifiers(ctrl());
    keys.handle_key_event(&mut editor, key(KeyCode::KeyZ));
    assert_eq!(editor.buffer().as_str(), "hello world");
}

#[test]
fn typing_ascii_then_undo_restores_text() {
    let mut editor = editor_with("ab", 1);
    let mut keys = KeyboardController::new();
    keys.handle_key_event(&mut editor, typed("x"));
    assert_eq!(editor.buffer().as_str(), "axb");
    keys.set_modifiers(ctrl());
    keys.handle_key_event(&mut editor, key(KeyCode::KeyZ));
    assert_eq!(editor.buffer().as_str(), "ab");
}

#[test]
fn undo_of_a_wide_char_restores_text() {
    let mut editor = editor_with("abc", 1);
    let mut keys = KeyboardController::new();
    keys.handle_key_event(&mut editor, typed("é"));
    assert_eq!(editor.buffer().as_str(), "aébc");
    keys.set_modifiers(ctrl());
    keys.handle_key_event(&mut editor, key(KeyCode::KeyZ));
    assert_eq!(editor.buffer().as_str(), "abc");
    assert_eq!(editor.cursor().position(), 1);
    keys.handle_key_event(&mut editor, key(KeyCode::KeyY));
    assert_eq!(editor.buffer().as_str(), "aébc");
}

#[test]
fn paste_of_wide_text_moves_by_chars_and_undoes() {
    let mut editor = editor_with("ab", 1);
    paste_text(&mut editor, "日本".to_string());
    assert_eq!(editor.buffer().as_str(), "a日本b");
    assert_eq!(editor.cursor().position(), 3);
    let mut keys = KeyboardController::new();
    keys.set_modifiers(ctrl());
    keys.handle_key_event(&mut editor, key(KeyCode::KeyZ));
    assert_eq!(editor.buffer().as_str(), "ab");
}

#[test]
fn find_prev_passes_over_the_selected_match() {
    let mut editor = editor_with("abc abc", 0);
    editor.set_find_query(Some("abc".to_string()));
    assert!(editor.find_next());
    assert!(editor.find_next());
    let sel = editor.cursor().selection().unwrap();
    assert_eq!((sel.start, sel.end), (4, 7));
    assert_eq!(editor.cursor().position(), 7);
    assert!(editor.find_prev());
    let sel = editor.cursor().selection().unwrap();
    assert_eq!((sel.start, sel.end), (0, 3));
    assert_eq!(editor.cursor().position(), 3);
    assert!(editor.find_prev());
    let sel = editor.cursor().selection().unwrap();
    assert_eq!((sel.start, sel.end), (4, 7));
}

#[test]
fn special_keys_move_and_edit() {
    let mut editor = editor_with("one\ntwo", 5);
    let mut keys = KeyboardController::new();
    keys.handle_key_event(&mut editor, key(KeyCode::Home));
    assert_eq!(editor.cursor().position(), 4);
    keys.handle_key_event(&mut editor, key(KeyCode::End));
    assert_eq!(editor.cursor().position(), 7);
    keys.handle_key_event(&mut editor, key(KeyCode::ArrowUp));
    assert_eq!(editor.cursor().position(), 3);
    keys.handle_key_event(&mut editor, key(KeyCode::Enter));
    assert_eq!(editor.buffer().as_str(), "one\n\ntwo");
    keys.handle_key_event(&mut editor, key(KeyCode::Tab));
    assert_eq!(editor.buffer().as_str(), "one\n    \ntwo");
    keys.set_modifiers(shift());
    keys.handle_key_event(&mut editor, key(KeyCode::Tab));
    assert_eq!(editor.buffer().as_str(), "one\n\ntwo");
    assert_eq!(editor.cursor().position(), 4);
    keys.handle_key_event(&mut editor, key(KeyCode::ArrowLeft));
    let sel = editor.cursor().selection().unwrap();
    assert_eq!((sel.start, sel.end), (4, 3));
    keys.set_modifiers(ModifiersState::empty());
    keys.handle_key_event(&mut editor, key(KeyCode::Escape));
    assert!(editor.cursor().selection().is_none());
    assert!(!keys.handle_key_event(&mut editor, key(KeyCode::Other)).0);
}

#[test]
fn ctrl_a_selects_all_and_find_keys_set_a_query() {
    let mut editor = editor_with("abc", 0);
    let mut keys = KeyboardController::new();
    keys.set_modifiers(ctrl());
    assert!(keys.handle_key_event(&mut editor, key(KeyCode::KeyA)).0);
    let sel = editor.cursor().selection().unwrap();
    assert_eq!((sel.start, sel.end), (0, 3));
    assert!(keys.handle_key_event(&mut editor, key(KeyCode::KeyF)).0);
    assert_eq!(editor.find_query(), Some(""));
    assert!(!keys.handle_key_event(&mut editor, key(KeyCode::Other)).0);
}

#[test]
fn paste_then_undo_restores_text() {
    let mut editor = editor_with("ab", 1);
    paste_text(&mut editor, "xyz".to_string());
    assert_eq!(editor.buffer().as_str(), "axyzb");
    assert_eq!(editor.cursor().position(), 4);
    let mut keys = KeyboardController::new();
    keys.set_modifiers(ctrl());
    keys.handle_key_event(&mut editor, key(KeyCode::KeyZ));
    assert_eq!(editor.buffer().as_str(), "ab");
}

#[test]
fn paste_replaces_the_selection() {
    let mut editor = editor_with("hello", 0);
    editor.cursor_mut().select_range(1, 4);
    paste_text(&mut editor, "EY".to_string());
    assert_eq!(editor.buffer().as_str(), "hEYo");
    assert_eq!(editor.cursor().position(), 3);
}

#[test]
fn find_next_and_prev_select_matches() {
    let mut editor = editor_with("cat hat cat", 0);
    editor.set_find_query(Some("cat".to_string()));
    assert!(editor.find_next());
    let sel = editor.cursor().selection().unwrap();
    assert_eq!((sel.start, sel.end), (0, 3));
    assert!(editor.find_next());
    let sel = editor.cursor().selection().unwrap();
    assert_eq!((sel.start, sel.end), (8, 11));
    assert!(editor.find_next());
    let sel = editor.cursor().selection().unwrap();
    assert_eq!((sel.start, sel.end), (0, 3));
    editor.cursor_mut().set_position(5);
    assert!(editor.find_prev());
    let sel = editor.cursor().selection().unwrap();
    assert_eq!((sel.start, sel.end), (0, 3));
    editor.set_find_query(Some("dog".to_string()));
    assert!(!editor.find_next());
    editor.set_find_query(None);
    assert!(!editor.find_prev());
}

#[test]
fn menu_cut_copy_paste_and_select_all() {
    let mut editor = editor_with("hello", 0);
    editor.cursor_mut().select_range(1, 3);
    match handle_menu_action(&mut editor, &MenuAction::Copy, None) {
        MenuEffect::SetClipboard(t) => assert_eq!(t, "el"),
        _ => panic!("expected the copied text"),
    }
    match handle_menu_action(&mut editor, &MenuAction::Cut, None) {
        MenuEffect::SetClipboard(t) => assert_eq!(t, "el"),
        _ => panic!("expected the cut text"),
    }
    assert_eq!(editor.buffer().as_str(), "hlo");
    handle_menu_action(&mut editor, &MenuAction::Paste, Some("EL".to_string()));
    assert_eq!(editor.buffer().as_str(), "hELlo");
    handle_menu_action(&mut editor, &MenuAction::SelectAll, None);
    let sel = editor.cursor().selection().unwrap();
    assert_eq!((sel.start, sel.end), (0, 5));
    handle_menu_action(&mut editor, &MenuAction::Undo, None);
    assert_eq!(editor.buffer().as_str(), "hlo");
}

#[test]
fn menu_save_and_themes() {
    let mut editor = editor_with("text", 0);
    match handle_menu_action(&mut editor, &MenuAction::Save, None) {
        MenuEffect::SaveDialog { current_path, content } => {
            assert!(current_path.is_none());
            assert_eq!(content, "text");
        }
        _ => panic!("expected a save dialog"),
    }
    editor.set_file_path("/tmp/t.txt".to_string());
    match handle_menu_action(&mut editor, &MenuAction::Save, None) {
        MenuEffect::WriteFile { path, content } => {
            assert_eq!(path, "/tmp/t.txt");
            assert_eq!(content, "text");
        }
        _ => panic!("expected a write"),
    }
    match handle_menu_action(&mut editor, &MenuAction::SetEditorTheme("OneDark".to_string()), None) {
        MenuEffect::SetEditorTheme(t) => assert_eq!(t, EditorTheme::OneDark),
        _ => panic!("expected a theme"),
    }
    assert_eq!(editor_theme_for("nope"), EditorTheme::Dracula);
    assert_eq!(editor_theme_for("Light"), EditorTheme::Light);
    handle_menu_action(&mut editor, &MenuAction::ToggleLineNumbers, None);
    assert!(!editor.show_line_numbers());
    handle_menu_action(&mut editor, &MenuAction::New, None);
    assert_eq!(editor.buffer().as_str(), "");
    assert!(editor.file_path().is_none());
}

#[test]
fn menu_ids_and_labels() {
    assert!(matches!(menu_action_for_id("save_as"), Some(MenuAction::SaveAs)));
    assert!(matches!(menu_action_for_id("find_prev"), Some(MenuAction::FindPrev)));
    match menu_action_for_id("theme_ui_SolarizedDark") {
        Some(MenuAction::SetEditorTheme(t)) => assert_eq!(t, "SolarizedDark"),
        _ => panic!("expected an editor theme"),
    }
    match menu_action_for_id("theme_base16-ocean") {
        Some(MenuAction::SetTheme(t)) => assert_eq!(t, "base16-ocean"),
        _ => panic!("expected a syntax theme"),
    }
    assert!(menu_action_for_id("Save").is_none());
    assert!(matches!(menu_action_for_label("Save As"), Some(MenuAction::SaveAs)));
    assert!(matches!(menu_action_for_label("Quit textedit"), Some(MenuAction::Quit)));
    assert!(menu_action_for_label("save_as").is_none());
}

#[test]
fn clicks_count_and_select() {
    assert_eq!(next_click_count(1, true), 2);
    assert_eq!(next_click_count(2, true), 3);
    assert_eq!(next_click_count(3, true), 3);
    assert_eq!(next_click_count(2, false), 1);
    let mut editor = editor_with("one two\nthree", 5);
    apply_click(&mut editor, 2, 0);
    let sel = editor.cursor().selection().unwrap();
    assert_eq!((sel.start, sel.end), (4, 7));
    apply_click(&mut editor, 1, 9);
    assert_eq!(editor.cursor().position(), 9);
    assert!(editor.cursor().selection().is_none());
    apply_click(&mut editor, 3, 9);
    let sel = editor.cursor().selection().unwrap();
    assert_eq!((sel.start, sel.end), (8, 13));
    let mut wide = editor_with("d\u{e9}j\u{e0}\nvu", 1);
    apply_click(&mut wide, 3, 1);
    let sel = wide.cursor().selection().unwrap();
    assert_eq!((sel.start, sel.end), (0, 5));
}

#[test]
fn command_bar_fields_and_status() {
    let mut bar = CommandBarState::new_find(Some("ab"));
    assert_eq!(bar.status_text(), "Find: ab    (Enter=apply, Esc=close)");
    bar.push_text("c");
    bar.backspace();
    bar.backspace();
    assert_eq!(bar.find_query(), "a");
    bar.toggle_field();
    assert_eq!(bar.active, ActiveField::Find);
    assert_eq!(bar.active(), ActiveField::Find);
    assert_eq!(bar.mode(), CommandBarMode::Find);
    let mut bar = CommandBarState::new_replace(None);
    assert_eq!(bar.mode, CommandBarMode::Replace);
    assert_eq!(bar.mode(), CommandBarMode::Replace);
    bar.toggle_field();
    assert_eq!(bar.active(), ActiveField::Replace);
    bar.push_text("x");
    assert_eq!(bar.replace_text(), "x");
    assert_eq!(
        bar.status_text(),
        "Find:     Replace: x   [editing replace]    (Enter=apply, Esc=close)"
    );
}

#[test]
fn editor_shortcuts_and_save_request() {
    let mut editor = Editor::new();
    let mut keys = EditorKeyboard::new();
    let (handled, save, _) = keys.handle_key_event(&mut editor, typed("hi"));
    assert!(handled);
    assert!(save.is_none());
    assert_eq!(editor.buffer().as_str(), "hi");
    keys.set_modifiers(ctrl());
    let (handled, save, _) = keys.handle_key_event(&mut editor, key(KeyCode::KeyS));
    assert!(handled);
    assert!(save.is_none());
    editor.set_file_path("/tmp/hi.txt".to_string());
    let (_, save, _) = keys.handle_key_event(&mut editor, key(KeyCode::KeyS));
    let request = save.unwrap();
    assert_eq!(request.path, "/tmp/hi.txt");
    assert_eq!(request.content, "hi");
    let (handled, _, _) = keys.handle_key_event(&mut editor, key(KeyCode::KeyF));
    assert!(!handled);
    keys.handle_key_event(&mut editor, key(KeyCode::KeyZ));
    assert_eq!(editor.buffer().as_str(), "h");
}

#[test]
fn editor_helpers_delete_and_undo() {
    let mut editor = Editor::new();
    editor.buffer_mut().insert(0, "abc");
    editor.cursor_mut().set_position(1);
    textedit::app::delete_selection_or_char(&mut editor);
    assert_eq!(editor.buffer().as_str(), "ac");
    if let Some(op) = editor.history_mut().undo() {
        textedit::app::apply_undo(&mut editor, op);
    }
    assert_eq!(editor.buffer().as_str(), "abc");
    assert_eq!(editor.cursor().position(), 2);
}

#[test]
fn type_undo_redo_gives_back_the_typed_text() {
    let mut editor = editor_with("ab", 1);
    let mut keys = KeyboardController::new();
    keys.handle_key_event(&mut editor, typed("x"));
    keys.set_modifiers(ctrl());
    keys.handle_key_event(&mut editor, key(KeyCode::KeyZ));
    assert_eq!(editor.buffer().as_str(), "ab");
    keys.handle_key_event(&mut editor, key(KeyCode::KeyY));
    assert_eq!(editor.buffer().as_str(), "axb");
    assert_eq!(editor.cursor().position(), 2);
    keys.handle_key_event(&mut editor, key(KeyCode::KeyZ));
    assert_eq!(editor.buffer().as_str(), "ab");
}

#[test]
fn cut_undo_redo_gives_back_the_cut_text() {
    let mut editor = editor_with("hello world", 0);
    editor.cursor_mut().select_range(5, 11);
    handle_menu_action(&mut editor, &MenuAction::Cut, None);
    assert_eq!(editor.buffer().as_str(), "hello");
    handle_menu_action(&mut editor, &MenuAction::Undo, None);
    assert_eq!(editor.buffer().as_str(), "hello world");
    handle_menu_action(&mut editor, &MenuAction::Redo, None);
    assert_eq!(editor.buffer().as_str(), "hello");
    handle_menu_action(&mut editor, &MenuAction::Redo, None);
    assert_eq!(editor.buffer().as_str(), "hello");
}

#[test]
fn copy_and_cut_hand_out_the_selected_text() {
    let mut editor = editor_with("hello world", 0);
    let mut keys = KeyboardController::new();
    keys.set_modifiers(ctrl());
    assert_eq!(keys.handle_key_event(&mut editor, key(KeyCode::KeyC)), (true, None));
    editor.cursor_mut().select_range(11, 6);
    assert_eq!(
        keys.handle_key_event(&mut editor, key(KeyCode::KeyC)),
        (true, Some("world".to_string()))
    );
    assert_eq!(editor.buffer().as_str(), "hello world");
    assert_eq!(
        keys.handle_shortcut(&mut editor, KeyCode::KeyX),
        (true, Some("world".to_string()))
    );
    assert_eq!(editor.buffer().as_str(), "hello ");
    assert_eq!(editor.cursor().position(), 6);
    assert_eq!(keys.handle_key_event(&mut editor, key(KeyCode::KeyX)), (true, None));
    assert_eq!(keys.handle_key_event(&mut editor, key(KeyCode::KeyA)), (true, None));
    keys.set_modifiers(ModifiersState::empty());
    assert_eq!(keys.handle_key_event(&mut editor, typed("c")), (true, None));
}

#[test]
fn editor_copy_and_cut_hand_out_the_selected_text() {
    let mut editor = Editor::new();
    editor.buffer_mut().insert(0, "d\u{e9}j\u{e0} vu");
    let mut keys = EditorKeyboard::new();
    keys.set_modifiers(ctrl());
    let (handled, save, copied) = keys.handle_key_event(&mut editor, key(KeyCode::KeyC));
    assert!(handled && save.is_none() && copied.is_none());
    editor.cursor_mut().set_position(4);
    editor.cursor_mut().extend_selection(0);
    let (_, _, copied) = keys.handle_key_event(&mut editor, key(KeyCode::KeyC));
    assert_eq!(copied, Some("d\u{e9}j\u{e0}".to_string()));
    let (handled, save, cut) = keys.handle_key_event(&mut editor, key(KeyCode::KeyX));
    assert!(handled && save.is_none());
    assert_eq!(cut, Some("d\u{e9}j\u{e0}".to_string()));
    assert_eq!(editor.buffer().as_str(), " vu");
    assert_eq!(editor.cursor().position(), 0);
}

#[test]
fn cut_selection_returns_what_it_cut() {
    let mut editor = Editor::new();
    editor.buffer_mut().insert(0, "abcdef");
    let cut = textedit::app::cut_selection(&mut editor, textedit::editor::cursor::Selection::new(4, 1));
    assert_eq!(cut, Some("bcd".to_string()));
    assert_eq!(editor.buffer().as_str(), "aef");
    assert_eq!(editor.cursor().position(), 1);
    let copied = textedit::app::copy_selection(&editor, textedit::editor::cursor::Selection::new(0, 2));
    assert_eq!(copied, Some("ae".to_string()));
    let none = textedit::app::cut_selection(&mut editor, textedit::editor::cursor::Selection::new(2, 2));
    assert_eq!(none, None);
    assert_eq!(editor.buffer().as_str(), "aef");
}

use crate::application::editor_service::{
    after_find_next, after_find_prev, all_selected, chars_between, deleted_forward, emptied,
    pasted, placed, selected_span, selection_deleted, EditorService, EditorView,
};
use crate::interface::keyboard::{
    apply_redo, apply_undo, delete_selection, paste_text, text_between, redo_command, redo_fits, undo_command, undo_fits,
};
use crate::menu::{MenuAction, MenuActionView};
use crate::text::text_eq;
use crate::domain::cursor::{line_selected, word_selected};
use vstd::prelude::*;

verus! {

#[derive(Clone, Copy, Debug, PartialEq, Eq, Structural)]
pub enum MouseButtonState {
    Released,
    Pressed,
}

/// The color themes of the editor.
#[derive(Clone, Copy, Debug, PartialEq, Eq, Structural)]
pub enum EditorTheme {
    Dracula,
    SolarizedDark,
    OneDark,
    GruvboxDark,
    Light,
}

/// The editor theme a menu names; an unknown name gives Dracula.
pub open spec fn theme_named(name: Seq<char>) -> EditorTheme {
    if name == "Dracula"@ {
        EditorTheme::Dracula
    } else if name == "SolarizedDark"@ {
        EditorTheme::SolarizedDark
    } else if name == "OneDark"@ {
        EditorTheme::OneDark
    } else if name == "GruvboxDark"@ {
        EditorTheme::GruvboxDark
    } else if name == "Light"@ {
        EditorTheme::Light
    } else {
        EditorTheme::Dracula
    }
}

/// The editor theme named `name`.
pub fn editor_theme_for(name: &str) -> (t: EditorTheme)
    ensures
        t == theme_named(name@),
{
    if text_eq(name, "Dracula") {
        EditorTheme::Dracula
    } else if text_eq(name, "SolarizedDark") {
        EditorTheme::SolarizedDark
    } else if text_eq(name, "OneDark") {
        EditorTheme::OneDark
    } else if text_eq(name, "GruvboxDark") {
        EditorTheme::GruvboxDark
    } else if text_eq(name, "Light") {
        EditorTheme::Light
    } else {
        EditorTheme::Dracula
    }
}

/// The click count of a new click: when it follows the last one soon enough
/// and near enough (`repeat`), a double click or, after a double click, a
/// triple click; else a single click.
pub fn next_click_count(last_count: u8, repeat: bool) -> (r: u8)
    ensures
        r == if repeat {
            if last_count >= 2 {
                3u8
            } else {
                2u8
            }
        } else {
            1u8
        },
{
    if repeat {
        if last_count >= 2 {
            3
        } else {
            2
        }
    } else {
        1
    }
}

/// What a click does to the editor: a double click selects the word at the
/// caret, a triple click the caret's line, and a single click puts the caret
/// at char `char_idx`.
pub fn apply_click(editor: &mut EditorService, click_count: u8, char_idx: usize)
    requires
        click_count == 3 ==> old(editor)@.cursor.pos <= old(editor)@.text.len(),
    ensures
        final(editor)@ == if click_count == 2 {
            EditorView { cursor: word_selected(old(editor)@.cursor, old(editor)@.text), ..old(editor)@ }
        } else if click_count == 3 {
            EditorView { cursor: line_selected(old(editor)@.cursor, old(editor)@.text), ..old(editor)@ }
        } else {
            placed(old(editor)@, char_idx as int)
        },
{
    if click_count == 2 {
        editor.cursor_select_word();
    } else if click_count == 3 {
        editor.cursor_select_line();
    } else {
        editor.cursor_mut().set_position(char_idx);
    }
}

/// What is left to do around the editor after a menu command: the work that
/// needs the file system, the clipboard, dialogs or the window.
#[derive(Debug)]
pub enum MenuEffect {
    Nothing,
    /// Write `content` to `path`; on success the buffer counts as saved, on
    /// failure ask where to save it.
    WriteFile { path: String, content: String },
    /// Ask where to save `content` (suggesting the name of `current_path`),
    /// write it there, and name the buffer after that file.
    SaveDialog { current_path: Option<String>, content: String },
    /// Ask for a file, read it, load it into the editor and name the buffer after it.
    OpenDialog,
    /// Put `text` on the system clipboard.
    SetClipboard(String),
    AboutDialog,
    OpenFindModal,
    OpenReplaceModal,
    SetEditorTheme(EditorTheme),
    SetTheme(String),
    /// The matches shown in the find bar need a refresh.
    RefreshMatches,
}

/// What a menu command does to the editor; `clipboard` is the clipboard's
/// text that a paste uses.
pub open spec fn menu_edit(v: EditorView, a: MenuActionView, clipboard: Option<Seq<char>>) -> EditorView {
    match a {
        MenuActionView::New => emptied(v),
        MenuActionView::Undo => undo_command(v),
        MenuActionView::Redo => redo_command(v),
        MenuActionView::Cut => selection_deleted(v),
        MenuActionView::Paste => match clipboard {
            Some(t) => pasted(v, t),
            None => v,
        },
        MenuActionView::Delete => deleted_forward(v),
        MenuActionView::SelectAll => all_selected(v),
        MenuActionView::ToggleLineNumbers => EditorView {
            show_line_numbers: !v.show_line_numbers,
            ..v
        },
        MenuActionView::ToggleStatusBar => EditorView { show_status_bar: !v.show_status_bar, ..v },
        MenuActionView::FindNext => after_find_next(v),
        MenuActionView::FindPrev => after_find_prev(v),
        _ => v,
    }
}

/// The work left to do after menu command `a` on editor `v`.
pub open spec fn menu_effect(v: EditorView, a: MenuActionView, e: MenuEffect) -> bool {
    match a {
        MenuActionView::Save => match v.file_path {
            Some(p) => e matches MenuEffect::WriteFile { path, content } && path@ == p && content@
                == v.text,
            None => e matches MenuEffect::SaveDialog { current_path, content } && current_path is None
                && content@ == v.text,
        },
        MenuActionView::SaveAs => e matches MenuEffect::SaveDialog { current_path, content } && (
        match current_path {
            Some(c) => v.file_path == Some(c@),
            None => v.file_path is None,
        }) && content@ == v.text,
        MenuActionView::Open => e is OpenDialog,
        MenuActionView::Cut => match selected_span(v) {
            Some((s, t)) => e matches MenuEffect::SetClipboard(x) && x@ == chars_between(
                v.text,
                s,
                t,
            ),
            None => e is Nothing,
        },
        MenuActionView::Copy => match selected_span(v) {
            Some((s, t)) => e matches MenuEffect::SetClipboard(x) && x@ == chars_between(
                v.text,
                s,
                t,
            ),
            None => e is Nothing,
        },
        MenuActionView::About => e is AboutDialog,
        MenuActionView::Find => e is OpenFindModal,
        MenuActionView::Replace => e is OpenReplaceModal,
        MenuActionView::FindNext => e is RefreshMatches,
        MenuActionView::FindPrev => e is RefreshMatches,
        MenuActionView::SetEditorTheme(name) => e == MenuEffect::SetEditorTheme(theme_named(name)),
        MenuActionView::SetTheme(name) => e matches MenuEffect::SetTheme(x) && x@ == name,
        _ => e is Nothing,
    }
}

/// A menu command runs without a panic: undo and redo need their edit to
/// fit, and a paste must leave the caret within a `usize`.
pub open spec fn menu_ok(v: EditorView, a: MenuActionView, clipboard: Option<Seq<char>>) -> bool {
    match a {
        MenuActionView::Undo => undo_fits(v.history),
        MenuActionView::Redo => redo_fits(v.history),
        MenuActionView::Paste => match clipboard {
            Some(t) => selection_deleted(v).cursor.pos + t.len() <= usize::MAX,
            None => true,
        },
        _ => true,
    }
}

/// The view of a clipboard text that may be missing.
pub open spec fn clip_view(c: Option<String>) -> Option<Seq<char>> {
    match c {
        Some(t) => Some(t@),
        None => None,
    }
}

/// The selected text, when the selection is not empty.
fn selected_text(editor: &EditorService) -> (r: Option<String>)
    ensures
        match selected_span(editor@) {
            Some((s, e)) => r matches Some(t) && t@ == chars_between(editor@.text, s, e),
            None => r is None,
        },
{
    if let Some(sel) = editor.cursor().selection() {
        if !sel.is_empty() {
            let (s, e) = sel.range();
            return Some(text_between(editor, s, e));
        }
    }
    None
}

/// Carries out the part of a menu command that belongs to the editor, and
/// says what is left to do around it. `clipboard` is the text on the system
/// clipboard, which a paste uses (none when it could not be read).
pub fn handle_menu_action(
    editor: &mut EditorService,
    action: &MenuAction,
    clipboard: Option<String>,
) -> (e: MenuEffect)
    requires
        menu_ok(old(editor)@, action@, clip_view(clipboard)),
    ensures
        final(editor)@ == menu_edit(old(editor)@, action@, clip_view(clipboard)),
        menu_effect(old(editor)@, action@, e),
{
    match action {
        MenuAction::Save => {
            let content = editor.buffer().as_str();
            match editor.file_path() {
                Some(p) => {
                    let mut path = String::new();
                    crate::text::push_str(&mut path, p);
                    MenuEffect::WriteFile { path, content }
                },
                None => MenuEffect::SaveDialog { current_path: None, content },
            }
        },
        MenuAction::SaveAs => {
            let content = editor.buffer().as_str();
            let current_path = match editor.file_path() {
                Some(p) => {
                    let mut path = String::new();
                    crate::text::push_str(&mut path, p);
                    Some(path)
                },
                None => None,
            };
            MenuEffect::SaveDialog { current_path, content }
        },
        MenuAction::FindNext => {
            editor.find_next();
            MenuEffect::RefreshMatches
        },
        MenuAction::FindPrev => {
            editor.find_prev();
            MenuEffect::RefreshMatches
        },
        MenuAction::Replace => MenuEffect::OpenReplaceModal,
        MenuAction::ToggleLineNumbers => {
            editor.toggle_line_numbers();
            MenuEffect::Nothing
        },
        MenuAction::ToggleStatusBar => {
            editor.toggle_status_bar();
            MenuEffect::Nothing
        },
        MenuAction::About => MenuEffect::AboutDialog,
        MenuAction::SetEditorTheme(name) => MenuEffect::SetEditorTheme(
            editor_theme_for(name.as_str()),
        ),
        MenuAction::New => {
            editor.new_file();
            MenuEffect::Nothing
        },
        MenuAction::Close => MenuEffect::Nothing,
        MenuAction::Quit => MenuEffect::Nothing,
        MenuAction::Undo => {
            if let Some(op) = editor.history_mut().undo() {
                apply_undo(editor, op);
            }
            MenuEffect::Nothing
        },
        MenuAction::Redo => {
            if let Some(op) = editor.history_mut().redo() {
                apply_redo(editor, op);
            }
            MenuEffect::Nothing
        },
        MenuAction::Cut => {
            let copied = selected_text(editor);
            delete_selection(editor);
            match copied {
                Some(text) => MenuEffect::SetClipboard(text),
                None => MenuEffect::Nothing,
            }
        },
        MenuAction::Copy => match selected_text(editor) {
            Some(text) => MenuEffect::SetClipboard(text),
            None => MenuEffect::Nothing,
        },
        MenuAction::Paste => {
            if let Some(text) = clipboard {
                paste_text(editor, text);
            }
            MenuEffect::Nothing
        },
        MenuAction::Delete => {
            crate::interface::keyboard::delete_forward(editor);
            MenuEffect::Nothing
        },
        MenuAction::SelectAll => {
            let len = editor.buffer().len_chars();
            if len > 0 {
                editor.cursor_mut().set_selection_start(0);
                editor.cursor_mut().set_selection_end(len);
            }
            MenuEffect::Nothing
        },
        MenuAction::Find => MenuEffect::OpenFindModal,
        MenuAction::Open => MenuEffect::OpenDialog,
        MenuAction::SetTheme(name) => MenuEffect::SetTheme(name.clone()),
    }
}

} // verus!

//! Copying, cutting and pasting between an `Editor` and the system clipboard.
use crate::app::helpers::{paste_text_into, text_between};
use crate::application::editor_service::{
    chars_between, erased, opt_string_view, pasted, placed, selection_deleted,
};
use crate::editor::cursor::Selection;
use crate::editor::{core_of, lifted, Editor, EditorCore};
use crate::domain::operations::Operation;
use crate::infrastructure::clipboard::ArboardClipboard;
use crate::ports::Clipboard;
use vstd::prelude::*;

verus! {

/// The text that `sel` covers in the editor, when it is not empty.
pub fn selection_text(editor: &Editor, sel: Selection) -> (r: Option<String>)
    ensures
        ({
            let (s, e) = if sel.start <= sel.end {
                (sel.start, sel.end)
            } else {
                (sel.end, sel.start)
            };
            if sel.start == sel.end {
                r is None
            } else {
                r matches Some(t) && t@ == chars_between(
                    editor@.text,
                    s as int,
                    e as int,
                )
            }
        }),
{
    if !sel.is_empty() {
        let (s, e) = sel.range();
        Some(text_between(editor, s, e))
    } else {
        None
    }
}

/// The text that `sel` covers in `t`, when it is not empty.
pub open spec fn covered_text(t: Seq<char>, sel: Selection) -> Option<Seq<char>> {
    if sel.start == sel.end {
        None
    } else if sel.start <= sel.end {
        Some(chars_between(t, sel.start as int, sel.end as int))
    } else {
        Some(chars_between(t, sel.end as int, sel.start as int))
    }
}

/// What cutting `sel` makes of the editor: its text deleted and recorded for
/// undo, with the caret where it was; an empty `sel` changes nothing.
pub open spec fn after_cut(v: EditorCore, sel: Selection) -> EditorCore {
    let (s, e) = if sel.start <= sel.end {
        (sel.start as int, sel.end as int)
    } else {
        (sel.end as int, sel.start as int)
    };
    if sel.start == sel.end {
        v
    } else {
        core_of(placed(erased(lifted(v), s, e), s))
    }
}

/// Puts the text that `sel` covers on the system clipboard, when `sel` is
/// not empty (a clipboard that fails is ignored), and returns that text.
pub fn copy_selection(editor: &Editor, sel: Selection) -> (r: Option<String>)
    ensures
        opt_string_view(r) == covered_text(editor@.text, sel),
{
    let text = selection_text(editor, sel);
    if let Some(t) = &text {
        let clipboard = ArboardClipboard::new();
        let _ = clipboard.set_text(t.as_str());
    }
    text
}

/// Deletes the text that `sel` covers, records the deletion for undo, puts
/// the caret where it was, and returns that text; an empty `sel` does
/// nothing.
pub fn take_selection(editor: &mut Editor, sel: Selection) -> (r: Option<String>)
    ensures
        opt_string_view(r) == covered_text(old(editor)@.text, sel),
        final(editor)@ == after_cut(old(editor)@, sel),
{
    if !sel.is_empty() {
        let (s, e) = sel.range();
        let text = text_between(editor, s, e);
        let taken = text_between(editor, s, e);
        editor.buffer_mut().remove(s, e - s);
        editor.cursor_mut().set_position(s);
        editor.history_mut().push(Operation::Delete { position: s, text });
        Some(taken)
    } else {
        None
    }
}

/// Puts the text that `sel` covers on the system clipboard (a clipboard that
/// fails is ignored), deletes it, records the deletion for undo, puts the
/// caret where it was, and returns that text; an empty `sel` does nothing.
pub fn cut_selection(editor: &mut Editor, sel: Selection) -> (r: Option<String>)
    ensures
        opt_string_view(r) == covered_text(old(editor)@.text, sel),
        final(editor)@ == after_cut(old(editor)@, sel),
{
    let text = take_selection(editor, sel);
    if let Some(t) = &text {
        let clipboard = ArboardClipboard::new();
        let _ = clipboard.set_text(t.as_str());
    }
    text
}

/// Pastes the system clipboard's text at the caret, replacing a selection
/// that is not empty; nothing happens when the clipboard cannot be read (or
/// the caret would move past the largest `usize`).
pub fn paste_at_cursor(editor: &mut Editor)
    ensures
        final(editor)@ == old(editor)@ || exists|t: Seq<char>|
            selection_deleted(lifted(old(editor)@)).cursor.pos + t.len() <= usize::MAX
                && final(editor)@ == core_of(pasted(lifted(old(editor)@), t)),
{
    let clipboard = ArboardClipboard::new();
    if let Ok(text) = clipboard.get_text() {
        paste_text_into(editor, text);
    }
}

} // verus!

//! Edits on an `Editor` that commands share: undo, redo, deleting, pasting.
use crate::application::editor_service::{
    chars_between, deleted_forward, op_fits, pasted, redo_applied, selected_span,
    selection_deleted, undo_applied,
};
use crate::domain::operations::Operation;
use crate::editor::{core_of, lifted, Editor};
use crate::text::{char_to_string, chars_of, string_from_chars};
use vstd::prelude::*;

verus! {

/// The chars of the editor's text from `s` to `e`, cut short at its end.
pub(crate) fn text_between(editor: &Editor, s: usize, e: usize) -> (r: String)
    requires
        s <= e,
    ensures
        r@ == chars_between(editor@.text, s as int, e as int),
{
    let all = editor.buffer().as_str();
    let cs = chars_of(all.as_str());
    let n = cs.len();
    let lo = if s < n {
        s
    } else {
        n
    };
    let hi = if e < n {
        e
    } else {
        n
    };
    let mut part: Vec<char> = Vec::new();
    let mut i = lo;
    while i < hi
        invariant
            lo <= i <= hi,
            hi <= n,
            n == cs@.len(),
            part@ == cs@.subrange(lo as int, i as int),
        decreases hi - i,
    {
        part.push(cs[i]);
        assert(cs@.subrange(lo as int, i + 1) =~= cs@.subrange(lo as int, i as int).push(cs@[i as int]));
        i = i + 1;
    }
    string_from_chars(part.as_slice())
}

/// Deletes a selection that is not empty, records it for undo, and puts the
/// caret at its start; tells whether there was one.
pub(crate) fn delete_selection(editor: &mut Editor) -> (deleted: bool)
    ensures
        final(editor)@ == core_of(selection_deleted(lifted(old(editor)@))),
        deleted == (selected_span(lifted(old(editor)@)) is Some),
{
    if let Some(sel) = editor.cursor().selection() {
        if !sel.is_empty() {
            let (s, e) = sel.range();
            let txt = text_between(editor, s, e);
            editor.buffer_mut().remove(s, e - s);
            editor.history_mut().push(Operation::Delete { position: s, text: txt });
            editor.cursor_mut().set_position(s);
            return true;
        }
    }
    false
}

/// Undoes `op` in the editor: an insert is taken out again, a delete put
/// back.
pub fn apply_undo(editor: &mut Editor, op: Operation)
    requires
        op_fits(op@),
    ensures
        final(editor)@ == core_of(undo_applied(lifted(old(editor)@), op@)),
{
    match op {
        Operation::Insert { position, text } => {
            let n = chars_of(text.as_str()).len();
            editor.buffer_mut().remove(position, n);
            editor.cursor_mut().set_position(position);
        },
        Operation::Delete { position, text } => {
            let n = chars_of(text.as_str()).len();
            editor.buffer_mut().insert(position, text.as_str());
            editor.cursor_mut().set_position(position + n);
        },
    }
}

/// Redoes with `op`, the edit that the redo stack holds, which is the reverse
/// of the undone edit: taking it back makes the undone edit again (a delete
/// that undid an insert puts the text back in; an insert that undid a delete
/// takes its text out again).
pub fn apply_redo(editor: &mut Editor, op: Operation)
    requires
        op_fits(op@),
    ensures
        final(editor)@ == core_of(redo_applied(lifted(old(editor)@), op@)),
{
    apply_undo(editor, op);
}

/// Deletes the selection when it is not empty, else the char at the caret,
/// and records the deletion for undo.
pub fn delete_selection_or_char(editor: &mut Editor)
    ensures
        final(editor)@ == core_of(deleted_forward(lifted(old(editor)@))),
{
    if delete_selection(editor) {
        return;
    }
    let pos = editor.cursor().position();
    let buf_len = editor.buffer().len_chars();
    if pos < buf_len {
        if let Some(ch) = editor.buffer().get_char(pos) {
            editor.buffer_mut().remove(pos, 1);
            editor.history_mut().push(Operation::Delete { position: pos, text: char_to_string(ch) });
            proof {
                assert(chars_between(old(editor)@.text, pos as int, pos + 1) =~= seq![ch]);
            }
        }
    }
}

/// Pastes `text` at the caret, replacing a selection that is not empty, and
/// records it for undo; nothing happens when the caret would move past the
/// largest `usize`.
pub fn paste_text_into(editor: &mut Editor, text: String)
    ensures
        ({
            let v = lifted(old(editor)@);
            if selection_deleted(v).cursor.pos + text@.len() <= usize::MAX {
                final(editor)@ == core_of(pasted(v, text@))
            } else {
                final(editor)@ == old(editor)@
            }
        }),
{
    let n = chars_of(text.as_str()).len();
    let at = match editor.cursor().selection() {
        Some(sel) => if !sel.is_empty() {
            sel.range().0
        } else {
            editor.cursor().position()
        },
        None => editor.cursor().position(),
    };
    if at.checked_add(n).is_none() {
        return;
    }
    delete_selection(editor);
    let pos = editor.cursor().position();
    editor.buffer_mut().insert(pos, text.as_str());
    editor.cursor_mut().set_position(pos + n);
    editor.history_mut().push(Operation::Insert { position: pos, text });
}

} // verus!

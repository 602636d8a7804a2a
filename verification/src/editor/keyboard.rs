//! Key handling for an `Editor`: shortcuts of its own, and the shared
//! handling of editing keys, moves and typed text.
use crate::app::clipboard::{paste_at_cursor, selection_text, take_selection};
use crate::app::helpers::{apply_redo, apply_undo};
use crate::application::editor_service::{all_selected, opt_string_view, pasted, selection_deleted};
use crate::editor::{core_of, lifted, Editor, EditorCore};
use crate::interface::keyboard::{
    key_event_ok, key_event_result, lemma_key_event_display, redo_command, redo_fits,
    shortcut_clipboard, undo_command, undo_fits, KeyCode, KeyEvent, ModifiersState,
};
use crate::text::push_str;
use vstd::prelude::*;

verus! {

/// A request to write `content` to the file at `path`.
pub struct SaveRequest {
    pub path: String,
    pub content: String,
}

/// The save that Ctrl+S asks for: the text to the editor's file, when it has
/// one.
pub open spec fn save_request_for(v: EditorCore, s: Option<SaveRequest>) -> bool {
    match v.file_path {
        Some(p) => s matches Some(r) && r.path@ == p && r.content@ == v.text,
        None => s is None,
    }
}

/// What a shortcut (a key pressed with Ctrl or Super) does to an editor:
/// `v2`, `r` and `save` are a possible outcome.
pub open spec fn editor_shortcut_result(
    v: EditorCore,
    code: KeyCode,
    v2: EditorCore,
    r: bool,
    save: Option<SaveRequest>,
) -> bool {
    let w = lifted(v);
    match code {
        KeyCode::KeyZ => r && v2 == core_of(undo_command(w)) && save is None,
        KeyCode::KeyY => r && v2 == core_of(redo_command(w)) && save is None,
        KeyCode::KeyS => r && v2 == v && save_request_for(v, save),
        KeyCode::KeyC => r && v2 == v && save is None,
        KeyCode::KeyX => r && v2 == core_of(selection_deleted(w)) && save is None,
        KeyCode::KeyV => r && save is None && (v2 == v || exists|t: Seq<char>|
            selection_deleted(w).cursor.pos + t.len() <= usize::MAX && v2 == core_of(
                pasted(w, t),
            )),
        KeyCode::KeyA => r && v2 == core_of(all_selected(w)) && save is None,
        _ => !r && v2 == v && save is None,
    }
}

/// The key of a pressed key event that comes with Ctrl or Super.
pub open spec fn shortcut_key(mods: ModifiersState, ev: KeyEvent) -> Option<KeyCode> {
    if ev.pressed && (mods.control || mods.super_key) {
        ev.physical_key
    } else {
        None
    }
}

/// What a key event does to an editor: `v2`, `r` and `save` are a possible
/// outcome.
pub open spec fn editor_key_event_result(
    v: EditorCore,
    mods: ModifiersState,
    ev: KeyEvent,
    v2: EditorCore,
    r: bool,
    save: Option<SaveRequest>,
) -> bool {
    match shortcut_key(mods, ev) {
        Some(code) => editor_shortcut_result(v, code, v2, r, save),
        None => save is None && key_event_result(lifted(v), mods, ev, lifted(v2), r),
    }
}

/// A key event runs without a panic: undo and redo need their edit to fit,
/// and other keys what the shared key handling needs.
pub open spec fn editor_key_event_ok(v: EditorCore, mods: ModifiersState, ev: KeyEvent) -> bool {
    match shortcut_key(mods, ev) {
        Some(code) => match code {
            KeyCode::KeyZ => undo_fits(v.history),
            KeyCode::KeyY => redo_fits(v.history),
            _ => true,
        },
        None => key_event_ok(lifted(v), mods, ev),
    }
}

/// The text that a key event hands out for the clipboard: for Copy and Cut
/// with Ctrl or Super, the text of a selection that is not empty.
pub open spec fn editor_key_clipboard(v: EditorCore, mods: ModifiersState, ev: KeyEvent) -> Option<
    Seq<char>,
> {
    match shortcut_key(mods, ev) {
        Some(code) => shortcut_clipboard(lifted(v), code),
        None => None,
    }
}

/// Turns key events into edits, moves and saves of an `Editor`.
pub struct KeyboardController {
    inner: crate::interface::keyboard::KeyboardController,
}

impl KeyboardController {
    /// The modifier keys that the controller holds down.
    pub closed spec fn mods(&self) -> ModifiersState {
        self.inner.mods()
    }

    pub fn new() -> (k: Self)
        ensures
            k.mods() == (ModifiersState { control: false, shift: false, alt: false, super_key: false }),
    {
        KeyboardController { inner: crate::interface::keyboard::KeyboardController::new() }
    }

    pub fn set_modifiers(&mut self, modifiers: ModifiersState)
        ensures
            final(self).mods() == modifiers,
    {
        self.inner.set_modifiers(modifiers);
    }

    /// Handles one key event: tells whether it did anything, hands out the
    /// save that Ctrl+S asks for, which the caller performs (marking the
    /// editor saved when the write succeeds), and hands out the text that
    /// Copy or Cut puts on the clipboard, which the caller places there.
    pub fn handle_key_event(&mut self, editor: &mut Editor, event: KeyEvent) -> (r: (
        bool,
        Option<SaveRequest>,
        Option<String>,
    ))
        requires
            editor_key_event_ok(old(editor)@, old(self).mods(), event),
        ensures
            editor_key_event_result(old(editor)@, old(self).mods(), event, final(editor)@, r.0, r.1),
            opt_string_view(r.2) == editor_key_clipboard(old(editor)@, old(self).mods(), event),
            final(self).mods() == old(self).mods(),
    {
        let mods = self.inner.modifiers();
        if event.pressed && (mods.control_key() || mods.super_key()) {
            if let Some(code) = event.physical_key {
                return self.handle_shortcut(editor, code);
            }
        }
        let mut service = editor.take_service();
        let ghost ev = event;
        let (handled, _) = self.inner.handle_key_event(&mut service, event);
        proof {
            lemma_key_event_display(lifted(old(editor)@), mods, ev, service@, handled);
            assert(lifted(core_of(service@)) == service@);
        }
        editor.put_service(service);
        (handled, None, None)
    }

    /// Handles a key pressed with Ctrl or Super: undo, redo, save, copy, cut,
    /// paste and select all.
    fn handle_shortcut(&mut self, editor: &mut Editor, code: KeyCode) -> (r: (
        bool,
        Option<SaveRequest>,
        Option<String>,
    ))
        requires
            match code {
                KeyCode::KeyZ => undo_fits(old(editor)@.history),
                KeyCode::KeyY => redo_fits(old(editor)@.history),
                _ => true,
            },
        ensures
            editor_shortcut_result(old(editor)@, code, final(editor)@, r.0, r.1),
            opt_string_view(r.2) == shortcut_clipboard(lifted(old(editor)@), code),
            final(self).mods() == old(self).mods(),
    {
        match code {
            KeyCode::KeyZ => {
                if let Some(op) = editor.history_mut().undo() {
                    apply_undo(editor, op);
                }
                (true, None, None)
            },
            KeyCode::KeyY => {
                if let Some(op) = editor.history_mut().redo() {
                    apply_redo(editor, op);
                }
                (true, None, None)
            },
            KeyCode::KeyS => {
                match editor.file_path() {
                    Some(p) => {
                        let mut path = String::new();
                        push_str(&mut path, p);
                        let content = editor.buffer().as_str();
                        (true, Some(SaveRequest { path, content }), None)
                    },
                    None => (true, None, None),
                }
            },
            KeyCode::KeyC => {
                let copied = match editor.cursor().selection() {
                    Some(sel) => selection_text(editor, sel),
                    None => None,
                };
                (true, None, copied)
            },
            KeyCode::KeyX => {
                let cut = match editor.cursor().selection() {
                    Some(sel) => take_selection(editor, sel),
                    None => None,
                };
                (true, None, cut)
            },
            KeyCode::KeyV => {
                paste_at_cursor(editor);
                (true, None, None)
            },
            KeyCode::KeyA => {
                let len = editor.buffer().len_chars();
                if len > 0 {
                    editor.cursor_mut().set_selection_start(0);
                    editor.cursor_mut().set_selection_end(len);
                }
                (true, None, None)
            },
            _ => (false, None, None),
        }
    }
}

impl Default for KeyboardController {
    fn default() -> (k: Self)
        ensures
            k.mods() == (ModifiersState { control: false, shift: false, alt: false, super_key: false }),
    {
        Self::new()
    }
}

} // verus!

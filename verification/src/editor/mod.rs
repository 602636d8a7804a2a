pub mod buffer;
pub mod command_bar;
pub mod cursor;
pub mod document;
pub mod keyboard;


pub use buffer::TextBuffer;
pub use cursor::Cursor;
pub use document::{Document, FileEncoding, LineEnding};
pub use keyboard::KeyboardController;


use crate::application::editor_service::{opt_string_view, EditorService, EditorView};
use crate::domain::buffer::Buffer;
use crate::domain::cursor::{caret_at, CursorState};
use crate::domain::operations::{HistoryState, OpView, OperationHistory};
use vstd::prelude::*;

verus! {

/// What an `Editor` holds, as the contracts see it.
pub struct EditorCore {
    pub text: Seq<char>,
    pub cursor: CursorState,
    pub history: HistoryState,
    pub file_path: Option<Seq<char>>,
    pub modified: bool,
}

/// The editor's state inside a full editor view, whose other parts the
/// editing commands leave alone.
pub open spec fn lifted(c: EditorCore) -> EditorView {
    EditorView {
        text: c.text,
        cursor: c.cursor,
        history: c.history,
        file_path: c.file_path,
        modified: c.modified,
        show_line_numbers: true,
        show_status_bar: true,
        find_query: None,
    }
}

/// The editing state that a full editor view holds.
pub open spec fn core_of(v: EditorView) -> EditorCore {
    EditorCore {
        text: v.text,
        cursor: v.cursor,
        history: v.history,
        file_path: v.file_path,
        modified: v.modified,
    }
}

/// An editor: a buffer, a cursor, an edit history and the file it belongs to.
pub struct Editor {
    buffer: Buffer,
    cursor: Cursor,
    history: OperationHistory,
    file_path: Option<String>,
    is_modified: bool,
}

impl View for Editor {
    type V = EditorCore;

    closed spec fn view(&self) -> EditorCore {
        EditorCore {
            text: self.buffer@,
            cursor: self.cursor@,
            history: self.history@,
            file_path: opt_string_view(self.file_path),
            modified: self.is_modified,
        }
    }
}

impl Editor {
    /// An empty, unnamed, unmodified editor with no history.
    pub fn new() -> (e: Self)
        ensures
            e@ == (EditorCore {
                text: Seq::<char>::empty(),
                cursor: caret_at(0),
                history: (Seq::<OpView>::empty(), Seq::<OpView>::empty()),
                file_path: None,
                modified: false,
            }),
    {
        Self {
            buffer: Buffer::new(),
            cursor: Cursor::new(),
            history: OperationHistory::new(),
            file_path: None,
            is_modified: false,
        }
    }

    pub fn buffer(&self) -> (b: &Buffer)
        ensures
            b@ == self@.text,
    {
        &self.buffer
    }

    /// The buffer, to change it; the editor counts as modified.
    pub fn buffer_mut(&mut self) -> (b: &mut Buffer)
        ensures
            b@ == old(self)@.text,
            final(self)@ == (EditorCore { text: final(b)@, modified: true, ..old(self)@ }),
    {
        self.is_modified = true;
        &mut self.buffer
    }

    pub fn cursor(&self) -> (c: &Cursor)
        ensures
            c@ == self@.cursor,
    {
        &self.cursor
    }

    pub fn cursor_mut(&mut self) -> (c: &mut Cursor)
        ensures
            c@ == old(self)@.cursor,
            final(self)@ == (EditorCore { cursor: final(c)@, ..old(self)@ }),
    {
        &mut self.cursor
    }

    pub fn history_mut(&mut self) -> (h: &mut OperationHistory)
        ensures
            h@ == old(self)@.history,
            final(self)@ == (EditorCore { history: final(h)@, ..old(self)@ }),
    {
        &mut self.history
    }

    /// Names the file the buffer belongs to; the buffer counts as saved.
    pub fn set_file_path(&mut self, path: String)
        ensures
            final(self)@ == (EditorCore { file_path: Some(path@), modified: false, ..old(self)@ }),
    {
        self.file_path = Some(path);
        self.is_modified = false;
    }

    pub fn file_path(&self) -> (p: Option<&str>)
        ensures
            p is Some <==> self@.file_path is Some,
            p matches Some(s) ==> self@.file_path == Some(s@),
    {
        match &self.file_path {
            Some(p) => Some(p.as_str()),
            None => None,
        }
    }

    pub fn is_modified(&self) -> (r: bool)
        ensures
            r == self@.modified,
    {
        self.is_modified
    }

    pub fn set_modified(&mut self, modified: bool)
        ensures
            final(self)@ == (EditorCore { modified, ..old(self)@ }),
    {
        self.is_modified = modified;
    }
    /// The editor's state moved into a full editor; an empty editor is left.
    pub(crate) fn take_service(&mut self) -> (s: EditorService)
        ensures
            s@ == lifted(old(self)@),
    {
        let mut taken = Editor::new();
        std::mem::swap(self, &mut taken);
        let (pos, sel, pref) = taken.cursor.parts();
        EditorService::from_parts(
            taken.buffer,
            crate::domain::cursor::Cursor::from_parts(pos, sel, pref),
            taken.history,
            taken.file_path,
            taken.is_modified,
        )
    }

    /// The editor takes the editing state of `s`.
    pub(crate) fn put_service(&mut self, s: EditorService)
        ensures
            final(self)@ == core_of(s@),
    {
        let (buffer, cursor, history, file_path, is_modified) = s.into_parts();
        let (pos, sel, pref) = cursor.parts();
        *self = Editor {
            buffer,
            cursor: Cursor::from_parts(pos, sel, pref),
            history,
            file_path,
            is_modified,
        };
    }
}

} // verus!

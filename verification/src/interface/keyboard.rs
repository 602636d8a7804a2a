use crate::application::editor_service::{
    after_find_next, after_find_prev, all_selected, backspaced, chars_between, deleted_forward,
    leading_indent, op_fits, opt_string_view, pasted, selected_span, selection_deleted, text_input, typed,
    undo_applied, redo_applied, unindent_ok, unindented, EditorService, EditorView, erased,
    placed, removed_text, inserted_text,
};
use crate::domain::cursor::{
    at_line_end, at_line_start, caret_at, extended_down, extended_to, extended_up, moved_down,
    moved_up, sel_to, CursorState, Selection,
};
use crate::domain::operations::{recorded, redo_step, undo_step, HistoryState, OpView, Operation};
use crate::infrastructure::clipboard::ArboardClipboard;
use crate::ports::Clipboard;
use crate::text::{
    char_is_control, char_to_string, chars_of, is_control_char, lemma_line_content_len,
    lemma_line_start, lemma_line_start_increasing, line_count, line_of, line_start, line_text,
    string_from_chars,
    word_end_from, word_start_from,
};
use vstd::prelude::*;

verus! {

/// The keys that the editor tells apart (all others are `Other`).
#[derive(Clone, Copy, Debug, PartialEq, Eq, Structural)]
pub enum KeyCode {
    KeyA,
    KeyC,
    KeyF,
    KeyG,
    KeyH,
    KeyS,
    KeyV,
    KeyX,
    KeyY,
    KeyZ,
    Backspace,
    Delete,
    Enter,
    Tab,
    Escape,
    ArrowLeft,
    ArrowRight,
    ArrowUp,
    ArrowDown,
    Home,
    End,
    PageUp,
    PageDown,
    Insert,
    Space,
    Other,
}

/// The modifier keys held down.
#[derive(Clone, Copy, Debug, PartialEq, Eq, Structural)]
pub struct ModifiersState {
    pub control: bool,
    pub shift: bool,
    pub alt: bool,
    pub super_key: bool,
}

impl ModifiersState {
    pub fn empty() -> (m: Self)
        ensures
            !m.control && !m.shift && !m.alt && !m.super_key,
    {
        ModifiersState { control: false, shift: false, alt: false, super_key: false }
    }

    pub fn control_key(&self) -> (r: bool)
        ensures
            r == self.control,
    {
        self.control
    }

    pub fn shift_key(&self) -> (r: bool)
        ensures
            r == self.shift,
    {
        self.shift
    }

    pub fn super_key(&self) -> (r: bool)
        ensures
            r == self.super_key,
    {
        self.super_key
    }
}

/// A key event: whether the key went down, which key it was (when known),
/// and the text it produced.
pub struct KeyEvent {
    pub pressed: bool,
    pub physical_key: Option<KeyCode>,
    pub text: Option<String>,
}

/// The keys that edit or move rather than type.
pub open spec fn is_special(code: KeyCode) -> bool {
    ||| code is Backspace
    ||| code is Delete
    ||| code is Enter
    ||| code is Tab
    ||| code is Escape
    ||| code is ArrowLeft
    ||| code is ArrowRight
    ||| code is ArrowUp
    ||| code is ArrowDown
    ||| code is Home
    ||| code is End
    ||| code is PageUp
    ||| code is PageDown
    ||| code is Insert
    ||| code is Space
}

/// Text without control chars.
pub open spec fn printable(t: Seq<char>) -> bool {
    forall|i: int| 0 <= i < t.len() ==> !is_control_char(#[trigger] t[i])
}

/// The editor with another cursor.
pub open spec fn with_cursor(v: EditorView, c: CursorState) -> EditorView {
    EditorView { cursor: c, ..v }
}

/// `n` moves up a line, one after the other.
pub open spec fn repeated_up(c: CursorState, s: Seq<char>, n: nat) -> CursorState
    decreases n,
{
    if n == 0 {
        c
    } else {
        moved_up(repeated_up(c, s, (n - 1) as nat), s)
    }
}

/// `n` moves down a line, one after the other.
pub open spec fn repeated_down(c: CursorState, s: Seq<char>, n: nat) -> CursorState
    decreases n,
{
    if n == 0 {
        c
    } else {
        moved_down(repeated_down(c, s, (n - 1) as nat), s)
    }
}

/// The cursor without its selection.
pub open spec fn unselected(c: CursorState) -> CursorState {
    CursorState { sel: None, ..c }
}

/// The history after undo, and the edit undone, applied to the editor.
pub open spec fn undo_command(v: EditorView) -> EditorView {
    match undo_step(v.history) {
        (h, Some(op)) => undo_applied(EditorView { history: h, ..v }, op),
        (_, None) => v,
    }
}

/// The history after redo, and the edit redone, applied to the editor.
pub open spec fn redo_command(v: EditorView) -> EditorView {
    match redo_step(v.history) {
        (h, Some(op)) => redo_applied(EditorView { history: h, ..v }, op),
        (_, None) => v,
    }
}

/// The edit on top of the undo stack fits the arithmetic of undoing it.
pub open spec fn undo_fits(h: HistoryState) -> bool {
    h.0.len() > 0 ==> op_fits(h.0.last())
}

/// The edit on top of the redo stack fits the arithmetic of redoing it.
pub open spec fn redo_fits(h: HistoryState) -> bool {
    h.1.len() > 0 ==> op_fits(h.1.last())
}

/// What an editing or moving key does, and whether it was handled.
pub open spec fn special_key_effect(v: EditorView, ctrl: bool, shift: bool, code: KeyCode) -> (
    EditorView,
    bool,
) {
    let c = v.cursor;
    let s = v.text;
    let len = s.len() as int;
    if ctrl && shift && (code is ArrowLeft || code is ArrowRight || code is ArrowUp
        || code is ArrowDown) {
        let c2 = if code is ArrowLeft {
            extended_to(c, word_start_from(s, c.pos as int))
        } else if code is ArrowRight {
            extended_to(c, word_end_from(s, c.pos as int))
        } else if code is ArrowUp {
            CursorState { sel: Some(Selection { start: 0, end: c.pos }), ..c }
        } else {
            CursorState { sel: Some(sel_to(c, len)), ..c }
        };
        (with_cursor(v, c2), true)
    } else if ctrl && !shift && (code is ArrowLeft || code is ArrowRight) {
        let p = if code is ArrowLeft {
            word_start_from(s, c.pos as int)
        } else {
            word_end_from(s, c.pos as int)
        };
        (with_cursor(v, caret_at(p)), true)
    } else {
        match code {
            KeyCode::ArrowLeft => (
                with_cursor(
                    v,
                    if shift {
                        if c.pos > 0 {
                            extended_to(c, c.pos - 1)
                        } else {
                            c
                        }
                    } else {
                        caret_at(
                            if c.pos > 0 {
                                c.pos - 1
                            } else {
                                0
                            },
                        )
                    },
                ),
                true,
            ),
            KeyCode::ArrowRight => (
                with_cursor(
                    v,
                    if shift {
                        if c.pos < len {
                            extended_to(c, c.pos + 1)
                        } else {
                            c
                        }
                    } else {
                        caret_at(
                            if c.pos < len {
                                c.pos + 1
                            } else {
                                c.pos as int
                            },
                        )
                    },
                ),
                true,
            ),
            KeyCode::ArrowUp => (
                with_cursor(
                    v,
                    if shift {
                        extended_up(c, s)
                    } else {
                        moved_up(c, s)
                    },
                ),
                true,
            ),
            KeyCode::ArrowDown => (
                with_cursor(
                    v,
                    if shift {
                        extended_down(c, s)
                    } else {
                        moved_down(c, s)
                    },
                ),
                true,
            ),
            KeyCode::Home => {
                let c1 = if ctrl {
                    caret_at(0)
                } else {
                    at_line_start(c, s)
                };
                (
                    with_cursor(
                        v,
                        if shift {
                            c1
                        } else {
                            unselected(c1)
                        },
                    ),
                    true,
                )
            },
            KeyCode::End => {
                let c1 = if ctrl {
                    caret_at(len)
                } else {
                    at_line_end(c, s)
                };
                (
                    with_cursor(
                        v,
                        if shift {
                            c1
                        } else {
                            unselected(c1)
                        },
                    ),
                    true,
                )
            },
            KeyCode::Backspace => (backspaced(v), true),
            KeyCode::Delete => (deleted_forward(v), true),
            KeyCode::Tab => (
                if shift {
                    unindented(v)
                } else {
                    text_input(v, seq![' ', ' ', ' ', ' '])
                },
                true,
            ),
            KeyCode::Enter => (text_input(v, seq!['\n']), true),
            KeyCode::Space => (text_input(v, seq![' ']), true),
            KeyCode::Escape => (with_cursor(v, unselected(c)), true),
            KeyCode::PageUp => {
                let c1 = repeated_up(c, s, 10);
                (
                    with_cursor(
                        v,
                        if shift {
                            c1
                        } else {
                            unselected(c1)
                        },
                    ),
                    true,
                )
            },
            KeyCode::PageDown => {
                let c1 = repeated_down(c, s, 10);
                (
                    with_cursor(
                        v,
                        if shift {
                            c1
                        } else {
                            unselected(c1)
                        },
                    ),
                    true,
                )
            },
            _ => (v, false),
        }
    }
}

/// An editing or moving key runs without a panic: the keys that look at the
/// caret's line need the caret in the text, and the typed text must fit.
pub open spec fn special_key_ok(v: EditorView, ctrl: bool, shift: bool, code: KeyCode) -> bool {
    let in_text = v.cursor.pos <= v.text.len();
    let typed_pos = selection_deleted(v).cursor.pos as int;
    match code {
        KeyCode::ArrowUp => !(ctrl && shift) ==> in_text,
        KeyCode::ArrowDown => !(ctrl && shift) ==> in_text,
        KeyCode::Home => !ctrl ==> in_text,
        KeyCode::End => !ctrl ==> in_text,
        KeyCode::PageUp => in_text,
        KeyCode::PageDown => in_text,
        KeyCode::Tab => if shift {
            unindent_ok(v)
        } else {
            typed_pos + 4 <= usize::MAX
        },
        KeyCode::Enter => typed_pos + 1 <= usize::MAX,
        KeyCode::Space => typed_pos + 1 <= usize::MAX,
        _ => true,
    }
}

/// What a shortcut (a key with Ctrl or Super) does: `v2` and `r` are a
/// possible outcome. A paste takes whatever text the system clipboard gave,
/// or changes nothing when the clipboard gave none.
pub open spec fn shortcut_result(
    v: EditorView,
    shift: bool,
    code: KeyCode,
    v2: EditorView,
    r: bool,
) -> bool {
    match code {
        KeyCode::KeyZ => r && v2 == undo_command(v),
        KeyCode::KeyY => r && v2 == redo_command(v),
        KeyCode::KeyS => r && v2 == v,
        KeyCode::KeyC => r && v2 == v,
        KeyCode::KeyX => r && v2 == selection_deleted(v),
        KeyCode::KeyV => r && (v2 == v || exists|t: Seq<char>|
            selection_deleted(v).cursor.pos + t.len() <= usize::MAX && v2 == pasted(v, t)),
        KeyCode::KeyA => r && v2 == all_selected(v),
        KeyCode::KeyF => r && v2 == (EditorView { find_query: Some(Seq::<char>::empty()), ..v }),
        KeyCode::KeyH => r && v2 == (EditorView { find_query: Some(Seq::<char>::empty()), ..v }),
        KeyCode::KeyG => r && v2 == if shift {
            after_find_prev(v)
        } else {
            after_find_next(v)
        },
        _ => !r && v2 == v,
    }
}

/// The text that a shortcut hands out for the clipboard: for Copy and Cut,
/// the text of a selection that is not empty; none otherwise.
pub open spec fn shortcut_clipboard(v: EditorView, code: KeyCode) -> Option<Seq<char>> {
    if code is KeyC || code is KeyX {
        match selected_span(v) {
            Some((s, e)) => Some(chars_between(v.text, s, e)),
            None => None,
        }
    } else {
        None
    }
}

/// The text that a key event hands out for the clipboard: what its shortcut
/// hands out, when it is a pressed key with Ctrl or Super.
pub open spec fn key_event_clipboard(v: EditorView, mods: ModifiersState, ev: KeyEvent) -> Option<
    Seq<char>,
> {
    if ev.pressed && (mods.control || mods.super_key) {
        match ev.physical_key {
            Some(code) => shortcut_clipboard(v, code),
            None => None,
        }
    } else {
        None
    }
}

/// A shortcut runs without a panic: undo and redo need their edit to fit.
pub open spec fn shortcut_ok(v: EditorView, code: KeyCode) -> bool {
    match code {
        KeyCode::KeyZ => undo_fits(v.history),
        KeyCode::KeyY => redo_fits(v.history),
        _ => true,
    }
}

/// The view of a key event's text.
pub open spec fn event_text(ev: KeyEvent) -> Option<Seq<char>> {
    match ev.text {
        Some(t) => Some(t@),
        None => None,
    }
}

/// What a key event does: `v2` and `r` are a possible outcome.
pub open spec fn key_event_result(
    v: EditorView,
    mods: ModifiersState,
    ev: KeyEvent,
    v2: EditorView,
    r: bool,
) -> bool {
    if !ev.pressed {
        !r && v2 == v
    } else {
        match ev.physical_key {
            None => !r && v2 == v,
            Some(code) => if mods.control || mods.super_key {
                shortcut_result(v, mods.shift, code, v2, r)
            } else if is_special(code) {
                (v2, r) == special_key_effect(v, mods.control, mods.shift, code)
            } else {
                match event_text(ev) {
                    Some(t) => if printable(t) && t.len() > 0 {
                        r && v2 == text_input(v, t)
                    } else {
                        !r && v2 == v
                    },
                    None => !r && v2 == v,
                }
            },
        }
    }
}

/// A key event runs without a panic.
pub open spec fn key_event_ok(v: EditorView, mods: ModifiersState, ev: KeyEvent) -> bool {
    ev.pressed ==> match ev.physical_key {
        None => true,
        Some(code) => if mods.control || mods.super_key {
            shortcut_ok(v, code)
        } else if is_special(code) {
            special_key_ok(v, mods.control, mods.shift, code)
        } else {
            match event_text(ev) {
                Some(t) => selection_deleted(v).cursor.pos + t.len() <= usize::MAX,
                None => true,
            }
        },
    }
}

/// The chars of the editor's text from `s` to `e`, cut short at its end.
pub(crate) fn text_between(editor: &EditorService, s: usize, e: usize) -> (r: String)
    requires
        s <= e,
    ensures
        r@ == chars_between(editor@.text, s as int, e as int),
{
    let all = editor.buffer().as_str();
    let cs = chars_of(all.as_str());
    let n = cs.len();
    let lo = if s < n {
        s
    } else {
        n
    };
    let hi = if e < n {
        e
    } else {
        n
    };
    let mut part: Vec<char> = Vec::new();
    let mut i = lo;
    while i < hi
        invariant
            lo <= i <= hi,
            hi <= n,
            n == cs@.len(),
            part@ == cs@.subrange(lo as int, i as int),
        decreases hi - i,
    {
        part.push(cs[i]);
        assert(cs@.subrange(lo as int, i + 1) =~= cs@.subrange(lo as int, i as int).push(cs@[i as int]));
        i = i + 1;
    }
    string_from_chars(part.as_slice())
}

/// Deletes a selection that is not empty, records it for undo, and puts the
/// caret at its start; tells whether there was one.
pub(crate) fn delete_selection(editor: &mut EditorService) -> (deleted: bool)
    ensures
        final(editor)@ == selection_deleted(old(editor)@),
        deleted == (selected_span(old(editor)@) is Some),
{
    if let Some(sel) = editor.cursor().selection() {
        if !sel.is_empty() {
            let (s, e) = sel.range();
            let txt = text_between(editor, s, e);
            editor.buffer_mut().remove(s, e - s);
            editor.history_mut().push(Operation::Delete { position: s, text: txt });
            editor.cursor_mut().set_position(s);
            return true;
        }
    }
    false
}

/// Undoes `op` in the editor: an insert is taken out again, a delete put
/// back.
pub fn apply_undo(editor: &mut EditorService, op: Operation)
    requires
        op_fits(op@),
    ensures
        final(editor)@ == undo_applied(old(editor)@, op@),
{
    match op {
        Operation::Insert { position, text } => {
            let n = chars_of(text.as_str()).len();
            editor.buffer_mut().remove(position, n);
            editor.cursor_mut().set_position(position);
        },
        Operation::Delete { position, text } => {
            let n = chars_of(text.as_str()).len();
            editor.buffer_mut().insert(position, text.as_str());
            editor.cursor_mut().set_position(position + n);
        },
    }
}

/// Redoes with `op`, the edit that the redo stack holds, which is the reverse
/// of the undone edit: taking it back makes the undone edit again (a delete
/// that undid an insert puts the text back in; an insert that undid a delete
/// takes its text out again).
pub fn apply_redo(editor: &mut EditorService, op: Operation)
    requires
        op_fits(op@),
    ensures
        final(editor)@ == redo_applied(old(editor)@, op@),
{
    apply_undo(editor, op);
}

/// Undoing a deletion of the chars from `s` to `e` (all inside the text)
/// brings the text back.
pub proof fn lemma_undo_erased(v: EditorView, s: int, e: int)
    requires
        0 <= s <= e <= v.text.len(),
        s <= usize::MAX,
    ensures
        undo_command(placed(erased(v, s, e), s)).text == v.text,
{
    let t = v.text;
    let d = chars_between(t, s, e);
    assert(d == t.subrange(s, e));
    let t1 = removed_text(t, s, e - s);
    assert(t1 =~= t.take(s) + t.skip(e));
    assert(t1.take(s) + d + t1.skip(s) =~= t);
}

/// Backspace, then undo: the text is back as it was, whenever backspace
/// deleted something (a selection inside the text, or the char before a
/// caret inside the text).
pub proof fn law_backspace_then_undo(v: EditorView)
    requires
        selected_span(v) matches Some((s, e)) ==> e <= v.text.len(),
        selected_span(v) is None ==> 0 < v.cursor.pos <= v.text.len(),
    ensures
        undo_command(backspaced(v)).text == v.text,
{
    match selected_span(v) {
        Some((s, e)) => lemma_undo_erased(v, s, e),
        None => lemma_undo_erased(v, v.cursor.pos - 1, v.cursor.pos as int),
    }
}

/// Delete, then undo: the text is back as it was, whenever delete deleted
/// something (a selection inside the text, or the char at the caret).
pub proof fn law_delete_then_undo(v: EditorView)
    requires
        selected_span(v) matches Some((s, e)) ==> e <= v.text.len(),
        selected_span(v) is None ==> v.cursor.pos < v.text.len(),
    ensures
        undo_command(deleted_forward(v)).text == v.text,
{
    match selected_span(v) {
        Some((s, e)) => lemma_undo_erased(v, s, e),
        None => {
            let p = v.cursor.pos as int;
            let t = v.text;
            let v1 = erased(v, p, p + 1);
            assert(v1.text =~= t.take(p) + t.skip(p + 1));
            assert(v1.text.take(p) + chars_between(t, p, p + 1) + v1.text.skip(p) =~= t);
        },
    }
}

/// Cut, then undo: the text is back as it was, for a selection inside the text.
pub proof fn law_cut_then_undo(v: EditorView)
    requires
        selected_span(v) matches Some((s, e)) && e <= v.text.len(),
    ensures
        undo_command(selection_deleted(v)).text == v.text,
{
    match selected_span(v) {
        Some((s, e)) => lemma_undo_erased(v, s, e),
        None => {},
    }
}

/// Typing one char, then undo: the text is back as it was (with no selection
/// and the caret inside the text).
pub proof fn law_type_then_undo(v: EditorView, c: char)
    requires
        selected_span(v) is None,
        v.cursor.pos <= v.text.len(),
    ensures
        undo_command(text_input(v, seq![c])).text == v.text,
{
    let t = v.text;
    let p = v.cursor.pos as int;
    assert(selection_deleted(v) == v);
    let v1 = placed(
        EditorView {
            text: inserted_text(t, p, seq![c]),
            modified: true,
            history: recorded(v.history, OpView::Insert { position: v.cursor.pos, text: seq![c] }),
            ..v
        },
        p + 1,
    );
    assert(seq![c].drop_first() =~= Seq::<char>::empty());
    assert(typed(v, seq![c]) == typed(v1, seq![c].drop_first()));
    assert(typed(v1, Seq::<char>::empty()) == v1);
    let t1 = inserted_text(t, p, seq![c]);
    assert(t1.take(p) + t1.skip(p + 1) =~= t);
}

/// Pasting a text, then undo: the text is back as it was (with no selection
/// and the caret inside the text).
pub proof fn law_paste_then_undo(v: EditorView, t: Seq<char>)
    requires
        selected_span(v) is None,
        v.cursor.pos <= v.text.len(),
    ensures
        undo_command(pasted(v, t)).text == v.text,
{
    let s = v.text;
    let p = v.cursor.pos as int;
    assert(selection_deleted(v) == v);
    let s1 = inserted_text(s, p, t);
    assert(s1.take(p) + s1.skip(p + t.len()) =~= s);
}

/// Typing a char, undo, then redo: the text is as the typing left it (with
/// no selection and the caret inside the text).
pub proof fn law_type_undo_redo(v: EditorView, c: char)
    requires
        selected_span(v) is None,
        v.cursor.pos <= v.text.len(),
    ensures
        redo_command(undo_command(text_input(v, seq![c]))).text == text_input(v, seq![c]).text,
{
    let t = v.text;
    let p = v.cursor.pos as int;
    assert(selection_deleted(v) == v);
    let v1 = placed(
        EditorView {
            text: inserted_text(t, p, seq![c]),
            modified: true,
            history: recorded(v.history, OpView::Insert { position: v.cursor.pos, text: seq![c] }),
            ..v
        },
        p + 1,
    );
    assert(seq![c].drop_first() =~= Seq::<char>::empty());
    assert(typed(v, seq![c]) == typed(v1, seq![c].drop_first()));
    assert(typed(v1, Seq::<char>::empty()) == v1);
    let t1 = inserted_text(t, p, seq![c]);
    let t2 = t1.take(p) + t1.skip(p + 1);
    assert(t2 =~= t);
    assert(t2.take(p) + seq![c] + t2.skip(p) =~= t1);
}

/// Cutting a selection inside the text, undo, then redo: the text is as the
/// cut left it.
pub proof fn law_cut_undo_redo(v: EditorView)
    requires
        selected_span(v) matches Some((s, e)) && e <= v.text.len(),
    ensures
        redo_command(undo_command(selection_deleted(v))).text == selection_deleted(v).text,
{
    match selected_span(v) {
        Some((s, e)) => {
            let t = v.text;
            let d = chars_between(t, s, e);
            assert(d == t.subrange(s, e));
            let t1 = removed_text(t, s, e - s);
            assert(t1 =~= t.take(s) + t.skip(e));
            let t2 = t1.take(s) + d + t1.skip(s);
            assert(t2 =~= t);
            assert(t2.take(s) + t2.skip(s + (e - s)) =~= t1);
        },
        None => {},
    }
}

/// The indentation that a text starts with is made of spaces and tabs, and
/// ends at the first other char.
proof fn lemma_leading_indent(t: Seq<char>)
    ensures
        leading_indent(t) <= t.len(),
        forall|i: int| 0 <= i < leading_indent(t) ==> t[i] == ' ' || t[i] == '\t',
        leading_indent(t) < t.len() ==> t[leading_indent(t) as int] != ' ' && t[leading_indent(
            t,
        ) as int] != '\t',
    decreases t.len(),
{
    if t.len() > 0 && (t[0] == ' ' || t[0] == '\t') {
        let rest = t.drop_first();
        lemma_leading_indent(rest);
        assert forall|i: int| 0 <= i < leading_indent(t) implies t[i] == ' ' || t[i] == '\t' by {
            if i > 0 {
                assert(t[i] == rest[i - 1]);
            }
        }
    }
}

/// Shift+Tab on a line that starts with spaces or tabs takes out the first
/// of them, four at most (fewer only where the indentation ends), at the
/// start of the caret's line; and undo then gives the text back, since the
/// edit it records is exactly the chars taken out.
pub proof fn law_unindent_then_undo(v: EditorView)
    requires
        v.cursor.pos <= v.text.len(),
        v.text.len() <= usize::MAX,
        leading_indent(line_text(v.text, line_of(v.text, v.cursor.pos as int) as int)) > 0,
    ensures
        ({
            let s = v.text;
            let a = line_start(s, line_of(s, v.cursor.pos as int) as int);
            let after = unindented(v).text;
            &&& exists|k: int|
                #![trigger s.skip(a + k)]
                1 <= k <= 4 && a + k <= s.len() && after == s.take(a) + s.skip(a + k) && (forall|
                    i: int,
                | a <= i < a + k ==> s[i] == ' ' || s[i] == '\t') && (k < 4 ==> a + k == s.len()
                    || (s[a + k] != ' ' && s[a + k] != '\t'))
            &&& undo_command(unindented(v)).text == s
        }),
{
    let s = v.text;
    let l = line_of(s, v.cursor.pos as int) as int;
    crate::text::lemma_index_in_line(s, v.cursor.pos as int);
    lemma_line_start(s, l);
    lemma_line_content_len(s, l);
    let a = line_start(s, l);
    let lt = line_text(s, l);
    lemma_leading_indent(lt);
    let n = leading_indent(lt);
    let r = if n >= 4 {
        4
    } else {
        n as int
    };
    assert(a + r <= s.len());
    assert forall|i: int| a <= i < a + r implies s[i] == ' ' || s[i] == '\t' by {
        assert(s[i] == lt[i - a]);
    }
    if r < 4 && a + r < s.len() {
        if a + r < line_start(s, l + 1) {
            assert(s[a + r] == lt[r]);
        } else {
            // the line is all indentation; its end is the text's end or a break
            assert(lt.len() == r);
            assert(n == lt.len());
            assert(line_start(s, l + 1) == a + r);
            if l + 1 < line_count(s) {
                crate::text::lemma_line_start(s, l + 1);
                assert(crate::text::breaks_before(s, a + r));
            }
        }
    }
    let v1 = unindented(v);
    assert(v1.text =~= s.take(a) + s.skip(a + r));
    assert(lt.take(r) =~= s.subrange(a, a + r));
    let u = undo_command(v1);
    assert(u.text =~= v1.text.take(a) + lt.take(r) + v1.text.skip(a));
    assert(v1.text.take(a) + lt.take(r) + v1.text.skip(a) =~= s);
    assert(v1.text == s.take(a) + s.skip(a + r));
}

/// Two editor views that agree on what the display shows: line numbers, the
/// status bar and the find query.
pub open spec fn same_display(a: EditorView, b: EditorView) -> bool {
    &&& a.show_line_numbers == b.show_line_numbers
    &&& a.show_status_bar == b.show_status_bar
    &&& a.find_query == b.find_query
}

/// Typing leaves the display settings alone.
pub proof fn lemma_typed_display(v: EditorView, t: Seq<char>)
    ensures
        same_display(typed(v, t), v),
    decreases t.len(),
{
    if t.len() > 0 {
        let p = v.cursor.pos as int;
        let v1 = placed(
            EditorView {
                text: inserted_text(v.text, p, seq![t[0]]),
                modified: true,
                history: recorded(v.history, OpView::Insert { position: v.cursor.pos, text: seq![t[0]] }),
                ..v
            },
            p + 1,
        );
        lemma_typed_display(v1, t.drop_first());
    }
}

/// A key event without Ctrl or Super leaves the display settings alone.
pub proof fn lemma_key_event_display(
    v: EditorView,
    mods: ModifiersState,
    ev: KeyEvent,
    v2: EditorView,
    r: bool,
)
    requires
        key_event_result(v, mods, ev, v2, r),
        !(ev.pressed && (mods.control || mods.super_key) && ev.physical_key is Some),
    ensures
        same_display(v2, v),
{
    let w = selection_deleted(v);
    assert(same_display(w, v));
    lemma_typed_display(w, seq![' ', ' ', ' ', ' ']);
    lemma_typed_display(w, seq!['\n']);
    lemma_typed_display(w, seq![' ']);
    match event_text(ev) {
        Some(t) => lemma_typed_display(w, t),
        None => {},
    }
}

/// Turns key events into edits and moves.
pub struct KeyboardController {
    modifiers: ModifiersState,
}

impl KeyboardController {
    /// The modifier keys that the controller holds down.
    pub closed spec fn mods(&self) -> ModifiersState {
        self.modifiers
    }

    pub fn new() -> (k: Self)
        ensures
            k.mods() == (ModifiersState { control: false, shift: false, alt: false, super_key: false }),
    {
        Self { modifiers: ModifiersState::empty() }
    }

    pub fn set_modifiers(&mut self, modifiers: ModifiersState)
        ensures
            final(self).mods() == modifiers,
    {
        self.modifiers = modifiers;
    }

    /// The modifier keys held down.
    pub fn modifiers(&self) -> (m: ModifiersState)
        ensures
            m == self.mods(),
    {
        self.modifiers
    }

    /// Handles one key event: tells whether it did anything, and hands out the
    /// text that Copy or Cut puts on the clipboard, which the caller places
    /// there.
    pub fn handle_key_event(&mut self, editor: &mut EditorService, event: KeyEvent) -> (r: (
        bool,
        Option<String>,
    ))
        requires
            key_event_ok(old(editor)@, old(self).mods(), event),
        ensures
            key_event_result(old(editor)@, old(self).mods(), event, final(editor)@, r.0),
            opt_string_view(r.1) == key_event_clipboard(old(editor)@, old(self).mods(), event),
            final(self).mods() == old(self).mods(),
    {
        if !event.pressed {
            return (false, None);
        }
        let code = match event.physical_key {
            Some(c) => c,
            None => {
                return (false, None);
            },
        };
        if self.modifiers.control_key() || self.modifiers.super_key() {
            return self.handle_shortcut(editor, code);
        }
        if Self::is_special_key(code) {
            return (self.handle_special_key(editor, code), None);
        }
        if let Some(text) = event.text {
            let cs = chars_of(text.as_str());
            let mut is_printable = true;
            let mut i: usize = 0;
            while i < cs.len()
                invariant
                    i <= cs@.len(),
                    cs@ == text@,
                    is_printable == (forall|j: int| 0 <= j < i ==> !is_control_char(#[trigger] cs@[j])),
                decreases cs@.len() - i,
            {
                if char_is_control(cs[i]) {
                    is_printable = false;
                }
                i = i + 1;
            }
            if is_printable && cs.len() > 0 {
                return (self.handle_text_input(editor, text.as_str()), None);
            }
        }
        (false, None)
    }

    pub fn is_special_key(code: KeyCode) -> (r: bool)
        ensures
            r == is_special(code),
    {
        match code {
            KeyCode::Backspace | KeyCode::Delete | KeyCode::Enter | KeyCode::Tab
            | KeyCode::Escape | KeyCode::ArrowLeft | KeyCode::ArrowRight | KeyCode::ArrowUp
            | KeyCode::ArrowDown | KeyCode::Home | KeyCode::End | KeyCode::PageUp
            | KeyCode::PageDown | KeyCode::Insert | KeyCode::Space => true,
            _ => false,
        }
    }

    /// Handles a key pressed with Ctrl or Super: undo, redo, cut, copy, paste,
    /// select all, find. Copy and Cut hand out the selected text for the
    /// caller to put on the clipboard.
    pub fn handle_shortcut(&mut self, editor: &mut EditorService, code: KeyCode) -> (r: (
        bool,
        Option<String>,
    ))
        requires
            shortcut_ok(old(editor)@, code),
        ensures
            shortcut_result(old(editor)@, old(self).mods().shift, code, final(editor)@, r.0),
            opt_string_view(r.1) == shortcut_clipboard(old(editor)@, code),
            final(self).mods() == old(self).mods(),
    {
        match code {
            KeyCode::KeyZ => {
                if let Some(op) = editor.history_mut().undo() {
                    apply_undo(editor, op);
                }
                (true, None)
            },
            KeyCode::KeyY => {
                if let Some(op) = editor.history_mut().redo() {
                    apply_redo(editor, op);
                }
                (true, None)
            },
            KeyCode::KeyS => (true, None),
            KeyCode::KeyC => {
                let mut copied: Option<String> = None;
                if let Some(sel) = editor.cursor().selection() {
                    if !sel.is_empty() {
                        let (s, e) = sel.range();
                        copied = Some(text_between(editor, s, e));
                    }
                }
                (true, copied)
            },
            KeyCode::KeyX => {
                let mut cut: Option<String> = None;
                if let Some(sel) = editor.cursor().selection() {
                    if !sel.is_empty() {
                        let (s, e) = sel.range();
                        cut = Some(text_between(editor, s, e));
                        let text = text_between(editor, s, e);
                        editor.buffer_mut().remove(s, e - s);
                        editor.history_mut().push(Operation::Delete { position: s, text });
                        editor.cursor_mut().set_position(s);
                    }
                }
                (true, cut)
            },
            KeyCode::KeyV => {
                let clipboard = ArboardClipboard::new();
                if let Ok(text) = clipboard.get_text() {
                    paste_text(editor, text);
                }
                (true, None)
            },
            KeyCode::KeyA => {
                let len = editor.buffer().len_chars();
                if len > 0 {
                    editor.cursor_mut().set_selection_start(0);
                    editor.cursor_mut().set_selection_end(len);
                }
                (true, None)
            },
            KeyCode::KeyF => {
                editor.set_find_query(Some(String::new()));
                (true, None)
            },
            KeyCode::KeyH => {
                editor.set_find_query(Some(String::new()));
                (true, None)
            },
            KeyCode::KeyG => {
                if self.modifiers.shift_key() {
                    editor.find_prev();
                } else {
                    editor.find_next();
                }
                (true, None)
            },
            _ => (false, None),
        }
    }

    /// Types `text` at the caret, replacing a selection that is not empty;
    /// each char is its own edit in the history.
    pub fn handle_text_input(&mut self, editor: &mut EditorService, text: &str) -> (r: bool)
        requires
            selection_deleted(old(editor)@).cursor.pos + text@.len() <= usize::MAX,
        ensures
            r,
            final(editor)@ == text_input(old(editor)@, text@),
            final(self).mods() == old(self).mods(),
    {
        delete_selection(editor);
        let cs = chars_of(text);
        let ghost target = text_input(old(editor)@, text@);
        proof {
            assert(cs@.skip(0) =~= cs@);
        }
        let mut k: usize = 0;
        while k < cs.len()
            invariant
                k <= cs@.len(),
                cs@ == text@,
                typed(editor@, cs@.skip(k as int)) == target,
                editor@.cursor.pos + (cs@.len() - k) <= usize::MAX,
            decreases cs@.len() - k,
        {
            let ghost before = editor@;
            let ch = cs[k];
            let pos = editor.cursor().position();
            let piece = char_to_string(ch);
            editor.buffer_mut().insert(pos, piece.as_str());
            editor.cursor_mut().set_position(pos + 1);
            editor.history_mut().push(Operation::Insert { position: pos, text: char_to_string(ch) });
            proof {
                let rest = cs@.skip(k as int);
                assert(rest[0] == ch);
                assert(rest.drop_first() =~= cs@.skip(k + 1));
            }
            k = k + 1;
        }
        proof {
            assert(cs@.skip(cs@.len() as int) =~= Seq::<char>::empty());
        }
        true
    }

    /// Handles a key that edits or moves: arrows (with Shift to select, Ctrl
    /// for words), Home, End, Backspace, Delete, Tab, Enter, Space, Escape,
    /// Page Up and Page Down.
    #[verifier::spinoff_prover]
    #[verifier::rlimit(40)]
    pub fn handle_special_key(&mut self, editor: &mut EditorService, code: KeyCode) -> (r: bool)
        requires
            special_key_ok(old(editor)@, old(self).mods().control, old(self).mods().shift, code),
        ensures
            (final(editor)@, r) == special_key_effect(
                old(editor)@,
                old(self).mods().control,
                old(self).mods().shift,
                code,
            ),
            final(self).mods() == old(self).mods(),
    {
        let ctrl = self.modifiers.control_key();
        let shift = self.modifiers.shift_key();
        if ctrl && shift {
            match code {
                KeyCode::ArrowLeft => {
                    editor.cursor_extend_selection_to_word_start();
                    return true;
                },
                KeyCode::ArrowRight => {
                    editor.cursor_extend_selection_to_word_end();
                    return true;
                },
                KeyCode::ArrowUp => {
                    editor.cursor_mut().set_selection_start(0);
                    return true;
                },
                KeyCode::ArrowDown => {
                    let len = editor.buffer().len_chars();
                    editor.cursor_mut().set_selection_end(len);
                    return true;
                },
                _ => {},
            }
        }
        if ctrl && !shift {
            match code {
                KeyCode::ArrowLeft => {
                    editor.cursor_move_to_word_start();
                    return true;
                },
                KeyCode::ArrowRight => {
                    editor.cursor_move_to_word_end();
                    return true;
                },
                _ => {},
            }
        }
        match code {
            KeyCode::ArrowLeft => {
                if shift {
                    editor.cursor_mut().extend_selection_backward();
                } else {
                    editor.cursor_mut().move_backward();
                }
                assert(editor@ == special_key_effect(old(editor)@, ctrl, shift, code).0);
                true
            },
            KeyCode::ArrowRight => {
                let len = editor.buffer().len_chars();
                if shift {
                    editor.cursor_mut().extend_selection_forward(len);
                } else {
                    editor.cursor_mut().move_forward(len);
                }
                assert(editor@ == special_key_effect(old(editor)@, ctrl, shift, code).0);
                true
            },
            KeyCode::ArrowUp => {
                if shift {
                    editor.cursor_extend_selection_up();
                } else {
                    editor.cursor_move_up();
                }
                assert(editor@ == special_key_effect(old(editor)@, ctrl, shift, code).0);
                true
            },
            KeyCode::ArrowDown => {
                if shift {
                    editor.cursor_extend_selection_down();
                } else {
                    editor.cursor_move_down();
                }
                assert(editor@ == special_key_effect(old(editor)@, ctrl, shift, code).0);
                true
            },
            KeyCode::Home => {
                if ctrl {
                    editor.cursor_mut().set_position(0);
                } else {
                    editor.cursor_move_to_line_start();
                }
                if !shift {
                    editor.cursor_mut().clear_selection();
                }
                assert(editor@ == special_key_effect(old(editor)@, ctrl, shift, code).0);
                true
            },
            KeyCode::End => {
                if ctrl {
                    let len = editor.buffer().len_chars();
                    editor.cursor_mut().set_position(len);
                } else {
                    editor.cursor_move_to_line_end();
                }
                if !shift {
                    editor.cursor_mut().clear_selection();
                }
                assert(editor@ == special_key_effect(old(editor)@, ctrl, shift, code).0);
                true
            },
            KeyCode::Backspace => {
                self.handle_backspace(editor);
                assert(editor@ == special_key_effect(old(editor)@, ctrl, shift, code).0);
                true
            },
            KeyCode::Delete => {
                self.handle_delete(editor);
                assert(editor@ == special_key_effect(old(editor)@, ctrl, shift, code).0);
                true
            },
            KeyCode::Tab => {
                if shift {
                    self.handle_unindent(editor);
                } else {
                    proof {
                        reveal_strlit("    ");
                        assert("    "@ =~= seq![' ', ' ', ' ', ' ']);
                    }
                    self.handle_text_input(editor, "    ");
                }
                assert(editor@ == special_key_effect(old(editor)@, ctrl, shift, code).0);
                true
            },
            KeyCode::Enter => {
                proof {
                    reveal_strlit("\n");
                    assert("\n"@ =~= seq!['\n']);
                }
                self.handle_text_input(editor, "\n");
                assert(editor@ == special_key_effect(old(editor)@, ctrl, shift, code).0);
                true
            },
            KeyCode::Space => {
                proof {
                    reveal_strlit(" ");
                    assert(" "@ =~= seq![' ']);
                }
                self.handle_text_input(editor, " ");
                assert(editor@ == special_key_effect(old(editor)@, ctrl, shift, code).0);
                true
            },
            KeyCode::Escape => {
                editor.cursor_mut().clear_selection();
                assert(editor@ == special_key_effect(old(editor)@, ctrl, shift, code).0);
                true
            },
            KeyCode::PageUp => {
                let ghost c0 = editor@.cursor;
                let ghost v0 = editor@;
                let mut i: usize = 0;
                while i < 10
                    invariant
                        i <= 10,
                        editor@ == with_cursor(v0, repeated_up(c0, v0.text, i as nat)),
                        editor@.cursor.pos <= editor@.text.len(),
                    decreases 10 - i,
                {
                    editor.cursor_move_up();
                    i = i + 1;
                }
                if !shift {
                    editor.cursor_mut().clear_selection();
                }
                assert(editor@ == special_key_effect(old(editor)@, ctrl, shift, code).0);
                true
            },
            KeyCode::PageDown => {
                let ghost c0 = editor@.cursor;
                let ghost v0 = editor@;
                let mut i: usize = 0;
                while i < 10
                    invariant
                        i <= 10,
                        editor@ == with_cursor(v0, repeated_down(c0, v0.text, i as nat)),
                        editor@.cursor.pos <= editor@.text.len(),
                    decreases 10 - i,
                {
                    editor.cursor_move_down();
                    i = i + 1;
                }
                if !shift {
                    editor.cursor_mut().clear_selection();
                }
                assert(editor@ == special_key_effect(old(editor)@, ctrl, shift, code).0);
                true
            },
            _ => false,
        }
    }

    /// Deletes the selection when it is not empty, else the char before the
    /// caret.
    pub fn handle_backspace(&self, editor: &mut EditorService)
        ensures
            final(editor)@ == backspaced(old(editor)@),
    {
        if delete_selection(editor) {
            return;
        }
        let pos = editor.cursor().position();
        if pos > 0 {
            if let Some(ch) = editor.buffer().get_char(pos - 1) {
                editor.buffer_mut().remove(pos - 1, 1);
                editor.cursor_mut().set_position(pos - 1);
                editor.history_mut().push(Operation::Delete { position: pos - 1, text: char_to_string(ch) });
                proof {
                    assert(chars_between(old(editor)@.text, pos - 1, pos as int) =~= seq![ch]);
                }
            }
        }
    }

    /// Deletes the selection when it is not empty, else the char at the caret.
    pub fn handle_delete(&self, editor: &mut EditorService)
        ensures
            final(editor)@ == deleted_forward(old(editor)@),
    {
        delete_forward(editor);
    }

    /// Deletes up to four of the spaces and tabs that start the caret's line.
    #[verifier::spinoff_prover]
    #[verifier::rlimit(30)]
    pub fn handle_unindent(&self, editor: &mut EditorService)
        requires
            unindent_ok(old(editor)@),
        ensures
            final(editor)@ == unindented(old(editor)@),
    {
        let (line, _) = editor.buffer().char_to_line_col(editor.cursor().position());
        if let Some(line_str) = editor.buffer().line(line) {
            let cs = chars_of(line_str.as_str());
            let total = editor.buffer().len_chars();
            proof {
                assert(cs@.skip(0) =~= cs@);
            }
            let mut indent: usize = 0;
            while indent < cs.len() && (cs[indent] == ' ' || cs[indent] == '\t')
                invariant
                    indent <= cs@.len(),
                    leading_indent(cs@) == indent + leading_indent(cs@.skip(indent as int)),
                decreases cs@.len() - indent,
            {
                proof {
                    assert(cs@.skip(indent as int).drop_first() =~= cs@.skip(indent + 1));
                }
                indent = indent + 1;
            }
            proof {
                assert(leading_indent(cs@.skip(indent as int)) == 0);
                lemma_line_start_increasing(editor@.text, line as int);
            }
            if indent > 0 {
                let start = editor.buffer().line_to_char(line);
                let remove: usize = if indent >= 4 {
                    4
                } else {
                    indent
                };
                editor.buffer_mut().remove(start, remove);
                let taken = string_from_chars(&cs.as_slice()[0..remove]);
                editor.history_mut().push(Operation::Delete { position: start, text: taken });
                let cursor_pos = editor.cursor().position();
                if cursor_pos > start {
                    editor.cursor_mut().set_position(cursor_pos - remove);
                }
            }
        }
    }
}

/// Deletes the selection when it is not empty, else the char at the caret,
/// and records the deletion for undo.
pub fn delete_forward(editor: &mut EditorService)
    ensures
        final(editor)@ == deleted_forward(old(editor)@),
{
    if delete_selection(editor) {
        return;
    }
    let pos = editor.cursor().position();
    let buf_len = editor.buffer().len_chars();
    if pos < buf_len {
        if let Some(ch) = editor.buffer().get_char(pos) {
            editor.buffer_mut().remove(pos, 1);
            editor.history_mut().push(Operation::Delete { position: pos, text: char_to_string(ch) });
            proof {
                assert(chars_between(old(editor)@.text, pos as int, pos + 1) =~= seq![ch]);
            }
        }
    }
}

/// Pastes `text` at the caret, replacing a selection that is not empty, and
/// records it for undo; nothing happens when the caret would move past the
/// largest `usize`.
pub fn paste_text(editor: &mut EditorService, text: String)
    ensures
        ({
            let v = old(editor)@;
            if selection_deleted(v).cursor.pos + text@.len() <= usize::MAX {
                final(editor)@ == pasted(v, text@)
            } else {
                final(editor)@ == v
            }
        }),
{
    let n = chars_of(text.as_str()).len();
    let at = match editor.cursor().selection() {
        Some(sel) => if !sel.is_empty() {
            sel.range().0
        } else {
            editor.cursor().position()
        },
        None => editor.cursor().position(),
    };
    if at.checked_add(n).is_none() {
        return;
    }
    delete_selection(editor);
    let pos = editor.cursor().position();
    editor.buffer_mut().insert(pos, text.as_str());
    editor.cursor_mut().set_position(pos + n);
    editor.history_mut().push(Operation::Insert { position: pos, text });
}

impl Default for KeyboardController {
    fn default() -> (k: Self)
        ensures
            k.mods() == (ModifiersState { control: false, shift: false, alt: false, super_key: false }),
    {
        Self::new()
    }
}

} // verus!

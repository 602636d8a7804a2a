use crate::domain::buffer::Buffer;
use crate::domain::cursor::{
    at_line_end, at_line_start, caret_at, extended_down, extended_to, extended_up, line_content_chars,
    line_selected, moved_down, moved_up, vertical_move_target, word_selected, CursorState,
};
use crate::text::{
    back_over_word, chars_of, forward_over_nonword, forward_over_word,
    lemma_line_content_len, lemma_line_start_increasing, word_char, word_end_from,
    word_start_from,
};
use vstd::prelude::*;

verus! {

/// A caret position as a char index.
#[derive(Clone, Copy, Debug)]
pub struct CursorPos {
    pub char_idx: usize,
}

/// A selection between an anchor (`start`) and the moving end (`end`).
#[derive(Clone, Copy, Debug)]
pub struct Selection {
    pub start: usize,
    pub end: usize,
}

impl View for Selection {
    type V = crate::domain::cursor::Selection;

    open spec fn view(&self) -> crate::domain::cursor::Selection {
        crate::domain::cursor::Selection { start: self.start, end: self.end }
    }
}

impl Selection {
    /// Create a new selection with given endpoints. The values are stored
    /// as provided; use `range()` or `len()` to query the normalized interval.
    pub fn new(start: usize, end: usize) -> (r: Self)
        ensures
            r.start == start,
            r.end == end,
    {
        Self { start, end }
    }

    /// Return the ordered endpoints as a (start, end) pair.
    pub fn range(&self) -> (r: (usize, usize))
        ensures
            r == (if self.start <= self.end {
                (self.start, self.end)
            } else {
                (self.end, self.start)
            }),
    {
        if self.start <= self.end {
            (self.start, self.end)
        } else {
            (self.end, self.start)
        }
    }

    pub fn is_empty(&self) -> (r: bool)
        ensures
            r == (self.start == self.end),
    {
        let (s, e) = self.range();
        s == e
    }

    pub fn len(&self) -> (r: usize)
        ensures
            r == if self.start <= self.end {
                self.end - self.start
            } else {
                self.start - self.end
            },
    {
        let (s, e) = self.range();
        e - s
    }
}

/// The view of a selection that may be missing.
pub open spec fn opt_sel_view(s: Option<Selection>) -> Option<crate::domain::cursor::Selection> {
    match s {
        Some(x) => Some(x@),
        None => None,
    }
}

/// Where a move to the start of a word lands from `p`, over the chars `chars`.
fn word_start_in(chars: &Vec<char>, p: usize) -> (r: usize)
    ensures
        r == word_start_from(chars@, p as int),
{
    let n = chars.len();
    let mut new_pos = p;
    if new_pos > 0 {
        if new_pos < n && word_char(chars[new_pos]) {
            while new_pos > 0 && word_char(chars[new_pos - 1])
                invariant
                    new_pos <= p,
                    p < n,
                    n == chars@.len(),
                    back_over_word(chars@, new_pos as int) == back_over_word(chars@, p as int),
                decreases new_pos,
            {
                new_pos = new_pos - 1;
            }
        } else {
            while new_pos < n && !word_char(chars[new_pos])
                invariant
                    p <= new_pos,
                    n == chars@.len(),
                    forward_over_nonword(chars@, new_pos as int) == forward_over_nonword(
                        chars@,
                        p as int,
                    ),
                decreases n - new_pos,
            {
                new_pos = new_pos + 1;
            }
        }
    }
    new_pos
}

/// Where a move to the end of a word lands from `p`, over the chars `chars`.
fn word_end_in(chars: &Vec<char>, p: usize) -> (r: usize)
    ensures
        r == word_end_from(chars@, p as int),
{
    let len = chars.len();
    let mut new_pos = p;
    if !(p < len && word_char(chars[p])) {
        while new_pos < len && !word_char(chars[new_pos])
            invariant
                p <= new_pos,
                len == chars@.len(),
                forward_over_nonword(chars@, new_pos as int) == forward_over_nonword(
                    chars@,
                    p as int,
                ),
            decreases len - new_pos,
        {
            new_pos = new_pos + 1;
        }
    }
    let ghost a = new_pos;
    while new_pos < len && word_char(chars[new_pos])
        invariant
            a <= new_pos,
            len == chars@.len(),
            forward_over_word(chars@, new_pos as int) == forward_over_word(chars@, a as int),
        decreases len - new_pos,
    {
        new_pos = new_pos + 1;
    }
    if new_pos < len {
        new_pos
    } else {
        len
    }
}

/// A caret in a buffer, with an optional selection and the column that
/// vertical moves aim for.
pub struct Cursor {
    position: usize,
    selection: Option<Selection>,
    preferred_col: Option<usize>,
}

impl View for Cursor {
    type V = CursorState;

    closed spec fn view(&self) -> CursorState {
        CursorState {
            pos: self.position,
            sel: opt_sel_view(self.selection),
            pref: self.preferred_col,
        }
    }
}

impl Cursor {
    /// A cursor with caret `pos`, selection `sel` and kept column `pref`.
    pub(crate) fn from_parts(
        pos: usize,
        sel: Option<crate::domain::cursor::Selection>,
        pref: Option<usize>,
    ) -> (c: Self)
        ensures
            c@ == (CursorState { pos, sel, pref }),
    {
        let selection = match sel {
            Some(x) => Some(Selection { start: x.start, end: x.end }),
            None => None,
        };
        Cursor { position: pos, selection, preferred_col: pref }
    }

    /// The caret, selection and kept column of the cursor.
    pub(crate) fn parts(&self) -> (r: (usize, Option<crate::domain::cursor::Selection>, Option<usize>))
        ensures
            r == (self@.pos, self@.sel, self@.pref),
    {
        let sel = match self.selection {
            Some(x) => Some(crate::domain::cursor::Selection { start: x.start, end: x.end }),
            None => None,
        };
        (self.position, sel, self.preferred_col)
    }
}

impl Cursor {
    pub fn new() -> (c: Self)
        ensures
            c@ == caret_at(0),
    {
        Self { position: 0, selection: None, preferred_col: None }
    }

    pub fn position(&self) -> (p: usize)
        ensures
            p == self@.pos,
    {
        self.position
    }

    pub fn set_position(&mut self, pos: usize)
        ensures
            final(self)@ == caret_at(pos as int),
    {
        self.position = pos;
        self.selection = None;
        self.preferred_col = None;
    }

    pub fn selection(&self) -> (s: Option<Selection>)
        ensures
            opt_sel_view(s) == self@.sel,
    {
        self.selection
    }

    /// Starts an empty selection at the caret, unless one exists.
    pub fn start_selection(&mut self)
        ensures
            final(self)@ == if old(self)@.sel is None {
                CursorState {
                    sel: Some(
                        crate::domain::cursor::Selection {
                            start: old(self)@.pos,
                            end: old(self)@.pos,
                        },
                    ),
                    ..old(self)@
                }
            } else {
                old(self)@
            },
    {
        if self.selection.is_none() {
            self.selection = Some(Selection::new(self.position, self.position));
        }
    }

    pub fn end_selection(&mut self)
        ensures
            final(self)@ == (CursorState { sel: None, ..old(self)@ }),
    {
        self.selection = None;
    }

    pub fn extend_selection(&mut self, pos: usize)
        ensures
            final(self)@ == extended_to(old(self)@, pos as int),
    {
        if let Some(sel) = self.selection {
            self.selection = Some(Selection { start: sel.start, end: pos });
        } else {
            self.selection = Some(Selection::new(self.position, pos));
        }
        self.position = pos;
    }

    pub fn set_selection_start(&mut self, pos: usize)
        ensures
            final(self)@ == (CursorState {
                sel: Some(crate::domain::cursor::Selection { start: pos, end: old(self)@.pos }),
                ..old(self)@
            }),
    {
        self.selection = Some(Selection::new(pos, self.position));
    }

    pub fn set_selection_end(&mut self, pos: usize)
        ensures
            final(self)@ == (CursorState {
                sel: Some(crate::domain::cursor::sel_to(old(self)@, pos as int)),
                ..old(self)@
            }),
    {
        if let Some(sel) = self.selection {
            self.selection = Some(Selection { start: sel.start, end: pos });
        } else {
            self.selection = Some(Selection::new(self.position, pos));
        }
    }

    pub fn clear_selection(&mut self)
        ensures
            final(self)@ == (CursorState { sel: None, ..old(self)@ }),
    {
        self.selection = None;
    }

    pub fn extend_selection_backward(&mut self)
        ensures
            final(self)@ == if old(self)@.pos > 0 {
                extended_to(old(self)@, old(self)@.pos - 1)
            } else {
                old(self)@
            },
    {
        if self.position > 0 {
            self.extend_selection(self.position - 1);
        }
    }

    pub fn extend_selection_forward(&mut self, buffer_len: usize)
        ensures
            final(self)@ == if old(self)@.pos < buffer_len {
                extended_to(old(self)@, old(self)@.pos + 1)
            } else {
                old(self)@
            },
    {
        if self.position < buffer_len {
            self.extend_selection(self.position + 1);
        }
    }

    pub fn extend_selection_up(&mut self, buffer: &Buffer)
        requires
            old(self)@.pos <= buffer@.len(),
        ensures
            final(self)@ == extended_up(old(self)@, buffer@),
    {
        let (line, col) = buffer.char_to_line_col(self.position);
        if line > 0 {
            let target_col = match self.preferred_col {
                Some(c) => c,
                None => col,
            };
            let new_pos = vertical_move_target(buffer, line - 1, target_col);
            self.extend_selection(new_pos);
            self.preferred_col = Some(target_col);
        }
    }

    pub fn extend_selection_down(&mut self, buffer: &Buffer)
        requires
            old(self)@.pos <= buffer@.len(),
        ensures
            final(self)@ == extended_down(old(self)@, buffer@),
    {
        let (line, col) = buffer.char_to_line_col(self.position);
        let lines = buffer.len_lines();
        if line + 1 < lines {
            let target_col = match self.preferred_col {
                Some(c) => c,
                None => col,
            };
            let new_pos = vertical_move_target(buffer, line + 1, target_col);
            self.extend_selection(new_pos);
            self.preferred_col = Some(target_col);
        }
    }

    /// Move cursor to the start of the current word
    pub fn move_to_word_start(&mut self, buffer: &Buffer)
        ensures
            final(self)@ == caret_at(word_start_from(buffer@, old(self)@.pos as int)),
    {
        let text = buffer.as_str();
        let chars = chars_of(text.as_str());
        let new_pos = word_start_in(&chars, self.position);
        self.position = new_pos;
        self.selection = None;
        self.preferred_col = None;
    }

    /// Move cursor to the end of the current word
    pub fn move_to_word_end(&mut self, buffer: &Buffer)
        ensures
            final(self)@ == caret_at(word_end_from(buffer@, old(self)@.pos as int)),
    {
        let text = buffer.as_str();
        let chars = chars_of(text.as_str());
        let new_pos = word_end_in(&chars, self.position);
        self.position = new_pos;
        self.selection = None;
        self.preferred_col = None;
    }

    /// Extend selection to word start
    pub fn extend_selection_to_word_start(&mut self, buffer: &Buffer)
        ensures
            final(self)@ == extended_to(old(self)@, word_start_from(buffer@, old(self)@.pos as int)),
    {
        let text = buffer.as_str();
        let chars = chars_of(text.as_str());
        let new_pos = word_start_in(&chars, self.position);
        self.extend_selection(new_pos);
    }

    /// Extend selection to word end
    pub fn extend_selection_to_word_end(&mut self, buffer: &Buffer)
        ensures
            final(self)@ == extended_to(old(self)@, word_end_from(buffer@, old(self)@.pos as int)),
    {
        let text = buffer.as_str();
        let chars = chars_of(text.as_str());
        let new_pos = word_end_in(&chars, self.position);
        self.extend_selection(new_pos);
    }

    /// Select the entire line at cursor position
    pub fn select_line(&mut self, buffer: &Buffer)
        requires
            old(self)@.pos <= buffer@.len(),
        ensures
            final(self)@ == line_selected(old(self)@, buffer@),
    {
        let (line, _) = buffer.char_to_line_col(self.position);
        proof {
            lemma_line_content_len(buffer@, line as int);
        }
        let _ = buffer.len_chars();
        let start = buffer.line_to_char(line);
        let end = start + buffer.line_len_chars(line);
        self.selection = Some(Selection { start, end });
        self.position = end;
        self.preferred_col = Some(end - start);
    }

    /// Select the word at cursor position
    pub fn select_word_at_cursor(&mut self, buffer: &Buffer)
        requires
            old(self)@.pos <= buffer@.len(),
        ensures
            final(self)@ == word_selected(old(self)@, buffer@),
    {
        let text = buffer.as_str();
        let pos = self.position;
        let chars = chars_of(text.as_str());
        let mut start = pos;
        let mut end = pos;
        while start > 0 && word_char(chars[start - 1])
            invariant
                start <= pos,
                pos <= chars@.len(),
                back_over_word(chars@, start as int) == back_over_word(chars@, pos as int),
            decreases start,
        {
            start = start - 1;
        }
        while end < chars.len() && word_char(chars[end])
            invariant
                pos <= end,
                forward_over_word(chars@, end as int) == forward_over_word(chars@, pos as int),
            decreases chars@.len() - end,
        {
            end = end + 1;
        }
        self.selection = Some(Selection { start, end });
        self.position = end;
    }

    pub fn move_forward(&mut self, buffer_len: usize)
        ensures
            final(self)@ == caret_at(
                if old(self)@.pos < buffer_len {
                    old(self)@.pos + 1
                } else {
                    old(self)@.pos as int
                },
            ),
    {
        if self.position < buffer_len {
            self.position = self.position + 1;
        }
        self.selection = None;
        self.preferred_col = None;
    }

    pub fn move_backward(&mut self)
        ensures
            final(self)@ == caret_at(
                if old(self)@.pos > 0 {
                    old(self)@.pos - 1
                } else {
                    0
                },
            ),
    {
        if self.position > 0 {
            self.position = self.position - 1;
        }
        self.selection = None;
        self.preferred_col = None;
    }

    pub fn move_to_line_start(&mut self, buffer: &Buffer)
        requires
            old(self)@.pos <= buffer@.len(),
        ensures
            final(self)@ == at_line_start(old(self)@, buffer@),
    {
        let (line, _) = buffer.char_to_line_col(self.position);
        proof {
            lemma_line_start_increasing(buffer@, line as int);
        }
        if let Some(idx) = buffer.line_col_to_char(line, 0) {
            self.position = idx;
        }
        self.selection = None;
        self.preferred_col = Some(0);
    }

    pub fn move_to_line_end(&mut self, buffer: &Buffer)
        requires
            old(self)@.pos <= buffer@.len(),
        ensures
            final(self)@ == at_line_end(old(self)@, buffer@),
    {
        let (line, _) = buffer.char_to_line_col(self.position);
        proof {
            lemma_line_content_len(buffer@, line as int);
        }
        let _ = buffer.len_chars();
        let col = line_content_chars(buffer, line);
        self.position = buffer.line_to_char(line) + col;
        self.preferred_col = Some(col);
        self.selection = None;
    }

    pub fn move_up(&mut self, buffer: &Buffer)
        requires
            old(self)@.pos <= buffer@.len(),
        ensures
            final(self)@ == moved_up(old(self)@, buffer@),
    {
        let (line, col) = buffer.char_to_line_col(self.position);
        if line > 0 {
            let target_col = match self.preferred_col {
                Some(c) => c,
                None => col,
            };
            self.position = vertical_move_target(buffer, line - 1, target_col);
            self.preferred_col = Some(target_col);
        }
        self.selection = None;
    }

    pub fn move_down(&mut self, buffer: &Buffer)
        requires
            old(self)@.pos <= buffer@.len(),
        ensures
            final(self)@ == moved_down(old(self)@, buffer@),
    {
        let (line, col) = buffer.char_to_line_col(self.position);
        let lines = buffer.len_lines();
        if line + 1 < lines {
            let target_col = match self.preferred_col {
                Some(c) => c,
                None => col,
            };
            self.position = vertical_move_target(buffer, line + 1, target_col);
            self.preferred_col = Some(target_col);
        }
        self.selection = None;
    }
}

} // verus!

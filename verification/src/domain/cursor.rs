use crate::domain::buffer::Buffer;
use crate::text::{
    back_over_word, chars_of, column_of, forward_over_nonword, forward_over_word,
    is_line_start, lemma_index_in_line, lemma_line_content_len, lemma_line_start,
    lemma_line_start_increasing, line_count,
    line_content_len, line_len, line_of, line_start, vertical_target, word_at, word_char,
    word_end_from, word_start_from,
};
use vstd::prelude::*;

verus! {

/// A selection between an anchor (`start`) and the moving end (`end`).
/// The two ends are kept as given; `range` gives them in order.
#[derive(Clone, Copy, Debug)]
pub struct Selection {
    pub start: usize,
    pub end: usize,
}

/// The smaller of the two ends of a selection.
pub open spec fn sel_low(s: Selection) -> usize {
    if s.start <= s.end { s.start } else { s.end }
}

/// The larger of the two ends of a selection.
pub open spec fn sel_high(s: Selection) -> usize {
    if s.start <= s.end { s.end } else { s.start }
}

impl Selection {
    pub fn new(start: usize, end: usize) -> (r: Self)
        ensures
            r.start == start,
            r.end == end,
    {
        Self { start, end }
    }

    /// The two ends in increasing order.
    pub fn range(&self) -> (r: (usize, usize))
        ensures
            r == (sel_low(*self), sel_high(*self)),
            r.0 <= r.1,
    {
        if self.start <= self.end {
            (self.start, self.end)
        } else {
            (self.end, self.start)
        }
    }

    pub fn is_empty(&self) -> (r: bool)
        ensures
            r == (self.start == self.end),
    {
        let (s, e) = self.range();
        s == e
    }

    /// The number of characters between the two ends.
    pub fn len(&self) -> (r: usize)
        ensures
            r == sel_high(*self) - sel_low(*self),
    {
        let (s, e) = self.range();
        e - s
    }
}

/// A caret in a buffer, with an optional selection and the column that
/// vertical moves aim for.
pub struct Cursor {
    position: usize,
    selection: Option<Selection>,
    preferred_col: Option<usize>,
}

/// The char at `idx` is a word char (false past the end).
fn word_char_at(buffer: &Buffer, idx: usize) -> (r: bool)
    ensures
        r == word_at(buffer@, idx as int),
{
    match buffer.get_char(idx) {
        Some(c) => word_char(c),
        None => false,
    }
}

/// From `p`, back over the word chars just before it.
fn scan_back_over_word(buffer: &Buffer, p: usize) -> (r: usize)
    ensures
        r == back_over_word(buffer@, p as int),
{
    let mut q = p;
    while q > 0 && word_char_at(buffer, q - 1)
        invariant
            q <= p,
            back_over_word(buffer@, q as int) == back_over_word(buffer@, p as int),
        decreases q,
    {
        q = q - 1;
    }
    q
}

/// From `p`, forward over the word chars (`want_word`) or over the other
/// chars, up to `len`.
fn scan_forward(buffer: &Buffer, p: usize, len: usize, want_word: bool) -> (r: usize)
    requires
        len == buffer@.len(),
    ensures
        want_word ==> r == forward_over_word(buffer@, p as int),
        !want_word ==> r == forward_over_nonword(buffer@, p as int),
{
    let mut q = p;
    while q < len && word_char_at(buffer, q) == want_word
        invariant
            p <= q,
            len == buffer@.len(),
            want_word ==> forward_over_word(buffer@, q as int) == forward_over_word(
                buffer@,
                p as int,
            ),
            !want_word ==> forward_over_nonword(buffer@, q as int) == forward_over_nonword(
                buffer@,
                p as int,
            ),
        decreases len - q,
    {
        q = q + 1;
    }
    q
}

/// Where a move to the start of a word lands from `p`.
fn word_start_target(buffer: &Buffer, p: usize) -> (r: usize)
    ensures
        r == word_start_from(buffer@, p as int),
{
    let len = buffer.len_chars();
    let mut new_pos = p;
    if new_pos > 0 {
        if word_char_at(buffer, new_pos) {
            new_pos = scan_back_over_word(buffer, new_pos);
        } else {
            new_pos = scan_forward(buffer, new_pos, len, false);
        }
    }
    new_pos
}

/// Where a move to the end of a word lands from `p`.
fn word_end_target(buffer: &Buffer, p: usize) -> (r: usize)
    ensures
        r == word_end_from(buffer@, p as int),
{
    let len = buffer.len_chars();
    let a = if word_char_at(buffer, p) {
        p
    } else {
        scan_forward(buffer, p, len, false)
    };
    let b = scan_forward(buffer, a, len, true);
    if b < len {
        b
    } else {
        len
    }
}

/// The number of chars of line `line` without its line break.
pub(crate) fn line_content_chars(buffer: &Buffer, line: usize) -> (n: usize)
    requires
        line < line_count(buffer@),
    ensures
        n == line_content_len(buffer@, line as int),
{
    proof {
        lemma_line_content_len(buffer@, line as int);
    }
    let lines = buffer.len_lines();
    match buffer.line(line) {
        Some(t) => {
            let cs = chars_of(t.as_str());
            let n = cs.len();
            if line + 1 >= lines {
                n
            } else if n >= 2 && cs[n - 2] == '\r' && cs[n - 1] == '\n' {
                n - 2
            } else {
                n - 1
            }
        },
        None => 0,
    }
}

/// Where a vertical move into `line`, wanting column `target`, lands.
pub(crate) fn vertical_move_target(buffer: &Buffer, line: usize, target: usize) -> (r: usize)
    requires
        line < line_count(buffer@),
    ensures
        r == vertical_target(buffer@, line as int, target as int),
        r <= buffer@.len(),
{
    proof {
        lemma_line_content_len(buffer@, line as int);
    }
    let _ = buffer.len_chars();
    let n = line_content_chars(buffer, line);
    let col = if target <= n {
        target
    } else {
        n
    };
    buffer.line_to_char(line) + col
}

/// What a cursor holds: the caret, the selection, the kept column.
pub struct CursorState {
    pub pos: usize,
    pub sel: Option<Selection>,
    pub pref: Option<usize>,
}

impl View for Cursor {
    type V = CursorState;

    closed spec fn view(&self) -> CursorState {
        CursorState { pos: self.position, sel: self.selection, pref: self.preferred_col }
    }
}

impl Cursor {
    /// A cursor with caret `pos`, selection `sel` and kept column `pref`.
    pub(crate) fn from_parts(pos: usize, sel: Option<Selection>, pref: Option<usize>) -> (c: Self)
        ensures
            c@ == (CursorState { pos, sel, pref }),
    {
        Cursor { position: pos, selection: sel, preferred_col: pref }
    }

    /// The caret, selection and kept column of the cursor.
    pub(crate) fn parts(&self) -> (r: (usize, Option<Selection>, Option<usize>))
        ensures
            r == (self@.pos, self@.sel, self@.pref),
    {
        (self.position, self.selection, self.preferred_col)
    }
}

/// The caret at `p`, with no selection and no kept column.
pub open spec fn caret_at(p: int) -> CursorState {
    CursorState { pos: p as usize, sel: None, pref: None }
}

/// The selection of `c` with its moving end at `p` (from the caret when there
/// is none).
pub open spec fn sel_to(c: CursorState, p: int) -> Selection {
    match c.sel {
        Some(s) => Selection { start: s.start, end: p as usize },
        None => Selection { start: c.pos, end: p as usize },
    }
}

/// The caret moved to `p` with the selection extended to it.
pub open spec fn extended_to(c: CursorState, p: int) -> CursorState {
    CursorState { pos: p as usize, sel: Some(sel_to(c, p)), pref: c.pref }
}

/// The column that a vertical move of `c` aims for in `s`.
pub open spec fn wanted_col(c: CursorState, s: Seq<char>) -> int {
    match c.pref {
        Some(col) => col as int,
        None => column_of(s, c.pos as int),
    }
}

/// A vertical move into `line`: the caret lands where `vertical_target` says,
/// the selection goes, the column is kept.
pub open spec fn moved_vertically(c: CursorState, s: Seq<char>, line: int) -> CursorState {
    CursorState {
        pos: vertical_target(s, line, wanted_col(c, s)) as usize,
        sel: None,
        pref: Some(wanted_col(c, s) as usize),
    }
}

/// Moving up a line (on the first line only the selection goes).
pub open spec fn moved_up(c: CursorState, s: Seq<char>) -> CursorState {
    let line = line_of(s, c.pos as int) as int;
    if line > 0 {
        moved_vertically(c, s, line - 1)
    } else {
        CursorState { sel: None, ..c }
    }
}

/// Moving down a line (on the last line only the selection goes).
pub open spec fn moved_down(c: CursorState, s: Seq<char>) -> CursorState {
    let line = line_of(s, c.pos as int) as int;
    if line + 1 < line_count(s) {
        moved_vertically(c, s, line + 1)
    } else {
        CursorState { sel: None, ..c }
    }
}

/// A vertical extension into `line`: to where `vertical_target` says, with
/// the wanted column kept.
pub open spec fn extended_vertically(c: CursorState, s: Seq<char>, line: int) -> CursorState {
    let t = wanted_col(c, s);
    CursorState { pref: Some(t as usize), ..extended_to(c, vertical_target(s, line, t)) }
}

/// Extending the selection up a line (nothing happens on the first line).
pub open spec fn extended_up(c: CursorState, s: Seq<char>) -> CursorState {
    let line = line_of(s, c.pos as int) as int;
    if line > 0 {
        extended_vertically(c, s, line - 1)
    } else {
        c
    }
}

/// Extending the selection down a line (nothing happens on the last line).
pub open spec fn extended_down(c: CursorState, s: Seq<char>) -> CursorState {
    let line = line_of(s, c.pos as int) as int;
    if line + 1 < line_count(s) {
        extended_vertically(c, s, line + 1)
    } else {
        c
    }
}

/// The selection of the caret's line, its line break included, with the
/// caret at the end of the selection.
pub open spec fn line_selected(c: CursorState, s: Seq<char>) -> CursorState {
    let line = line_of(s, c.pos as int) as int;
    let start = line_start(s, line);
    let end = start + line_len(s, line);
    CursorState {
        pos: end as usize,
        sel: Some(Selection { start: start as usize, end: end as usize }),
        pref: Some((end - start) as usize),
    }
}

/// The selection of the word around the caret, with the caret at its end.
pub open spec fn word_selected(c: CursorState, s: Seq<char>) -> CursorState {
    let start = back_over_word(s, c.pos as int);
    let end = forward_over_word(s, c.pos as int);
    CursorState {
        pos: end as usize,
        sel: Some(Selection { start: start as usize, end: end as usize }),
        pref: c.pref,
    }
}

/// The caret at the start of its line, with column 0 kept.
pub open spec fn at_line_start(c: CursorState, s: Seq<char>) -> CursorState {
    CursorState {
        pos: line_start(s, line_of(s, c.pos as int) as int) as usize,
        sel: None,
        pref: Some(0),
    }
}

/// The caret at the end of its line's text, before the line break, with
/// that column kept.
pub open spec fn at_line_end(c: CursorState, s: Seq<char>) -> CursorState {
    let line = line_of(s, c.pos as int) as int;
    let col = line_content_len(s, line);
    CursorState { pos: (line_start(s, line) + col) as usize, sel: None, pref: Some(col as usize) }
}

/// Lines start in order.
proof fn lemma_line_start_mono(s: Seq<char>, a: int, b: int)
    requires
        0 <= a <= b < line_count(s),
    ensures
        line_start(s, a) <= line_start(s, b),
    decreases b - a,
{
    if a < b {
        lemma_line_start_mono(s, a, b - 1);
        lemma_line_start_increasing(s, b - 1);
    }
}

/// An index from the start of line `l` to the end of its text lies on line
/// `l`.
proof fn lemma_in_line(s: Seq<char>, l: int, i: int)
    requires
        0 <= l < line_count(s),
        line_start(s, l) <= i <= line_start(s, l) + line_content_len(s, l),
    ensures
        line_of(s, i) == l,
{
    lemma_line_content_len(s, l);
    lemma_line_start(s, l);
    lemma_line_start_increasing(s, l);
    lemma_index_in_line(s, i);
    let m = line_of(s, i) as int;
    if m > l {
        lemma_line_start_mono(s, l + 1, m);
    } else if m < l {
        lemma_line_start_mono(s, m + 1, l);
    }
}

/// Moving up from any line but the first lands on the line above, moving
/// down from any line but the last lands on the line below, and so do the
/// vertical extensions of the selection; End keeps the caret on its line.
pub proof fn law_vertical_moves_cross_one_line(c: CursorState, s: Seq<char>)
    requires
        c.pos <= s.len(),
        s.len() <= usize::MAX,
    ensures
        line_of(s, c.pos as int) > 0 ==> line_of(s, moved_up(c, s).pos as int) == line_of(
            s,
            c.pos as int,
        ) - 1 && line_of(s, extended_up(c, s).pos as int) == line_of(s, c.pos as int) - 1,
        line_of(s, c.pos as int) + 1 < line_count(s) ==> line_of(s, moved_down(c, s).pos as int)
            == line_of(s, c.pos as int) + 1 && line_of(s, extended_down(c, s).pos as int) == line_of(
            s,
            c.pos as int,
        ) + 1,
        line_of(s, at_line_end(c, s).pos as int) == line_of(s, c.pos as int),
{
    let l = line_of(s, c.pos as int) as int;
    lemma_index_in_line(s, c.pos as int);
    let t = wanted_col(c, s);
    assert(t >= 0);
    lemma_line_content_len(s, l);
    lemma_in_line(s, l, line_start(s, l) + line_content_len(s, l));
    lemma_line_start(s, l);
    if l > 0 {
        lemma_line_start(s, l - 1);
        lemma_line_content_len(s, l - 1);
        let p = vertical_target(s, l - 1, t);
        lemma_in_line(s, l - 1, p);
        assert(moved_up(c, s).pos == p);
        assert(extended_up(c, s).pos == p);
    }
    if l + 1 < line_count(s) {
        lemma_line_start(s, l + 1);
        lemma_line_content_len(s, l + 1);
        let p = vertical_target(s, l + 1, t);
        lemma_in_line(s, l + 1, p);
        assert(moved_down(c, s).pos == p);
        assert(extended_down(c, s).pos == p);
    }
}

/// A vertical move keeps the column it aimed for: moving down and then up
/// (or up and then down) from a caret with no kept column brings it back to
/// its column on its own line, or to the end of that line's text when the
/// line is shorter; the same holds of extending the selection down and up.
pub proof fn law_vertical_moves_keep_column(c: CursorState, s: Seq<char>)
    requires
        c.pos <= s.len(),
        s.len() <= usize::MAX,
        c.pref is None,
    ensures
        ({
            let l = line_of(s, c.pos as int) as int;
            let col = column_of(s, c.pos as int);
            let back = line_start(s, l) + if col <= line_content_len(s, l) {
                col
            } else {
                line_content_len(s, l)
            };
            &&& l + 1 < line_count(s) ==> moved_down(c, s).pref == Some(col as usize)
                && moved_up(moved_down(c, s), s).pos == back && extended_up(
                extended_down(c, s),
                s,
            ).pos == back
            &&& l > 0 ==> moved_up(c, s).pref == Some(col as usize) && moved_down(
                moved_up(c, s),
                s,
            ).pos == back && extended_down(extended_up(c, s), s).pos == back
            &&& col <= line_content_len(s, l) ==> back == c.pos
        }),
{
    let l = line_of(s, c.pos as int) as int;
    lemma_index_in_line(s, c.pos as int);
    lemma_line_content_len(s, l);
    lemma_line_start(s, l);
    law_vertical_moves_cross_one_line(c, s);
    if l + 1 < line_count(s) {
        lemma_line_content_len(s, l + 1);
        lemma_line_start(s, l + 1);
        let d = moved_down(c, s);
        let e = extended_down(c, s);
        assert(d.pos <= s.len());
        assert(e.pos <= s.len());
        law_vertical_moves_cross_one_line(d, s);
    }
    if l > 0 {
        lemma_line_content_len(s, l - 1);
        lemma_line_start(s, l - 1);
        let d = moved_up(c, s);
        let e = extended_up(c, s);
        assert(d.pos <= s.len());
        assert(e.pos <= s.len());
    }
}

/// Selecting the line of a caret inside the text selects from the start of
/// that line to the start of the next line (or the end of the text on the
/// last line), so the caret lies within it, and puts the caret at its end.
pub proof fn law_line_selected(c: CursorState, s: Seq<char>)
    requires
        c.pos <= s.len(),
        s.len() <= usize::MAX,
    ensures
        ({
            let r = line_selected(c, s);
            let l = line_of(s, c.pos as int);
            &&& r.sel is Some
            &&& r.pos == r.sel->0.end
            &&& r.sel->0.start <= c.pos <= r.sel->0.end <= s.len()
            &&& is_line_start(s, r.sel->0.start as int)
            &&& line_of(s, r.sel->0.start as int) == l
            &&& if l + 1 < line_count(s) {
                is_line_start(s, r.sel->0.end as int) && line_of(s, r.sel->0.end as int) == l + 1
            } else {
                r.sel->0.end == s.len()
            }
        }),
{
    let l = line_of(s, c.pos as int) as int;
    lemma_index_in_line(s, c.pos as int);
    lemma_line_content_len(s, l);
    lemma_line_start(s, l);
    if l + 1 < line_count(s) {
        lemma_line_start(s, l + 1);
    }
}

impl Cursor {
    pub fn new() -> (c: Self)
        ensures
            c@ == caret_at(0),
    {
        Self { position: 0, selection: None, preferred_col: None }
    }

    pub fn position(&self) -> (p: usize)
        ensures
            p == self@.pos,
    {
        self.position
    }

    /// Puts the caret at `pos`, dropping the selection and the kept column.
    pub fn set_position(&mut self, pos: usize)
        ensures
            final(self)@ == caret_at(pos as int),
    {
        self.position = pos;
        self.selection = None;
        self.preferred_col = None;
    }

    pub fn selection(&self) -> (s: Option<Selection>)
        ensures
            s == self@.sel,
    {
        self.selection
    }

    /// Moves the caret to `pos`, extending the selection to it: a selection
    /// keeps its anchor, and without one a selection from the old caret to
    /// `pos` is made.
    pub fn extend_selection(&mut self, pos: usize)
        ensures
            final(self)@ == extended_to(old(self)@, pos as int),
    {
        if let Some(sel) = self.selection {
            self.selection = Some(Selection { start: sel.start, end: pos });
        } else {
            self.selection = Some(Selection::new(self.position, pos));
        }
        self.position = pos;
    }

    /// Selects from `pos` to the caret.
    pub fn set_selection_start(&mut self, pos: usize)
        ensures
            final(self)@ == (CursorState {
                sel: Some(Selection { start: pos, end: old(self)@.pos }),
                ..old(self)@
            }),
    {
        self.selection = Some(Selection::new(pos, self.position));
    }

    /// Moves the end of the selection to `pos` (from the caret when there is
    /// no selection); the caret stays.
    pub fn set_selection_end(&mut self, pos: usize)
        ensures
            final(self)@ == (CursorState { sel: Some(sel_to(old(self)@, pos as int)), ..old(self)@ }),
    {
        if let Some(sel) = self.selection {
            self.selection = Some(Selection { start: sel.start, end: pos });
        } else {
            self.selection = Some(Selection::new(self.position, pos));
        }
    }

    pub fn clear_selection(&mut self)
        ensures
            final(self)@ == (CursorState { sel: None, ..old(self)@ }),
    {
        self.selection = None;
    }

    /// Extends the selection one char back, unless the caret is at 0.
    pub fn extend_selection_backward(&mut self)
        ensures
            final(self)@ == if old(self)@.pos > 0 {
                extended_to(old(self)@, old(self)@.pos - 1)
            } else {
                old(self)@
            },
    {
        if self.position > 0 {
            self.extend_selection(self.position - 1);
        }
    }

    /// Extends the selection one char forward, unless the caret is at
    /// `buffer_len` or past it.
    pub fn extend_selection_forward(&mut self, buffer_len: usize)
        ensures
            final(self)@ == if old(self)@.pos < buffer_len {
                extended_to(old(self)@, old(self)@.pos + 1)
            } else {
                old(self)@
            },
    {
        if self.position < buffer_len {
            self.extend_selection(self.position + 1);
        }
    }

    /// Extends the selection to the line above, aiming for the kept column
    /// (else the caret's column); nothing happens on the first line.
    pub fn extend_selection_up(&mut self, buffer: &Buffer)
        requires
            old(self)@.pos <= buffer@.len(),
        ensures
            final(self)@ == extended_up(old(self)@, buffer@),
    {
        let (line, col) = buffer.char_to_line_col(self.position);
        if line > 0 {
            let target_col = match self.preferred_col {
                Some(c) => c,
                None => col,
            };
            let new_pos = vertical_move_target(buffer, line - 1, target_col);
            self.extend_selection(new_pos);
            self.preferred_col = Some(target_col);
        }
    }

    /// Extends the selection to the line below, aiming for the kept column
    /// (else the caret's column); nothing happens on the last line.
    pub fn extend_selection_down(&mut self, buffer: &Buffer)
        requires
            old(self)@.pos <= buffer@.len(),
        ensures
            final(self)@ == extended_down(old(self)@, buffer@),
    {
        let (line, col) = buffer.char_to_line_col(self.position);
        let lines = buffer.len_lines();
        if line + 1 < lines {
            let target_col = match self.preferred_col {
                Some(c) => c,
                None => col,
            };
            let new_pos = vertical_move_target(buffer, line + 1, target_col);
            self.extend_selection(new_pos);
            self.preferred_col = Some(target_col);
        }
    }

    /// Moves the caret to the start of the word that holds it, or (outside a
    /// word) to the start of the next word; drops the selection.
    pub fn move_to_word_start(&mut self, buffer: &Buffer)
        ensures
            final(self)@ == caret_at(word_start_from(buffer@, old(self)@.pos as int)),
    {
        let new_pos = word_start_target(buffer, self.position);
        self.position = new_pos;
        self.selection = None;
        self.preferred_col = None;
    }

    /// Moves the caret to the end of the word that holds it, or (outside a
    /// word) to the end of the next word; drops the selection.
    pub fn move_to_word_end(&mut self, buffer: &Buffer)
        ensures
            final(self)@ == caret_at(word_end_from(buffer@, old(self)@.pos as int)),
    {
        let new_pos = word_end_target(buffer, self.position);
        self.position = new_pos;
        self.selection = None;
        self.preferred_col = None;
    }

    /// Extends the selection to where `move_to_word_start` would go.
    pub fn extend_selection_to_word_start(&mut self, buffer: &Buffer)
        ensures
            final(self)@ == extended_to(old(self)@, word_start_from(buffer@, old(self)@.pos as int)),
    {
        let new_pos = word_start_target(buffer, self.position);
        self.extend_selection(new_pos);
    }

    /// Extends the selection to where `move_to_word_end` would go.
    pub fn extend_selection_to_word_end(&mut self, buffer: &Buffer)
        ensures
            final(self)@ == extended_to(old(self)@, word_end_from(buffer@, old(self)@.pos as int)),
    {
        let new_pos = word_end_target(buffer, self.position);
        self.extend_selection(new_pos);
    }

    /// Selects the caret's line, its line break included, and puts the caret
    /// at the end of the selection.
    pub fn select_line(&mut self, buffer: &Buffer)
        requires
            old(self)@.pos <= buffer@.len(),
        ensures
            final(self)@ == line_selected(old(self)@, buffer@),
            final(self)@.pos <= buffer@.len(),
    {
        let (line, _) = buffer.char_to_line_col(self.position);
        proof {
            lemma_line_content_len(buffer@, line as int);
        }
        let _ = buffer.len_chars();
        let start = buffer.line_to_char(line);
        let end = start + buffer.line_len_chars(line);
        self.selection = Some(Selection { start, end });
        self.position = end;
        self.preferred_col = Some(end - start);
    }

    /// Selects the word around the caret and puts the caret at its end.
    pub fn select_word_at_cursor(&mut self, buffer: &Buffer)
        ensures
            final(self)@ == word_selected(old(self)@, buffer@),
    {
        let len = buffer.len_chars();
        let pos = self.position;
        let start = scan_back_over_word(buffer, pos);
        let end = scan_forward(buffer, pos, len, true);
        self.selection = Some(Selection { start, end });
        self.position = end;
    }

    /// Moves the caret one char forward, unless it is at `buffer_len` or past
    /// it; drops the selection either way.
    pub fn move_forward(&mut self, buffer_len: usize)
        ensures
            final(self)@ == caret_at(
                if old(self)@.pos < buffer_len {
                    old(self)@.pos + 1
                } else {
                    old(self)@.pos as int
                },
            ),
    {
        if self.position < buffer_len {
            self.position = self.position + 1;
        }
        self.selection = None;
        self.preferred_col = None;
    }

    /// Moves the caret one char back (it stays at 0); drops the selection.
    pub fn move_backward(&mut self)
        ensures
            final(self)@ == caret_at(
                if old(self)@.pos > 0 {
                    old(self)@.pos - 1
                } else {
                    0
                },
            ),
    {
        if self.position > 0 {
            self.position = self.position - 1;
        }
        self.selection = None;
        self.preferred_col = None;
    }

    /// Moves the caret to the start of its line; drops the selection and keeps
    /// column 0 for vertical moves.
    pub fn move_to_line_start(&mut self, buffer: &Buffer)
        requires
            old(self)@.pos <= buffer@.len(),
        ensures
            final(self)@ == at_line_start(old(self)@, buffer@),
            final(self)@.pos <= buffer@.len(),
    {
        let (line, _) = buffer.char_to_line_col(self.position);
        proof {
            lemma_line_start_increasing(buffer@, line as int);
        }
        if let Some(idx) = buffer.line_col_to_char(line, 0) {
            self.position = idx;
        }
        self.selection = None;
        self.preferred_col = Some(0);
    }

    /// Moves the caret to the end of its line's text, before the line break,
    /// and keeps that column; drops the selection.
    pub fn move_to_line_end(&mut self, buffer: &Buffer)
        requires
            old(self)@.pos <= buffer@.len(),
        ensures
            final(self)@ == at_line_end(old(self)@, buffer@),
            final(self)@.pos <= buffer@.len(),
    {
        let (line, _) = buffer.char_to_line_col(self.position);
        proof {
            lemma_line_content_len(buffer@, line as int);
        }
        let _ = buffer.len_chars();
        let col = line_content_chars(buffer, line);
        self.position = buffer.line_to_char(line) + col;
        self.preferred_col = Some(col);
        self.selection = None;
    }

    /// Moves the caret to the line above, aiming for the kept column (else the
    /// caret's column); drops the selection.
    pub fn move_up(&mut self, buffer: &Buffer)
        requires
            old(self)@.pos <= buffer@.len(),
        ensures
            final(self)@ == moved_up(old(self)@, buffer@),
            final(self)@.pos <= buffer@.len(),
    {
        let (line, col) = buffer.char_to_line_col(self.position);
        if line > 0 {
            let target_col = match self.preferred_col {
                Some(c) => c,
                None => col,
            };
            self.position = vertical_move_target(buffer, line - 1, target_col);
            self.preferred_col = Some(target_col);
        }
        self.selection = None;
    }

    /// Moves the caret to the line below, aiming for the kept column (else the
    /// caret's column); drops the selection.
    pub fn move_down(&mut self, buffer: &Buffer)
        requires
            old(self)@.pos <= buffer@.len(),
        ensures
            final(self)@ == moved_down(old(self)@, buffer@),
            final(self)@.pos <= buffer@.len(),
    {
        let (line, col) = buffer.char_to_line_col(self.position);
        let lines = buffer.len_lines();
        if line + 1 < lines {
            let target_col = match self.preferred_col {
                Some(c) => c,
                None => col,
            };
            self.position = vertical_move_target(buffer, line + 1, target_col);
            self.preferred_col = Some(target_col);
        }
        self.selection = None;
    }

    /// Selects from `start` to `end` with the caret at `end`.
    pub fn select_range(&mut self, start: usize, end: usize)
        ensures
            final(self)@ == (CursorState {
                pos: end,
                sel: Some(Selection { start, end }),
                pref: None,
            }),
    {
        self.position = start;
        self.selection = Some(Selection::new(start, start));
        self.extend_selection(end);
        self.preferred_col = None;
    }
}

impl Default for Cursor {
    fn default() -> (c: Self)
        ensures
            c@ == caret_at(0),
    {
        Self::new()
    }
}

} // verus!

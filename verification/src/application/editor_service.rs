use crate::domain::buffer::Buffer;
use crate::domain::cursor::{
    at_line_end, at_line_start, caret_at, extended_down, extended_to, extended_up, line_selected,
    moved_down, moved_up, sel_high, sel_low, word_selected, Cursor, CursorState, Selection,
};
use crate::domain::operations::{recorded, HistoryState, OpView, OperationHistory};
use crate::text::{chars_of, line_of, line_start, line_text, word_end_from, word_start_from};
use vstd::prelude::*;

verus! {

/// Everything an editor holds, as the contracts see it.
pub struct EditorView {
    pub text: Seq<char>,
    pub cursor: CursorState,
    pub history: HistoryState,
    pub file_path: Option<Seq<char>>,
    pub modified: bool,
    pub show_line_numbers: bool,
    pub show_status_bar: bool,
    pub find_query: Option<Seq<char>>,
}

/// The view of a `String` that may be missing.
pub open spec fn opt_string_view(s: Option<String>) -> Option<Seq<char>> {
    match s {
        Some(t) => Some(t@),
        None => None,
    }
}

/// The editor with its caret at `p`, no selection and no kept column.
pub open spec fn placed(v: EditorView, p: int) -> EditorView {
    EditorView { cursor: caret_at(p), ..v }
}

/// `t` with `len` chars removed from `idx` on, when they all lie in `t`.
pub open spec fn removed_text(t: Seq<char>, idx: int, len: int) -> Seq<char> {
    if idx + len <= t.len() {
        t.take(idx) + t.skip(idx + len)
    } else {
        t
    }
}

/// `t` with `ins` put at `idx`, when `idx` lies in `t` or at its end.
pub open spec fn inserted_text(t: Seq<char>, idx: int, ins: Seq<char>) -> Seq<char> {
    if idx <= t.len() {
        t.take(idx) + ins + t.skip(idx)
    } else {
        t
    }
}

/// The chars of `t` from `s` to `e`, cut short at the end of `t`.
pub open spec fn chars_between(t: Seq<char>, s: int, e: int) -> Seq<char> {
    let lo = if s < t.len() {
        s
    } else {
        t.len() as int
    };
    let hi = if e < t.len() {
        e
    } else {
        t.len() as int
    };
    t.subrange(lo, hi)
}

/// Deleting chars `s..e` as a command does it: the buffer loses them (when
/// they all lie in it), the deleted chars are recorded for undo, and the
/// buffer counts as modified.
pub open spec fn erased(v: EditorView, s: int, e: int) -> EditorView {
    EditorView {
        text: removed_text(v.text, s, e - s),
        modified: true,
        history: recorded(
            v.history,
            OpView::Delete { position: s as usize, text: chars_between(v.text, s, e) },
        ),
        ..v
    }
}

/// The ends, in order, of a selection that is not empty.
pub open spec fn selected_span(v: EditorView) -> Option<(int, int)> {
    match v.cursor.sel {
        Some(sel) => if sel.start != sel.end {
            Some((sel_low(sel) as int, sel_high(sel) as int))
        } else {
            None
        },
        None => None,
    }
}

/// A selection that is not empty is deleted and the caret goes to its start.
pub open spec fn selection_deleted(v: EditorView) -> EditorView {
    match selected_span(v) {
        Some((s, e)) => placed(erased(v, s, e), s),
        None => v,
    }
}

/// The chars of `t` are typed one by one at the caret: each is inserted (when
/// the caret lies in the buffer), recorded for undo, and moves the caret on.
pub open spec fn typed(v: EditorView, t: Seq<char>) -> EditorView
    decreases t.len(),
{
    if t.len() == 0 {
        v
    } else {
        let p = v.cursor.pos as int;
        let v1 = placed(
            EditorView {
                text: inserted_text(v.text, p, seq![t[0]]),
                modified: true,
                history: recorded(v.history, OpView::Insert { position: v.cursor.pos, text: seq![t[0]] }),
                ..v
            },
            p + 1,
        );
        typed(v1, t.drop_first())
    }
}

/// Text input: a selection that is not empty is replaced by the typed text.
pub open spec fn text_input(v: EditorView, t: Seq<char>) -> EditorView {
    typed(selection_deleted(v), t)
}

/// Backspace: a selection that is not empty is deleted; else the char before
/// the caret is deleted and the caret steps back onto its place.
pub open spec fn backspaced(v: EditorView) -> EditorView {
    match selected_span(v) {
        Some((s, e)) => placed(erased(v, s, e), s),
        None => if 0 < v.cursor.pos && v.cursor.pos - 1 < v.text.len() {
            placed(erased(v, v.cursor.pos - 1, v.cursor.pos as int), v.cursor.pos - 1)
        } else {
            v
        },
    }
}

/// Delete: a selection that is not empty is deleted; else the char at the
/// caret is deleted and the caret stays.
pub open spec fn deleted_forward(v: EditorView) -> EditorView {
    match selected_span(v) {
        Some((s, e)) => placed(erased(v, s, e), s),
        None => if v.cursor.pos < v.text.len() {
            erased(v, v.cursor.pos as int, v.cursor.pos + 1)
        } else {
            v
        },
    }
}

/// Paste: a selection that is not empty is deleted, then `t` is inserted at
/// the caret, recorded for undo, and the caret moves past it.
pub open spec fn pasted(v: EditorView, t: Seq<char>) -> EditorView {
    let v1 = selection_deleted(v);
    let p = v1.cursor.pos as int;
    placed(
        EditorView {
            text: inserted_text(v1.text, p, t),
            modified: true,
            history: recorded(v1.history, OpView::Insert { position: v1.cursor.pos, text: t }),
            ..v1
        },
        p + t.len(),
    )
}

/// The number of spaces and tabs that `t` starts with.
pub open spec fn leading_indent(t: Seq<char>) -> nat
    decreases t.len(),
{
    if t.len() > 0 && (t[0] == ' ' || t[0] == '\t') {
        1 + leading_indent(t.drop_first())
    } else {
        0
    }
}

/// Unindent: up to four of the spaces and tabs that start the caret's line
/// are deleted and recorded for undo; a caret past the line's start moves
/// back by as many chars.
pub open spec fn unindented(v: EditorView) -> EditorView {
    let s = v.text;
    let line = line_of(s, v.cursor.pos as int) as int;
    let lt = line_text(s, line);
    let n = leading_indent(lt);
    let start = line_start(s, line);
    let r = if n >= 4 {
        4
    } else {
        n as int
    };
    if n > 0 {
        let v1 = EditorView {
            text: removed_text(s, start, r),
            modified: true,
            history: recorded(v.history, OpView::Delete { position: start as usize, text: lt.take(r) }),
            ..v
        };
        if v.cursor.pos > start {
            placed(v1, v.cursor.pos - r)
        } else {
            v1
        }
    } else {
        v
    }
}

/// Unindent runs without a panic: the caret lies in the text, and a caret past
/// its line's start is at least as far from 0 as the chars that go.
pub open spec fn unindent_ok(v: EditorView) -> bool {
    let s = v.text;
    let line = line_of(s, v.cursor.pos as int) as int;
    let n = leading_indent(line_text(s, line));
    &&& v.cursor.pos <= s.len()
    &&& (n > 0 && v.cursor.pos > line_start(s, line)) ==> v.cursor.pos >= (if n >= 4 {
        4
    } else {
        n as int
    })
}

/// Select all: a selection from 0 to the end of a buffer that is not empty.
pub open spec fn all_selected(v: EditorView) -> EditorView {
    if v.text.len() > 0 {
        EditorView {
            cursor: CursorState {
                sel: Some(Selection { start: 0, end: v.text.len() as usize }),
                ..v.cursor
            },
            ..v
        }
    } else {
        v
    }
}

/// Undoing `op`: an insert is taken out again, with the caret at its
/// position; a delete is put back, with the caret just past it.
pub open spec fn undo_applied(v: EditorView, op: OpView) -> EditorView {
    match op {
        OpView::Insert { position, text } => placed(
            EditorView {
                text: removed_text(v.text, position as int, text.len() as int),
                modified: true,
                ..v
            },
            position as int,
        ),
        OpView::Delete { position, text } => placed(
            EditorView {
                text: inserted_text(v.text, position as int, text),
                modified: true,
                ..v
            },
            position + text.len(),
        ),
    }
}

/// Redoing with `op`, the edit that the redo stack holds: undo put there the
/// reverse of the edit it undid, so redoing takes that reverse back, which
/// makes the undone edit again (an insert is put in again, a delete taken
/// out again).
pub open spec fn redo_applied(v: EditorView, op: OpView) -> EditorView {
    undo_applied(v, op)
}

/// The position of an edit plus the length of its text fits a `usize`.
pub open spec fn op_fits(op: OpView) -> bool {
    match op {
        OpView::Insert { position, text } => position + text.len() <= usize::MAX,
        OpView::Delete { position, text } => position + text.len() <= usize::MAX,
    }
}

/// `q` occurs in `t` at index `i`.
pub open spec fn matches_at(t: Seq<char>, q: Seq<char>, i: int) -> bool {
    &&& 0 <= i
    &&& i + q.len() <= t.len()
    &&& forall|j: int| 0 <= j < q.len() ==> t[i + j] == q[j]
}

/// The first index from `lo` on at which `q` occurs in `t` and ends by `hi`.
pub open spec fn first_match(t: Seq<char>, q: Seq<char>, lo: int, hi: int) -> Option<int>
    decreases hi - lo,
{
    if lo < 0 || lo + q.len() > hi {
        None
    } else if matches_at(t, q, lo) {
        Some(lo)
    } else if lo >= hi {
        None
    } else {
        first_match(t, q, lo + 1, hi)
    }
}

/// The last index from `lo` on at which `q` occurs in `t` and ends by `hi`.
pub open spec fn last_match(t: Seq<char>, q: Seq<char>, lo: int, hi: int) -> Option<int>
    decreases hi,
{
    if hi - q.len() < lo || hi < 0 {
        None
    } else if matches_at(t, q, hi - q.len()) {
        Some(hi - q.len())
    } else if hi <= 0 {
        None
    } else {
        last_match(t, q, lo, hi - 1)
    }
}

/// The range of a match of `q` in `t` that starts at `i`.
pub open spec fn match_range(i: Option<int>, q: Seq<char>) -> Option<(int, int)> {
    match i {
        Some(s) => Some((s, s + q.len())),
        None => None,
    }
}

/// Searching forward: the first match that starts at `from` or later, else
/// (wrapping around) the first one that ends by `from`.
pub open spec fn find_next_in(t: Seq<char>, q: Seq<char>, from: int) -> Option<(int, int)> {
    if q.len() == 0 || t.len() == 0 {
        None
    } else {
        let f = if from < t.len() {
            from
        } else {
            t.len() as int
        };
        match first_match(t, q, f, t.len() as int) {
            Some(i) => Some((i, i + q.len())),
            None => match_range(first_match(t, q, 0, f), q),
        }
    }
}

/// Searching backward: the last match that ends by `from`, else (wrapping
/// around) the last one in the whole text.
pub open spec fn find_prev_in(t: Seq<char>, q: Seq<char>, from: int) -> Option<(int, int)> {
    if q.len() == 0 || t.len() == 0 {
        None
    } else {
        let f = if from < t.len() {
            from
        } else {
            t.len() as int
        };
        match last_match(t, q, 0, f) {
            Some(i) => Some((i, i + q.len())),
            None => match_range(last_match(t, q, 0, t.len() as int), q),
        }
    }
}

/// The query that a search uses: the last one set, or none.
pub open spec fn query_of(v: EditorView) -> Seq<char> {
    match v.find_query {
        Some(q) => q,
        None => Seq::<char>::empty(),
    }
}

/// A search result: the match is selected with the caret at its end.
pub open spec fn found(v: EditorView, r: Option<(int, int)>) -> EditorView {
    match r {
        Some((s, e)) => EditorView {
            cursor: CursorState {
                pos: e as usize,
                sel: Some(Selection { start: s as usize, end: e as usize }),
                pref: None,
            },
            ..v
        },
        None => v,
    }
}

/// A new file: an empty, unnamed, unmodified buffer with no history.
pub open spec fn emptied(v: EditorView) -> EditorView {
    EditorView {
        text: Seq::<char>::empty(),
        cursor: caret_at(0),
        history: (Seq::<OpView>::empty(), Seq::<OpView>::empty()),
        file_path: None,
        modified: false,
        ..v
    }
}

/// What `find_next` makes of the editor.
pub open spec fn after_find_next(v: EditorView) -> EditorView {
    let q = query_of(v);
    if q.len() > 0 {
        found(v, find_next_in(v.text, q, v.cursor.pos as int))
    } else {
        v
    }
}

/// Where a backward search starts: at the start of the selection, so that
/// the match selected now is passed over, else at the caret.
pub open spec fn search_back_from(c: CursorState) -> int {
    match c.sel {
        Some(sel) => sel_low(sel) as int,
        None => c.pos as int,
    }
}

/// What `find_prev` makes of the editor.
pub open spec fn after_find_prev(v: EditorView) -> EditorView {
    let q = query_of(v);
    if q.len() > 0 {
        found(v, find_prev_in(v.text, q, search_back_from(v.cursor)))
    } else {
        v
    }
}

/// What `first_match` finds is a match that starts at `lo` or later and ends
/// by `hi`.
pub proof fn lemma_first_match(t: Seq<char>, q: Seq<char>, lo: int, hi: int)
    ensures
        first_match(t, q, lo, hi) matches Some(i) ==> matches_at(t, q, i) && lo <= i && i
            + q.len() <= hi,
    decreases hi - lo,
{
    if !(lo < 0 || lo + q.len() > hi) && !matches_at(t, q, lo) && lo < hi {
        lemma_first_match(t, q, lo + 1, hi);
    }
}

/// What `last_match` finds is a match that starts at `lo` or later and ends
/// by `hi`.
pub proof fn lemma_last_match(t: Seq<char>, q: Seq<char>, lo: int, hi: int)
    ensures
        last_match(t, q, lo, hi) matches Some(i) ==> matches_at(t, q, i) && lo <= i && i
            + q.len() <= hi,
    decreases hi,
{
    if !(hi - q.len() < lo || hi < 0) && !matches_at(t, q, hi - q.len()) && hi > 0 {
        lemma_last_match(t, q, lo, hi - 1);
    }
}

/// `last_match` finds the occurrence that starts last among those from `lo`
/// on that end by `hi`, and none only when there is none.
proof fn lemma_last_match_is_last(t: Seq<char>, q: Seq<char>, lo: int, hi: int)
    requires
        0 <= lo,
    ensures
        match last_match(t, q, lo, hi) {
            Some(i) => matches_at(t, q, i) && lo <= i && i + q.len() <= hi && forall|j: int|
                i < j && j + q.len() <= hi ==> !#[trigger] matches_at(t, q, j),
            None => forall|j: int| lo <= j && j + q.len() <= hi ==> !#[trigger] matches_at(t, q, j),
        },
    decreases hi,
{
    if !(hi - q.len() < lo || hi < 0) && !matches_at(t, q, hi - q.len()) && hi > 0 {
        lemma_last_match_is_last(t, q, lo, hi - 1);
        assert forall|j: int| lo <= j && j + q.len() == hi implies !#[trigger] matches_at(t, q, j) by {
            assert(j == hi - q.len());
        }
    }
}

/// `first_match` finds the occurrence that starts first among those from
/// `lo` on that end by `hi`, and none only when there is none.
proof fn lemma_first_match_is_first(t: Seq<char>, q: Seq<char>, lo: int, hi: int)
    requires
        0 <= lo,
    ensures
        match first_match(t, q, lo, hi) {
            Some(i) => matches_at(t, q, i) && lo <= i && i + q.len() <= hi && forall|j: int|
                lo <= j < i ==> !#[trigger] matches_at(t, q, j),
            None => forall|j: int| lo <= j && j + q.len() <= hi ==> !#[trigger] matches_at(t, q, j),
        },
    decreases hi - lo,
{
    if !(lo < 0 || lo + q.len() > hi) && !matches_at(t, q, lo) && lo < hi {
        lemma_first_match_is_first(t, q, lo + 1, hi);
    }
}

/// Find previous, for a query that is not empty, selects the nearest
/// occurrence before the search start `from` (cut at the end of the text):
/// of the occurrences that end by there, the one that starts last. When
/// none ends by there it wraps around to the occurrence that starts last in
/// the whole text, and it finds nothing only when the query does not occur.
pub proof fn law_find_prev_nearest(t: Seq<char>, q: Seq<char>, from: int)
    requires
        q.len() > 0,
        0 <= from,
    ensures
        ({
            let f = if from < t.len() {
                from
            } else {
                t.len() as int
            };
            let r = find_prev_in(t, q, from);
            &&& (exists|i: int| 0 <= i && i + q.len() <= f && #[trigger] matches_at(t, q, i))
                ==> match r {
                Some((s, e)) => e == s + q.len() <= f && matches_at(t, q, s) && forall|i: int|
                    s < i && i + q.len() <= f ==> !#[trigger] matches_at(t, q, i),
                None => false,
            }
            &&& (forall|i: int| 0 <= i && i + q.len() <= f ==> !#[trigger] matches_at(t, q, i))
                ==> match r {
                Some((s, e)) => e == s + q.len() && matches_at(t, q, s) && forall|i: int|
                    s < i && i + q.len() <= t.len() ==> !#[trigger] matches_at(t, q, i),
                None => forall|i: int| 0 <= i ==> !#[trigger] matches_at(t, q, i),
            }
        }),
{
    let f = if from < t.len() {
        from
    } else {
        t.len() as int
    };
    lemma_last_match_is_last(t, q, 0, f);
    lemma_last_match_is_last(t, q, 0, t.len() as int);
}

/// Find next, for a query that is not empty, selects the nearest occurrence
/// from the search start `from` (cut at the end of the text) on: of the
/// occurrences that start there or later, the one that starts first. When
/// there is none it wraps around to the first occurrence that ends by the
/// search start.
pub proof fn law_find_next_nearest(t: Seq<char>, q: Seq<char>, from: int)
    requires
        q.len() > 0,
        0 <= from,
    ensures
        ({
            let f = if from < t.len() {
                from
            } else {
                t.len() as int
            };
            let r = find_next_in(t, q, from);
            &&& (exists|i: int| f <= i && #[trigger] matches_at(t, q, i)) ==> match r {
                Some((s, e)) => e == s + q.len() && f <= s && matches_at(t, q, s) && forall|i: int|
                    f <= i < s ==> !#[trigger] matches_at(t, q, i),
                None => false,
            }
            &&& (forall|i: int| f <= i ==> !#[trigger] matches_at(t, q, i)) ==> match r {
                Some((s, e)) => e == s + q.len() <= f && matches_at(t, q, s) && forall|i: int|
                    0 <= i < s ==> !#[trigger] matches_at(t, q, i),
                None => forall|i: int| 0 <= i && i + q.len() <= f ==> !#[trigger] matches_at(t, q, i),
            }
        }),
{
    let f = if from < t.len() {
        from
    } else {
        t.len() as int
    };
    lemma_first_match_is_first(t, q, f, t.len() as int);
    lemma_first_match_is_first(t, q, 0, f);
}

/// Find next and find previous only ever select an occurrence of the query:
/// the range they give holds the query, char for char.
pub proof fn law_found_ranges_match(t: Seq<char>, q: Seq<char>, from: int)
    ensures
        find_next_in(t, q, from) matches Some((s, e)) ==> matches_at(t, q, s) && e == s + q.len(),
        find_prev_in(t, q, from) matches Some((s, e)) ==> matches_at(t, q, s) && e == s + q.len(),
{
    let f = if from < t.len() {
        from
    } else {
        t.len() as int
    };
    lemma_first_match(t, q, f, t.len() as int);
    lemma_first_match(t, q, 0, f);
    lemma_last_match(t, q, 0, f);
    lemma_last_match(t, q, 0, t.len() as int);
}

/// Whether `q` occurs in `t` at `i`, for `i + q.len() <= t.len()`.
fn matches_at_exec(t: &Vec<char>, q: &Vec<char>, i: usize) -> (r: bool)
    requires
        i + q@.len() <= t@.len(),
    ensures
        r == matches_at(t@, q@, i as int),
{
    let n = t.len();
    let mut j: usize = 0;
    while j < q.len()
        invariant
            j <= q@.len(),
            i + q@.len() <= t@.len(),
            n == t@.len(),
            forall|k: int| 0 <= k < j ==> t@[i + k] == q@[k],
        decreases q@.len() - j,
    {
        if t[i + j] != q[j] {
            return false;
        }
        j = j + 1;
    }
    true
}

fn first_match_exec(t: &Vec<char>, q: &Vec<char>, lo: usize, hi: usize) -> (r: Option<usize>)
    requires
        hi <= t@.len(),
    ensures
        r is Some <==> first_match(t@, q@, lo as int, hi as int) is Some,
        r matches Some(i) ==> first_match(t@, q@, lo as int, hi as int) == Some(i as int) && i
            + q@.len() <= hi,
{
    let mut i = lo;
    while i <= hi && q.len() <= hi - i
        invariant
            lo <= i,
            hi <= t@.len(),
            first_match(t@, q@, i as int, hi as int) == first_match(t@, q@, lo as int, hi as int),
        decreases hi - i,
    {
        if matches_at_exec(t, q, i) {
            return Some(i);
        }
        i = i + 1;
    }
    None
}

fn last_match_exec(t: &Vec<char>, q: &Vec<char>, lo: usize, hi: usize) -> (r: Option<usize>)
    requires
        hi <= t@.len(),
    ensures
        r is Some <==> last_match(t@, q@, lo as int, hi as int) is Some,
        r matches Some(i) ==> last_match(t@, q@, lo as int, hi as int) == Some(i as int) && i
            + q@.len() <= hi,
{
    let mut h = hi;
    while q.len() <= h && lo <= h - q.len()
        invariant
            h <= hi,
            hi <= t@.len(),
            last_match(t@, q@, lo as int, h as int) == last_match(t@, q@, lo as int, hi as int),
        decreases h,
    {
        if matches_at_exec(t, q, h - q.len()) {
            return Some(h - q.len());
        }
        if h == 0 {
            return None;
        }
        h = h - 1;
    }
    None
}

/// The range of the first match of `query` in `buffer` from `from` on,
/// wrapping around to the start.
fn find_next_range(buffer: &Buffer, query: &str, from: usize) -> (r: Option<(usize, usize)>)
    ensures
        r is Some <==> find_next_in(buffer@, query@, from as int) is Some,
        r matches Some((s, e)) ==> find_next_in(buffer@, query@, from as int) == Some((s as int, e as int)),
        r matches Some((s, e)) ==> s <= e <= buffer@.len(),
{
    let total = buffer.len_chars();
    let q = chars_of(query);
    if q.len() == 0 || total == 0 {
        return None;
    }
    let qlen = q.len();
    let from = if from < total {
        from
    } else {
        total
    };
    let text = buffer.as_str();
    let t = chars_of(text.as_str());
    if let Some(start) = first_match_exec(&t, &q, from, total) {
        return Some((start, start + qlen));
    }
    if let Some(start) = first_match_exec(&t, &q, 0, from) {
        return Some((start, start + qlen));
    }
    None
}

/// The range of the last match of `query` in `buffer` that ends by `from`,
/// wrapping around to the end.
fn find_prev_range(buffer: &Buffer, query: &str, from: usize) -> (r: Option<(usize, usize)>)
    ensures
        r is Some <==> find_prev_in(buffer@, query@, from as int) is Some,
        r matches Some((s, e)) ==> find_prev_in(buffer@, query@, from as int) == Some((s as int, e as int)),
        r matches Some((s, e)) ==> s <= e <= buffer@.len(),
{
    let total = buffer.len_chars();
    let q = chars_of(query);
    if q.len() == 0 || total == 0 {
        return None;
    }
    let qlen = q.len();
    let from = if from < total {
        from
    } else {
        total
    };
    let text = buffer.as_str();
    let t = chars_of(text.as_str());
    if let Some(start) = last_match_exec(&t, &q, 0, from) {
        return Some((start, start + qlen));
    }
    if let Some(start) = last_match_exec(&t, &q, 0, total) {
        return Some((start, start + qlen));
    }
    None
}

/// An editor: a buffer, a cursor, an edit history, and the state around them.
pub struct EditorService {
    buffer: Buffer,
    cursor: Cursor,
    history: OperationHistory,
    file_path: Option<String>,
    is_modified: bool,
    show_line_numbers: bool,
    show_status_bar: bool,
    last_find_query: Option<String>,
}

impl View for EditorService {
    type V = EditorView;

    closed spec fn view(&self) -> EditorView {
        EditorView {
            text: self.buffer@,
            cursor: self.cursor@,
            history: self.history@,
            file_path: opt_string_view(self.file_path),
            modified: self.is_modified,
            show_line_numbers: self.show_line_numbers,
            show_status_bar: self.show_status_bar,
            find_query: opt_string_view(self.last_find_query),
        }
    }
}

/// The state of a fresh editor.
pub open spec fn fresh_editor() -> EditorView {
    EditorView {
        text: Seq::<char>::empty(),
        cursor: caret_at(0),
        history: (Seq::<OpView>::empty(), Seq::<OpView>::empty()),
        file_path: None,
        modified: false,
        show_line_numbers: true,
        show_status_bar: true,
        find_query: None,
    }
}

impl EditorService {
    /// An editor made of the given parts, showing line numbers and the status
    /// bar, with no query.
    pub(crate) fn from_parts(
        buffer: Buffer,
        cursor: Cursor,
        history: OperationHistory,
        file_path: Option<String>,
        is_modified: bool,
    ) -> (e: Self)
        ensures
            e@ == (EditorView {
                text: buffer@,
                cursor: cursor@,
                history: history@,
                file_path: opt_string_view(file_path),
                modified: is_modified,
                show_line_numbers: true,
                show_status_bar: true,
                find_query: None,
            }),
    {
        EditorService {
            buffer,
            cursor,
            history,
            file_path,
            is_modified,
            show_line_numbers: true,
            show_status_bar: true,
            last_find_query: None,
        }
    }

    /// The buffer, cursor, history, file path and modified flag of the editor.
    pub(crate) fn into_parts(self) -> (r: (Buffer, Cursor, OperationHistory, Option<String>, bool))
        ensures
            r.0@ == self@.text,
            r.1@ == self@.cursor,
            r.2@ == self@.history,
            opt_string_view(r.3) == self@.file_path,
            r.4 == self@.modified,
    {
        (self.buffer, self.cursor, self.history, self.file_path, self.is_modified)
    }
}

impl EditorService {
    pub fn new() -> (e: Self)
        ensures
            e@ == fresh_editor(),
    {
        Self {
            buffer: Buffer::new(),
            cursor: Cursor::new(),
            history: OperationHistory::new(),
            file_path: None,
            is_modified: false,
            show_line_numbers: true,
            show_status_bar: true,
            last_find_query: None,
        }
    }

    pub fn buffer(&self) -> (b: &Buffer)
        ensures
            b@ == self@.text,
    {
        &self.buffer
    }

    /// The buffer, to change it; the editor counts as modified.
    pub fn buffer_mut(&mut self) -> (b: &mut Buffer)
        ensures
            b@ == old(self)@.text,
            final(self)@ == (EditorView { text: final(b)@, modified: true, ..old(self)@ }),
    {
        self.is_modified = true;
        &mut self.buffer
    }

    pub fn cursor(&self) -> (c: &Cursor)
        ensures
            c@ == self@.cursor,
    {
        &self.cursor
    }

    pub fn cursor_mut(&mut self) -> (c: &mut Cursor)
        ensures
            c@ == old(self)@.cursor,
            final(self)@ == (EditorView { cursor: final(c)@, ..old(self)@ }),
    {
        &mut self.cursor
    }

    pub fn history_mut(&mut self) -> (h: &mut OperationHistory)
        ensures
            h@ == old(self)@.history,
            final(self)@ == (EditorView { history: final(h)@, ..old(self)@ }),
    {
        &mut self.history
    }

    /// Names the file the buffer belongs to; the buffer counts as saved.
    pub fn set_file_path(&mut self, path: String)
        ensures
            final(self)@ == (EditorView { file_path: Some(path@), modified: false, ..old(self)@ }),
    {
        self.file_path = Some(path);
        self.is_modified = false;
    }

    pub fn file_path(&self) -> (p: Option<&str>)
        ensures
            p is Some <==> self@.file_path is Some,
            p matches Some(s) ==> self@.file_path == Some(s@),
    {
        match &self.file_path {
            Some(p) => Some(p.as_str()),
            None => None,
        }
    }

    pub fn is_modified(&self) -> (r: bool)
        ensures
            r == self@.modified,
    {
        self.is_modified
    }

    pub fn set_modified(&mut self, modified: bool)
        ensures
            final(self)@ == (EditorView { modified, ..old(self)@ }),
    {
        self.is_modified = modified;
    }

    pub fn show_line_numbers(&self) -> (r: bool)
        ensures
            r == self@.show_line_numbers,
    {
        self.show_line_numbers
    }

    pub fn toggle_line_numbers(&mut self)
        ensures
            final(self)@ == (EditorView {
                show_line_numbers: !old(self)@.show_line_numbers,
                ..old(self)@
            }),
    {
        self.show_line_numbers = !self.show_line_numbers;
    }

    pub fn show_status_bar(&self) -> (r: bool)
        ensures
            r == self@.show_status_bar,
    {
        self.show_status_bar
    }

    pub fn toggle_status_bar(&mut self)
        ensures
            final(self)@ == (EditorView {
                show_status_bar: !old(self)@.show_status_bar,
                ..old(self)@
            }),
    {
        self.show_status_bar = !self.show_status_bar;
    }

    /// Selects the next match of the last query (wrapping around) and tells
    /// whether there was one; without a query nothing happens.
    pub fn find_next(&mut self) -> (r: bool)
        ensures
            ({
                let v = old(self)@;
                let q = query_of(v);
                let m = find_next_in(v.text, q, v.cursor.pos as int);
                &&& r == (q.len() > 0 && m is Some)
                &&& final(self)@ == after_find_next(v)
            }),
    {
        let query = match &self.last_find_query {
            Some(q) => q.clone(),
            None => String::new(),
        };
        if query.as_str().is_empty() {
            return false;
        }
        self.last_find_query = Some(query.clone());
        let total = self.buffer.len_chars();
        let pos = self.cursor.position();
        let from = if pos < total {
            pos
        } else {
            total
        };
        if let Some((s, e)) = find_next_range(&self.buffer, query.as_str(), from) {
            self.cursor.select_range(s, e);
            return true;
        }
        false
    }

    /// Selects the last match of the last query that ends by the start of the
    /// selection (else by the caret), wrapping around, and tells whether there
    /// was one; without a query nothing happens.
    pub fn find_prev(&mut self) -> (r: bool)
        ensures
            ({
                let v = old(self)@;
                let q = query_of(v);
                let m = find_prev_in(v.text, q, search_back_from(v.cursor));
                &&& r == (q.len() > 0 && m is Some)
                &&& final(self)@ == after_find_prev(v)
            }),
    {
        let query = match &self.last_find_query {
            Some(q) => q.clone(),
            None => String::new(),
        };
        if query.as_str().is_empty() {
            return false;
        }
        self.last_find_query = Some(query.clone());
        let total = self.buffer.len_chars();
        let pos = match self.cursor.selection() {
            Some(sel) => sel.range().0,
            None => self.cursor.position(),
        };
        let from = if pos < total {
            pos
        } else {
            total
        };
        if let Some((s, e)) = find_prev_range(&self.buffer, query.as_str(), from) {
            self.cursor.select_range(s, e);
            return true;
        }
        false
    }

    pub fn set_find_query(&mut self, query: Option<String>)
        ensures
            final(self)@ == (EditorView { find_query: opt_string_view(query), ..old(self)@ }),
    {
        self.last_find_query = query;
    }

    pub fn find_query(&self) -> (q: Option<&str>)
        ensures
            q is Some <==> self@.find_query is Some,
            q matches Some(s) ==> self@.find_query == Some(s@),
    {
        match &self.last_find_query {
            Some(q) => Some(q.as_str()),
            None => None,
        }
    }

    /// Starts an empty, unnamed, unmodified buffer with no history.
    pub fn new_file(&mut self)
        ensures
            final(self)@ == emptied(old(self)@),
    {
        self.buffer.clear();
        self.cursor.set_position(0);
        self.history.clear();
        self.file_path = None;
        self.is_modified = false;
    }

    /// Replaces the text by `content`, with the caret at 0 and no history.
    pub fn load_content(&mut self, content: String)
        ensures
            final(self)@ == (EditorView {
                text: content@,
                cursor: caret_at(0),
                history: (Seq::<OpView>::empty(), Seq::<OpView>::empty()),
                ..old(self)@
            }),
    {
        self.buffer.set_content(content.as_str());
        self.cursor.set_position(0);
        self.history.clear();
    }
}

impl EditorService {
    pub fn cursor_move_up(&mut self)
        requires
            old(self)@.cursor.pos <= old(self)@.text.len(),
        ensures
            final(self)@ == (EditorView { cursor: moved_up(old(self)@.cursor, old(self)@.text), ..old(self)@ }),
            final(self)@.cursor.pos <= final(self)@.text.len(),
    {
        self.cursor.move_up(&self.buffer);
    }

    pub fn cursor_move_down(&mut self)
        requires
            old(self)@.cursor.pos <= old(self)@.text.len(),
        ensures
            final(self)@ == (EditorView {
                cursor: moved_down(old(self)@.cursor, old(self)@.text),
                ..old(self)@
            }),
            final(self)@.cursor.pos <= final(self)@.text.len(),
    {
        self.cursor.move_down(&self.buffer);
    }

    pub fn cursor_extend_selection_up(&mut self)
        requires
            old(self)@.cursor.pos <= old(self)@.text.len(),
        ensures
            final(self)@ == (EditorView {
                cursor: extended_up(old(self)@.cursor, old(self)@.text),
                ..old(self)@
            }),
    {
        self.cursor.extend_selection_up(&self.buffer);
    }

    pub fn cursor_extend_selection_down(&mut self)
        requires
            old(self)@.cursor.pos <= old(self)@.text.len(),
        ensures
            final(self)@ == (EditorView {
                cursor: extended_down(old(self)@.cursor, old(self)@.text),
                ..old(self)@
            }),
    {
        self.cursor.extend_selection_down(&self.buffer);
    }

    pub fn cursor_move_to_word_start(&mut self)
        ensures
            final(self)@ == (EditorView {
                cursor: caret_at(word_start_from(old(self)@.text, old(self)@.cursor.pos as int)),
                ..old(self)@
            }),
    {
        self.cursor.move_to_word_start(&self.buffer);
    }

    pub fn cursor_move_to_word_end(&mut self)
        ensures
            final(self)@ == (EditorView {
                cursor: caret_at(word_end_from(old(self)@.text, old(self)@.cursor.pos as int)),
                ..old(self)@
            }),
    {
        self.cursor.move_to_word_end(&self.buffer);
    }

    pub fn cursor_extend_selection_to_word_start(&mut self)
        ensures
            final(self)@ == (EditorView {
                cursor: extended_to(
                    old(self)@.cursor,
                    word_start_from(old(self)@.text, old(self)@.cursor.pos as int),
                ),
                ..old(self)@
            }),
    {
        self.cursor.extend_selection_to_word_start(&self.buffer);
    }

    pub fn cursor_extend_selection_to_word_end(&mut self)
        ensures
            final(self)@ == (EditorView {
                cursor: extended_to(
                    old(self)@.cursor,
                    word_end_from(old(self)@.text, old(self)@.cursor.pos as int),
                ),
                ..old(self)@
            }),
    {
        self.cursor.extend_selection_to_word_end(&self.buffer);
    }

    pub fn cursor_move_to_line_start(&mut self)
        requires
            old(self)@.cursor.pos <= old(self)@.text.len(),
        ensures
            final(self)@ == (EditorView {
                cursor: at_line_start(old(self)@.cursor, old(self)@.text),
                ..old(self)@
            }),
            final(self)@.cursor.pos <= final(self)@.text.len(),
    {
        self.cursor.move_to_line_start(&self.buffer);
    }

    pub fn cursor_move_to_line_end(&mut self)
        requires
            old(self)@.cursor.pos <= old(self)@.text.len(),
        ensures
            final(self)@ == (EditorView {
                cursor: at_line_end(old(self)@.cursor, old(self)@.text),
                ..old(self)@
            }),
            final(self)@.cursor.pos <= final(self)@.text.len(),
    {
        self.cursor.move_to_line_end(&self.buffer);
    }

    pub fn cursor_select_word(&mut self)
        ensures
            final(self)@ == (EditorView {
                cursor: word_selected(old(self)@.cursor, old(self)@.text),
                ..old(self)@
            }),
    {
        self.cursor.select_word_at_cursor(&self.buffer);
    }

    pub fn cursor_select_line(&mut self)
        requires
            old(self)@.cursor.pos <= old(self)@.text.len(),
        ensures
            final(self)@ == (EditorView {
                cursor: line_selected(old(self)@.cursor, old(self)@.text),
                ..old(self)@
            }),
    {
        self.cursor.select_line(&self.buffer);
    }
}

impl Default for EditorService {
    fn default() -> (e: Self)
        ensures
            e@ == fresh_editor(),
    {
        Self::new()
    }
}

} // verus!

use crate::text::{
    column_of, lemma_index_in_line, lemma_line_start_increasing, line_count, line_len, line_of,
    line_start, line_text,
};
use ropey::{Rope, RopeSlice};
use vstd::prelude::*;

verus! {

#[verifier::external_type_specification]
#[verifier::external_body]
pub struct ExRope(ropey::Rope);

#[verifier::external_type_specification]
#[verifier::external_body]
pub struct ExRopeSlice<'a>(ropey::RopeSlice<'a>);

/// The chars that a rope holds, in order.
pub uninterp spec fn rope_text(r: ropey::Rope) -> Seq<char>;

/// The chars that a slice of a rope covers, in order.
pub uninterp spec fn slice_text(s: ropey::RopeSlice<'_>) -> Seq<char>;

/// `Rope::new`: an empty rope.
#[verifier::external_body]
fn rope_new() -> (r: Rope)
    ensures
        rope_text(r) == Seq::<char>::empty(),
{
    Rope::new()
}

/// `Rope::from(&str)`: a rope that holds the chars of `text`.
#[verifier::external_body]
fn rope_from_str(text: &str) -> (r: Rope)
    ensures
        rope_text(r) == text@,
{
    Rope::from(text)
}

/// `Rope::clone`: a rope with the same chars.
#[verifier::external_body]
fn rope_clone(r: &Rope) -> (c: Rope)
    ensures
        rope_text(c) == rope_text(*r),
{
    r.clone()
}

/// `Rope::insert`: the chars of `text` are put at char index `char_idx`
/// (ropey panics past the end, which `requires` leaves out).
#[verifier::external_body]
fn rope_insert(r: &mut Rope, char_idx: usize, text: &str)
    requires
        char_idx <= rope_text(*old(r)).len(),
    ensures
        rope_text(*final(r)) == rope_text(*old(r)).take(char_idx as int) + text@ + rope_text(
            *old(r),
        ).skip(char_idx as int),
{
    r.insert(char_idx, text)
}

/// `Rope::remove(start..end)`: the chars in the range leave the rope (ropey
/// panics on a reversed or out-of-bounds range, which `requires` leaves out).
#[verifier::external_body]
fn rope_remove(r: &mut Rope, start: usize, end: usize)
    requires
        start <= end <= rope_text(*old(r)).len(),
    ensures
        rope_text(*final(r)) == rope_text(*old(r)).take(start as int) + rope_text(*old(r)).skip(
            end as int,
        ),
{
    r.remove(start..end)
}

/// `Rope::get_char`: the char at `char_idx`, or `None` past the end.
#[verifier::external_body]
fn rope_get_char(r: &Rope, char_idx: usize) -> (c: Option<char>)
    ensures
        char_idx < rope_text(*r).len() ==> c == Some(rope_text(*r)[char_idx as int]),
        char_idx >= rope_text(*r).len() ==> c is None,
{
    r.get_char(char_idx)
}

/// `Rope::len_chars`: the number of chars.
#[verifier::external_body]
fn rope_len_chars(r: &Rope) -> (n: usize)
    ensures
        n == rope_text(*r).len(),
{
    r.len_chars()
}

/// `Rope::len_lines`: one more than the number of line breaks, where ropey
/// (with its default `unicode_lines` feature) recognizes LF, VT, FF, CR, NEL,
/// U+2028, U+2029, and CR LF as one break.
#[verifier::external_body]
fn rope_len_lines(r: &Rope) -> (n: usize)
    ensures
        n == line_count(rope_text(*r)),
{
    r.len_lines()
}

/// `Rope::char_to_line`: the number of line breaks that end at or before
/// `char_idx` (ropey panics past the end, which `requires` leaves out).
#[verifier::external_body]
fn rope_char_to_line(r: &Rope, char_idx: usize) -> (l: usize)
    requires
        char_idx <= rope_text(*r).len(),
    ensures
        l == line_of(rope_text(*r), char_idx as int),
{
    r.char_to_line(char_idx)
}

/// `Rope::line_to_char`: the char index where line `line_idx` starts; the
/// length of the rope for `line_idx == len_lines()` (ropey panics past that,
/// which `requires` leaves out).
#[verifier::external_body]
fn rope_line_to_char(r: &Rope, line_idx: usize) -> (c: usize)
    requires
        line_idx <= line_count(rope_text(*r)),
    ensures
        c == line_start(rope_text(*r), line_idx as int),
{
    r.line_to_char(line_idx)
}

/// `Rope::get_line`, turned into a `String`: the chars of line `line_idx`,
/// its line break included, or `None` when there is no such line.
#[verifier::external_body]
fn rope_get_line_string(r: &Rope, line_idx: usize) -> (s: Option<String>)
    ensures
        s is Some <==> line_idx < line_count(rope_text(*r)),
        s matches Some(t) ==> t@ == line_text(rope_text(*r), line_idx as int),
{
    r.get_line(line_idx).map(|l| l.to_string())
}

/// `Rope::line`: a slice over line `line_idx`, its line break included
/// (ropey panics past the last line, which `requires` leaves out).
#[verifier::external_body]
fn rope_line(r: &Rope, line_idx: usize) -> (l: RopeSlice<'_>)
    requires
        line_idx < line_count(rope_text(*r)),
    ensures
        slice_text(l) == line_text(rope_text(*r), line_idx as int),
{
    r.line(line_idx)
}

/// `Rope::to_string`: a `String` with the chars of the rope.
#[verifier::external_body]
fn rope_to_string(r: &Rope) -> (s: String)
    ensures
        s@ == rope_text(*r),
{
    r.to_string()
}

/// A text buffer held in a rope, addressed by char index.
pub struct Buffer {
    content: Rope,
}

impl View for Buffer {
    type V = Seq<char>;

    closed spec fn view(&self) -> Seq<char> {
        rope_text(self.content)
    }
}

impl Buffer {
    pub fn new() -> (b: Self)
        ensures
            b@ == Seq::<char>::empty(),
    {
        Self { content: rope_new() }
    }

    pub fn from_str(text: &str) -> (b: Self)
        ensures
            b@ == text@,
    {
        Self { content: rope_from_str(text) }
    }

    /// Inserts `text` at `char_idx`; does nothing when `char_idx` is past the end.
    pub fn insert(&mut self, char_idx: usize, text: &str)
        ensures
            char_idx <= old(self)@.len() ==> final(self)@ == old(self)@.take(char_idx as int)
                + text@ + old(self)@.skip(char_idx as int),
            char_idx > old(self)@.len() ==> final(self)@ == old(self)@,
    {
        let total = rope_len_chars(&self.content);
        if char_idx <= total {
            rope_insert(&mut self.content, char_idx, text);
        }
    }

    /// Removes `len` chars from `char_idx` on; does nothing when they do not
    /// all lie in the buffer.
    pub fn remove(&mut self, char_idx: usize, len: usize)
        requires
            char_idx + len <= usize::MAX,
        ensures
            char_idx + len <= old(self)@.len() ==> final(self)@ == old(self)@.take(char_idx as int)
                + old(self)@.skip(char_idx + len),
            char_idx + len > old(self)@.len() ==> final(self)@ == old(self)@,
    {
        let total = rope_len_chars(&self.content);
        if char_idx + len <= total {
            rope_remove(&mut self.content, char_idx, char_idx + len);
        }
    }

    pub fn get_char(&self, char_idx: usize) -> (c: Option<char>)
        ensures
            char_idx < self@.len() ==> c == Some(self@[char_idx as int]),
            char_idx >= self@.len() ==> c is None,
    {
        rope_get_char(&self.content, char_idx)
    }

    pub fn len_chars(&self) -> (n: usize)
        ensures
            n == self@.len(),
    {
        rope_len_chars(&self.content)
    }

    pub fn len_lines(&self) -> (n: usize)
        ensures
            n == line_count(self@),
    {
        rope_len_lines(&self.content)
    }

    /// The chars of line `line_idx`, its line break included.
    pub fn line(&self, line_idx: usize) -> (s: Option<String>)
        ensures
            s is Some <==> line_idx < line_count(self@),
            s matches Some(t) ==> t@ == line_text(self@, line_idx as int),
    {
        rope_get_line_string(&self.content, line_idx)
    }

    pub fn rope(&self) -> (r: &Rope)
        ensures
            rope_text(*r) == self@,
    {
        &self.content
    }

    pub fn line_slice(&self, line_idx: usize) -> (s: Option<RopeSlice<'_>>)
        ensures
            s is Some <==> line_idx < line_count(self@),
            s matches Some(l) ==> slice_text(l) == line_text(self@, line_idx as int),
    {
        if line_idx < rope_len_lines(&self.content) {
            Some(rope_line(&self.content, line_idx))
        } else {
            None
        }
    }

    /// The number of chars in line `line_idx`, its line break included; 0 when
    /// there is no such line.
    pub fn line_len_chars(&self, line_idx: usize) -> (n: usize)
        ensures
            line_idx < line_count(self@) ==> n == line_len(self@, line_idx as int),
            line_idx >= line_count(self@) ==> n == 0,
    {
        let lines = rope_len_lines(&self.content);
        if line_idx < lines {
            proof {
                lemma_line_start_increasing(self@, line_idx as int);
            }
            let start = rope_line_to_char(&self.content, line_idx);
            let end = rope_line_to_char(&self.content, line_idx + 1);
            end - start
        } else {
            0
        }
    }

    /// The line of `char_idx` and its column in that line.
    pub fn char_to_line_col(&self, char_idx: usize) -> (r: (usize, usize))
        requires
            char_idx <= self@.len(),
        ensures
            r.0 == line_of(self@, char_idx as int),
            r.1 == column_of(self@, char_idx as int),
            r.0 < line_count(self@),
            r.1 <= line_len(self@, r.0 as int),
    {
        proof {
            lemma_index_in_line(self@, char_idx as int);
        }
        let line = rope_char_to_line(&self.content, char_idx);
        let line_start = rope_line_to_char(&self.content, line);
        let col = char_idx - line_start;
        (line, col)
    }

    /// The char index at column `col` of line `line`, when the line exists
    /// and `col` is at most its length (its line break included).
    pub fn line_col_to_char(&self, line: usize, col: usize) -> (r: Option<usize>)
        ensures
            r is Some <==> line < line_count(self@) && col <= line_len(self@, line as int),
            r matches Some(i) ==> i == line_start(self@, line as int) + col,
    {
        let lines = rope_len_lines(&self.content);
        if line < lines {
            proof {
                lemma_line_start_increasing(self@, line as int);
            }
            let line_start = rope_line_to_char(&self.content, line);
            let line_end = rope_line_to_char(&self.content, line + 1);
            let line_len = line_end - line_start;
            if col <= line_len {
                return Some(line_start + col);
            }
        }
        None
    }

    pub fn line_to_char(&self, line: usize) -> (c: usize)
        requires
            line <= line_count(self@),
        ensures
            c == line_start(self@, line as int),
    {
        rope_line_to_char(&self.content, line)
    }

    pub fn as_str(&self) -> (s: String)
        ensures
            s@ == self@,
    {
        rope_to_string(&self.content)
    }

    pub fn clear(&mut self)
        ensures
            final(self)@ == Seq::<char>::empty(),
    {
        self.content = rope_new();
    }

    pub fn set_content(&mut self, text: &str)
        ensures
            final(self)@ == text@,
    {
        self.content = rope_from_str(text);
    }

    /// A buffer with the same chars.
    pub fn duplicate(&self) -> (b: Self)
        ensures
            b@ == self@,
    {
        Buffer { content: rope_clone(&self.content) }
    }
}

impl Clone for Buffer {
    fn clone(&self) -> (b: Self)
        ensures
            b@ == self@,
    {
        self.duplicate()
    }
}

impl Default for Buffer {
    fn default() -> (b: Self)
        ensures
            b@ == Seq::<char>::empty(),
    {
        Self::new()
    }
}

/// Inserting text and then removing as many chars at the same index gives the
/// buffer back.
pub proof fn law_insert_then_remove(before: Seq<char>, idx: int, text: Seq<char>)
    requires
        0 <= idx <= before.len(),
    ensures
        ({
            let inserted = before.take(idx) + text + before.skip(idx);
            inserted.take(idx) + inserted.skip(idx + text.len()) == before
        }),
{
    let inserted = before.take(idx) + text + before.skip(idx);
    assert(inserted.take(idx) =~= before.take(idx));
    assert(inserted.skip(idx + text.len()) =~= before.skip(idx));
    assert(before.take(idx) + before.skip(idx) =~= before);
}

/// Removing a range and inserting the removed chars at its start gives the
/// buffer back.
pub proof fn law_remove_then_insert(before: Seq<char>, idx: int, len: int)
    requires
        0 <= idx,
        0 <= len,
        idx + len <= before.len(),
    ensures
        ({
            let removed = before.take(idx) + before.skip(idx + len);
            removed.take(idx) + before.subrange(idx, idx + len) + removed.skip(idx) == before
        }),
{
    let removed = before.take(idx) + before.skip(idx + len);
    assert(removed.take(idx) =~= before.take(idx));
    assert(removed.skip(idx) =~= before.skip(idx + len));
    assert(before.take(idx) + before.subrange(idx, idx + len) + before.skip(idx + len) =~= before);
}

} // verus!

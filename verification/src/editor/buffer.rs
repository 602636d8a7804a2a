//! A plain text buffer held in one `String`, addressed by byte offsets for
//! edits and by char indices for reads, with lines as `str::lines` gives them.
use crate::text::{
    char_utf8_len, chars_of, lemma_utf8_len_append, lemma_utf8_len_take_mono,
    lemma_utf8_len_take_step, utf8_len,
};
use vstd::prelude::*;

verus! {

/// The index of the first LF at or after `p`, or the length of `s` when there
/// is none.
pub open spec fn next_newline(s: Seq<char>, p: int) -> int
    decreases s.len() - p,
{
    if p < 0 || p >= s.len() {
        s.len() as int
    } else if s[p] == '\n' {
        p
    } else {
        next_newline(s, p + 1)
    }
}

/// The text of the line that runs from `p` up to the LF at `e` (or the end):
/// a CR just before that LF belongs to the line break, not to the line.
pub open spec fn line_body(s: Seq<char>, p: int, e: int) -> Seq<char> {
    if e < s.len() && p < e && s[e - 1] == '\r' {
        s.subrange(p, e - 1)
    } else {
        s.subrange(p, e)
    }
}

pub proof fn lemma_next_newline(s: Seq<char>, p: int)
    requires
        0 <= p <= s.len(),
    ensures
        p <= next_newline(s, p) <= s.len(),
        next_newline(s, p) < s.len() ==> s[next_newline(s, p)] == '\n',
        forall|k: int| p <= k < next_newline(s, p) ==> s[k] != '\n',
    decreases s.len() - p,
{
    if p < s.len() && s[p] != '\n' {
        lemma_next_newline(s, p + 1);
    }
}

/// The lines of `s` from index `p` on, as `str::lines` splits them: at each
/// LF (with a CR just before it), a last line that ends the text without an
/// LF, and no empty line after a final LF.
pub open spec fn lines_from(s: Seq<char>, p: int) -> Seq<Seq<char>>
    decreases s.len() + 1 - p,
{
    let e = next_newline(s, p);
    if p < 0 || p >= s.len() || e < p || e > s.len() {
        Seq::empty()
    } else {
        seq![line_body(s, p, e)] + lines_from(s, e + 1)
    }
}

/// The lines of `s`, as `str::lines` gives them.
pub open spec fn str_lines(s: Seq<char>) -> Seq<Seq<char>> {
    lines_from(s, 0)
}

/// The number of LFs among the first `i` chars of `s`.
pub open spec fn newlines_before(s: Seq<char>, i: int) -> nat
    decreases i,
{
    if i <= 0 {
        0
    } else {
        newlines_before(s, i - 1) + if i - 1 < s.len() && s[i - 1] == '\n' {
            1nat
        } else {
            0nat
        }
    }
}

/// Walking back from `c` to just after the nearest LF before it (or to 0).
pub open spec fn line_begin(s: Seq<char>, c: int) -> int
    decreases c,
{
    if c <= 0 {
        0
    } else if c - 1 < s.len() && s[c - 1] == '\n' {
        c
    } else {
        line_begin(s, c - 1)
    }
}

/// A line of `s` starts at `b`: the text starts there or an LF ends just before.
pub open spec fn segment_start(s: Seq<char>, b: int) -> bool {
    0 <= b <= s.len() && (b == 0 || s[b - 1] == '\n')
}

/// The byte offset that counting `lines` gives line `k`: each line before it
/// counts its UTF-8 bytes and one byte for its line break.
pub open spec fn line_offset(lines: Seq<Seq<char>>, k: int) -> int
    decreases k,
{
    if k <= 0 {
        0
    } else {
        line_offset(lines, k - 1) + utf8_len(lines[k - 1]) + 1
    }
}

/// A byte offset into the UTF-8 encoding of `s` that falls between chars.
pub open spec fn is_byte_boundary(s: Seq<char>, b: int) -> bool {
    exists|k: int| 0 <= k <= s.len() && utf8_len(s.take(k)) == b
}

/// The char index at byte offset `b`, when `b` falls between chars.
pub open spec fn char_index_of_byte(s: Seq<char>, b: int) -> int {
    choose|k: int| 0 <= k <= s.len() && utf8_len(s.take(k)) == b
}

/// The maximal runs of word chars from index `i` on, as pairs of char indices.
pub open spec fn word_spans_from(s: Seq<char>, i: int) -> Seq<(int, int)>
    decreases s.len() + 1 - i,
{
    let e = crate::text::forward_over_word(s, i);
    if i < 0 || i >= s.len() {
        Seq::empty()
    } else if !crate::text::is_word_char(s[i]) {
        word_spans_from(s, i + 1)
    } else if e <= i || e > s.len() {
        Seq::empty()
    } else {
        seq![(i, e)] + word_spans_from(s, e)
    }
}

/// The words of `s` as byte ranges of its UTF-8 encoding.
pub open spec fn word_byte_spans(s: Seq<char>) -> Seq<(usize, usize)> {
    word_spans_from(s, 0).map_values(
        |w: (int, int)| (utf8_len(s.take(w.0)) as usize, utf8_len(s.take(w.1)) as usize),
    )
}

/// Two prefixes with the same number of bytes have the same length.
pub proof fn lemma_byte_boundary_unique(s: Seq<char>, i: int, j: int)
    requires
        0 <= i <= s.len(),
        0 <= j <= s.len(),
        utf8_len(s.take(i)) == utf8_len(s.take(j)),
    ensures
        i == j,
{
    if i < j {
        lemma_utf8_len_take_mono(s, i, j);
    } else if j < i {
        lemma_utf8_len_take_mono(s, j, i);
    }
}

/// What `char_index_of_byte` gives for the byte offset of a prefix.
pub proof fn lemma_char_index_of_byte(s: Seq<char>, k: int)
    requires
        0 <= k <= s.len(),
    ensures
        is_byte_boundary(s, utf8_len(s.take(k)) as int),
        char_index_of_byte(s, utf8_len(s.take(k)) as int) == k,
{
    let b = utf8_len(s.take(k)) as int;
    assert(0 <= k <= s.len() && utf8_len(s.take(k)) == b);
    let j = char_index_of_byte(s, b);
    lemma_byte_boundary_unique(s, j, k);
}

/// The lines from one line start on begin with that line.
pub proof fn lemma_lines_from_step(s: Seq<char>, p: int)
    requires
        0 <= p < s.len(),
    ensures
        lines_from(s, p).len() == 1 + lines_from(s, next_newline(s, p) + 1).len(),
        lines_from(s, p)[0] == line_body(s, p, next_newline(s, p)),
        lines_from(s, p).skip(1) == lines_from(s, next_newline(s, p) + 1),
{
    lemma_next_newline(s, p);
    let e = next_newline(s, p);
    assert(lines_from(s, p) == seq![line_body(s, p, e)] + lines_from(s, e + 1));
    assert(lines_from(s, p).skip(1) =~= lines_from(s, e + 1));
}

/// No LF lies between `line_begin(s, c)` and `c`; it is a line start and has
/// as many LFs before it as `c` (cut at the end of `s`) has.
pub proof fn lemma_line_begin(s: Seq<char>, c: int)
    requires
        0 <= c,
    ensures
        segment_start(s, line_begin(s, c)),
        line_begin(s, c) <= c,
        line_begin(s, c) <= s.len(),
        newlines_before(s, line_begin(s, c)) == newlines_before(s, if c < s.len() {
            c
        } else {
            s.len() as int
        }),
    decreases c,
{
    if c > 0 && !(c - 1 < s.len() && s[c - 1] == '\n') {
        lemma_line_begin(s, c - 1);
    }
}

/// From a line start, the lines of the whole text past the LFs before it are
/// the lines from that start on.
pub proof fn lemma_lines_at_segment(s: Seq<char>, b: int)
    requires
        segment_start(s, b),
    ensures
        str_lines(s).len() == newlines_before(s, b) + lines_from(s, b).len(),
        str_lines(s).skip(newlines_before(s, b) as int) == lines_from(s, b),
    decreases b,
{
    if b == 0 {
        assert(str_lines(s).skip(0) =~= str_lines(s));
    } else {
        let a = line_begin(s, b - 1);
        lemma_line_begin(s, b - 1);
        lemma_lines_at_segment(s, a);
        assert forall|k: int| a <= k < b - 1 implies s[k] != '\n' by {
            lemma_no_newline_after_begin(s, b - 1, k);
        }
        lemma_next_newline_at(s, a, b - 1);
        lemma_lines_from_step(s, a);
        lemma_newlines_flat(s, a, b - 1);
        let k = newlines_before(s, a) as int;
        assert(str_lines(s).skip(k + 1) =~= str_lines(s).skip(k).skip(1));
    }
}

/// No LF lies in `line_begin(s, c) .. c`.
pub proof fn lemma_no_newline_after_begin(s: Seq<char>, c: int, k: int)
    requires
        0 <= c,
        line_begin(s, c) <= k < c,
        k < s.len(),
    ensures
        s[k] != '\n',
    decreases c,
{
    if c > 0 && !(c - 1 < s.len() && s[c - 1] == '\n') {
        if k < c - 1 {
            lemma_no_newline_after_begin(s, c - 1, k);
        }
    }
}

/// With no LF in `a .. e` and one at `e`, the next LF from `a` is at `e`.
pub proof fn lemma_next_newline_at(s: Seq<char>, a: int, e: int)
    requires
        0 <= a <= e < s.len(),
        s[e] == '\n',
        forall|k: int| a <= k < e ==> s[k] != '\n',
    ensures
        next_newline(s, a) == e,
    decreases e - a,
{
    if a < e {
        lemma_next_newline_at(s, a + 1, e);
    }
}

/// No LF in `a .. e` keeps the count of LFs before them equal.
pub proof fn lemma_newlines_flat(s: Seq<char>, a: int, e: int)
    requires
        0 <= a <= e <= s.len(),
        forall|k: int| a <= k < e ==> s[k] != '\n',
    ensures
        newlines_before(s, a) == newlines_before(s, e),
    decreases e - a,
{
    if a < e {
        lemma_newlines_flat(s, a, e - 1);
    }
}

/// A line's text has no more chars than the stretch it comes from.
pub proof fn lemma_line_body_len(s: Seq<char>, p: int, e: int)
    requires
        0 <= p <= e <= s.len(),
    ensures
        line_body(s, p, e).len() <= e - p,
        line_body(s, p, e) == s.subrange(p, e).take(line_body(s, p, e).len() as int),
{
    assert(line_body(s, p, e) =~= s.subrange(p, e).take(line_body(s, p, e).len() as int));
}

/// The first index from `p` on that holds an LF, or the length of `cs`.
fn find_newline(cs: &Vec<char>, p: usize) -> (e: usize)
    requires
        p <= cs@.len(),
    ensures
        e == next_newline(cs@, p as int),
{
    let mut i = p;
    while i < cs.len() && cs[i] != '\n'
        invariant
            p <= i <= cs@.len(),
            next_newline(cs@, i as int) == next_newline(cs@, p as int),
        decreases cs@.len() - i,
    {
        i = i + 1;
    }
    i
}

/// Where the text of a line that runs from `p` up to `e` ends.
fn body_end(cs: &Vec<char>, p: usize, e: usize) -> (b: usize)
    requires
        p <= e <= cs@.len(),
    ensures
        p <= b <= e,
        line_body(cs@, p as int, e as int) == cs@.subrange(p as int, b as int),
{
    if e < cs.len() && p < e && cs[e - 1] == '\r' {
        e - 1
    } else {
        e
    }
}

/// The char range of line `idx` of `cs`, when there is such a line.
fn line_range(cs: &Vec<char>, idx: usize) -> (r: Option<(usize, usize)>)
    ensures
        match r {
            Some((a, b)) => idx < str_lines(cs@).len() && a <= b <= cs@.len() && cs@.subrange(
                a as int,
                b as int,
            ) == str_lines(cs@)[idx as int],
            None => idx >= str_lines(cs@).len(),
        },
{
    let n = cs.len();
    let mut p: usize = 0;
    let mut k: usize = 0;
    proof {
        assert(str_lines(cs@).skip(0) =~= str_lines(cs@));
    }
    while p < n
        invariant
            n == cs@.len(),
            p <= n,
            k <= p,
            k <= idx,
            str_lines(cs@).len() == k + lines_from(cs@, p as int).len(),
            str_lines(cs@).skip(k as int) == lines_from(cs@, p as int),
        decreases n - p,
    {
        let e = find_newline(cs, p);
        proof {
            lemma_lines_from_step(cs@, p as int);
            lemma_next_newline(cs@, p as int);
            assert(str_lines(cs@).skip(k as int)[0] == str_lines(cs@)[k as int]);
        }
        if k == idx {
            let b = body_end(cs, p, e);
            return Some((p, b));
        }
        proof {
            assert(str_lines(cs@).skip(k + 1) =~= str_lines(cs@).skip(k as int).skip(1));
        }
        if e >= n {
            return None;
        }
        k = k + 1;
        p = e + 1;
    }
    None
}

/// The number of lines of `cs`, as `str::lines` counts them.
fn count_lines(cs: &Vec<char>) -> (r: usize)
    ensures
        r == str_lines(cs@).len(),
{
    let n = cs.len();
    let mut p: usize = 0;
    let mut k: usize = 0;
    proof {
        assert(str_lines(cs@).skip(0) =~= str_lines(cs@));
    }
    while p < n
        invariant
            n == cs@.len(),
            p <= n,
            k <= p,
            str_lines(cs@).len() == k + lines_from(cs@, p as int).len(),
            str_lines(cs@).skip(k as int) == lines_from(cs@, p as int),
        decreases n - p,
    {
        let e = find_newline(cs, p);
        proof {
            lemma_lines_from_step(cs@, p as int);
            lemma_next_newline(cs@, p as int);
            assert(str_lines(cs@).skip(k + 1) =~= str_lines(cs@).skip(k as int).skip(1));
        }
        k = k + 1;
        if e >= n {
            return k;
        }
        p = e + 1;
    }
    k
}

/// The char index at byte offset `b` of the UTF-8 encoding of `cs`, when `b`
/// falls between chars.
fn char_index_at(cs: &Vec<char>, b: usize) -> (r: Option<usize>)
    ensures
        match r {
            Some(k) => k <= cs@.len() && utf8_len(cs@.take(k as int)) == b,
            None => !is_byte_boundary(cs@, b as int),
        },
{
    let mut k: usize = 0;
    let mut bytes: usize = 0;
    while k < cs.len() && bytes < b
        invariant
            k <= cs@.len(),
            bytes == utf8_len(cs@.take(k as int)),
            bytes <= b,
        decreases cs@.len() - k,
    {
        proof {
            lemma_utf8_len_take_step(cs@, k as int);
        }
        let w = char_utf8_len(cs[k]);
        if w > b - bytes {
            proof {
                assert forall|j: int| 0 <= j <= cs@.len() implies utf8_len(cs@.take(j)) != b by {
                    if j <= k {
                        lemma_utf8_len_take_mono(cs@, j, k as int);
                    } else {
                        lemma_utf8_len_take_mono(cs@, k + 1, j);
                    }
                }
            }
            return None;
        }
        bytes = bytes + w;
        k = k + 1;
    }
    if bytes == b {
        Some(k)
    } else {
        proof {
            assert forall|j: int| 0 <= j <= cs@.len() implies utf8_len(cs@.take(j)) != b by {
                lemma_utf8_len_take_mono(cs@, j, k as int);
            }
        }
        None
    }
}

/// A `String` holding the chars of `cs` from `a` to `b`.
fn string_of_range(cs: &Vec<char>, a: usize, b: usize) -> (s: String)
    requires
        a <= b <= cs@.len(),
    ensures
        s@ == cs@.subrange(a as int, b as int),
{
    let mut s = String::new();
    let mut i = a;
    while i < b
        invariant
            a <= i <= b,
            b <= cs@.len(),
            s@ == cs@.subrange(a as int, i as int),
        decreases b - i,
    {
        crate::text::string_push(&mut s, cs[i]);
        assert(cs@.subrange(a as int, i + 1) =~= cs@.subrange(a as int, i as int).push(
            cs@[i as int],
        ));
        i = i + 1;
    }
    s
}

/// A line's bytes and its LF follow the bytes before it, within the bytes up
/// to that LF.
pub proof fn lemma_segment_bytes(s: Seq<char>, p: int, e: int)
    requires
        0 <= p <= e < s.len(),
        s[e] == '\n',
    ensures
        utf8_len(s.take(p)) + utf8_len(line_body(s, p, e)) + 1 <= utf8_len(s.take(e + 1)),
{
    lemma_line_body_len(s, p, e);
    let m = line_body(s, p, e).len() as int;
    lemma_utf8_len_take_mono(s.subrange(p, e), m, e - p);
    assert(s.subrange(p, e).take(e - p) =~= s.subrange(p, e));
    assert(s.take(e) =~= s.take(p) + s.subrange(p, e));
    lemma_utf8_len_append(s.take(p), s.subrange(p, e));
    lemma_utf8_len_take_step(s, e);
}

/// The number of UTF-8 bytes of the chars of `cs` from `a` to `b`.
fn bytes_between(cs: &Vec<char>, a: usize, b: usize) -> (r: usize)
    requires
        a <= b <= cs@.len(),
        utf8_len(cs@) <= usize::MAX,
    ensures
        r == utf8_len(cs@.subrange(a as int, b as int)),
{
    let mut r: usize = 0;
    let mut i = a;
    proof {
        assert(cs@.subrange(a as int, a as int) =~= Seq::<char>::empty());
        assert(utf8_len(Seq::<char>::empty()) == 0) by {
            assert(vstd::utf8::encode_utf8(Seq::<char>::empty()) =~= Seq::<u8>::empty());
        }
    }
    while i < b
        invariant
            a <= i <= b,
            b <= cs@.len(),
            utf8_len(cs@) <= usize::MAX,
            r == utf8_len(cs@.subrange(a as int, i as int)),
        decreases b - i,
    {
        proof {
            let t = cs@.subrange(a as int, b as int);
            lemma_utf8_len_take_step(t, i - a);
            assert(t.take(i - a) =~= cs@.subrange(a as int, i as int));
            assert(t.take(i - a + 1) =~= cs@.subrange(a as int, i + 1));
            lemma_utf8_len_take_mono(t, i - a + 1, t.len() as int);
            assert(cs@.take(b as int) =~= cs@.take(a as int) + t);
            lemma_utf8_len_append(cs@.take(a as int), t);
            lemma_utf8_len_take_mono(cs@, b as int, cs@.len() as int);
        }
        let w = char_utf8_len(cs[i]);
        r = r + w;
        i = i + 1;
    }
    r
}

/// `Uuid`, the identifier type of the `uuid` crate.
#[verifier::external_type_specification]
#[verifier::external_body]
pub struct ExUuid(uuid::Uuid);

/// `Uuid::new_v4`: a fresh random identifier. Nothing is claimed of which one
/// comes back.
#[verifier::external_body]
fn random_id() -> uuid::Uuid {
    uuid::Uuid::new_v4()
}

/// A text buffer with an identifier and a modified flag.
#[derive(Debug)]
pub struct TextBuffer {
    id: uuid::Uuid,
    text: String,
    is_modified: bool,
}

/// What a `TextBuffer` holds, as the contracts see it.
pub struct TextBufferView {
    pub id: uuid::Uuid,
    pub text: Seq<char>,
    pub modified: bool,
}

impl View for TextBuffer {
    type V = TextBufferView;

    closed spec fn view(&self) -> TextBufferView {
        TextBufferView { id: self.id, text: self.text@, modified: self.is_modified }
    }
}

/// `b` cut at `n`.
pub open spec fn clamp(b: int, n: int) -> int {
    if b < n {
        b
    } else {
        n
    }
}

/// The text with `ins` put in at byte offset `idx`, cut at the end of the text.
pub open spec fn inserted_at_byte(t: Seq<char>, idx: int, ins: Seq<char>) -> Seq<char> {
    let k = char_index_of_byte(t, clamp(idx, utf8_len(t) as int));
    t.take(k) + ins + t.skip(k)
}

/// The text without the bytes from `start` to `end`, both cut at its end.
pub open spec fn removed_bytes(t: Seq<char>, start: int, end: int) -> Seq<char> {
    let n = utf8_len(t) as int;
    if clamp(start, n) < clamp(end, n) {
        t.take(char_index_of_byte(t, clamp(start, n))) + t.skip(
            char_index_of_byte(t, clamp(end, n)),
        )
    } else {
        t
    }
}

/// The chars of the bytes from `start` to `end` (cut at the end of the text);
/// empty when the range is empty or starts past the text.
pub open spec fn text_range(t: Seq<char>, start: int, end: int) -> Seq<char> {
    let n = utf8_len(t) as int;
    if start >= end || start >= n {
        Seq::empty()
    } else {
        t.subrange(char_index_of_byte(t, start), char_index_of_byte(t, clamp(end, n)))
    }
}

/// The line index of char `c`: the LFs before it, `c` cut at the end.
pub open spec fn line_index_of(t: Seq<char>, c: int) -> int {
    newlines_before(t, clamp(c, t.len() as int)) as int
}

/// Where the line of char `c` ends: its start plus the length of its text.
pub open spec fn line_end_of(t: Seq<char>, c: int) -> int {
    let k = line_index_of(t, c);
    line_begin(t, c) + if k < str_lines(t).len() {
        str_lines(t)[k].len() as int
    } else {
        0
    }
}

/// The offset that moving to the next line gives from char `c`: the offset of
/// the line after the line of `c`, or the length of the text from its last line.
pub open spec fn next_line_of(t: Seq<char>, c: int) -> int {
    let k = line_index_of(t, c);
    if k + 1 < str_lines(t).len() {
        line_offset(str_lines(t), k + 1)
    } else {
        t.len() as int
    }
}

/// The offset that moving to the previous line gives from char `c`: the offset
/// of the line before the line of `c`, or 0 from the first line.
pub open spec fn prev_line_of(t: Seq<char>, c: int) -> int {
    let k = line_index_of(t, c);
    if k > 0 {
        line_offset(str_lines(t), k - 1)
    } else {
        0
    }
}

/// No more LFs come before any char than there are lines.
pub proof fn lemma_line_index_bound(t: Seq<char>, c: int)
    requires
        0 <= c,
    ensures
        line_index_of(t, c) <= str_lines(t).len(),
{
    lemma_line_begin(t, c);
    lemma_lines_at_segment(t, line_begin(t, c));
}

/// A text with no UTF-8 bytes has no chars.
pub proof fn lemma_utf8_len_zero(t: Seq<char>)
    ensures
        utf8_len(t) == 0 <==> t.len() == 0,
{
    lemma_utf8_len_take_mono(t, 0, t.len() as int);
    assert(t.take(t.len() as int) =~= t);
    if t.len() == 0 {
        assert(t =~= Seq::<char>::empty());
        assert(vstd::utf8::encode_utf8(Seq::<char>::empty()) =~= Seq::<u8>::empty());
    }
}

/// Inserting a text at a byte offset between chars and then removing as many
/// bytes as it has from there gives the text back.
pub proof fn law_text_insert_then_remove(t: Seq<char>, idx: int, ins: Seq<char>)
    requires
        0 <= idx <= utf8_len(t),
        is_byte_boundary(t, idx),
    ensures
        removed_bytes(inserted_at_byte(t, idx, ins), idx, idx + utf8_len(ins)) == t,
{
    let k = char_index_of_byte(t, idx);
    assert(clamp(idx, utf8_len(t) as int) == idx);
    let t2 = inserted_at_byte(t, idx, ins);
    assert(t2 == t.take(k) + ins + t.skip(k));
    assert(t =~= t.take(k) + t.skip(k));
    lemma_utf8_len_append(t.take(k), t.skip(k));
    lemma_utf8_len_append(t.take(k), ins);
    lemma_utf8_len_append(t.take(k) + ins, t.skip(k));
    let n2 = utf8_len(t2) as int;
    assert(n2 == utf8_len(t) + utf8_len(ins));
    lemma_utf8_len_zero(ins);
    if utf8_len(ins) == 0 {
        assert(ins =~= Seq::<char>::empty());
        assert(t2 =~= t);
    } else {
        assert(t2.take(k) =~= t.take(k));
        lemma_char_index_of_byte(t2, k);
        assert(t2.take(k + ins.len()) =~= t.take(k) + ins);
        lemma_char_index_of_byte(t2, k + ins.len());
        assert(t2.take(k) + t2.skip(k + ins.len()) =~= t);
    }
}

impl TextBuffer {
    /// An empty buffer, not modified, with a fresh identifier.
    pub fn new() -> (b: Self)
        ensures
            b@.text == Seq::<char>::empty(),
            !b@.modified,
    {
        TextBuffer { id: random_id(), text: String::new(), is_modified: false }
    }

    /// A buffer holding `content`, not modified, with a fresh identifier.
    pub fn from_string(content: &str) -> (b: Self)
        ensures
            b@.text == content@,
            !b@.modified,
    {
        let mut text = String::new();
        crate::text::push_str(&mut text, content);
        TextBuffer { id: random_id(), text, is_modified: false }
    }

    pub fn id(&self) -> (r: uuid::Uuid)
        ensures
            r == self@.id,
    {
        self.id
    }

    pub fn is_modified(&self) -> (r: bool)
        ensures
            r == self@.modified,
    {
        self.is_modified
    }

    pub fn set_modified(&mut self, modified: bool)
        ensures
            final(self)@ == (TextBufferView { modified, ..old(self)@ }),
    {
        self.is_modified = modified;
    }

    /// The number of chars.
    pub fn len(&self) -> (r: usize)
        ensures
            r == self@.text.len(),
    {
        chars_of(self.text.as_str()).len()
    }

    /// The number of lines, as `str::lines` counts them.
    pub fn num_lines(&self) -> (r: usize)
        ensures
            r == str_lines(self@.text).len(),
    {
        let cs = chars_of(self.text.as_str());
        count_lines(&cs)
    }

    /// The text of line `line_idx`, without its line break.
    pub fn line(&self, line_idx: usize) -> (r: Option<String>)
        ensures
            match r {
                Some(l) => line_idx < str_lines(self@.text).len() && l@ == str_lines(
                    self@.text,
                )[line_idx as int],
                None => line_idx >= str_lines(self@.text).len(),
            },
    {
        let cs = chars_of(self.text.as_str());
        match line_range(&cs, line_idx) {
            Some((a, b)) => Some(string_of_range(&cs, a, b)),
            None => None,
        }
    }

    /// The number of chars of line `line_idx`, without its line break.
    pub fn line_len(&self, line_idx: usize) -> (r: Option<usize>)
        ensures
            match r {
                Some(l) => line_idx < str_lines(self@.text).len() && l == str_lines(
                    self@.text,
                )[line_idx as int].len(),
                None => line_idx >= str_lines(self@.text).len(),
            },
    {
        let cs = chars_of(self.text.as_str());
        match line_range(&cs, line_idx) {
            Some((a, b)) => Some(b - a),
            None => None,
        }
    }

    /// The char at index `idx`.
    pub fn char_at(&self, idx: usize) -> (r: Option<char>)
        ensures
            r == (if idx < self@.text.len() {
                Some(self@.text[idx as int])
            } else {
                None
            }),
    {
        let cs = chars_of(self.text.as_str());
        if idx < cs.len() {
            Some(cs[idx])
        } else {
            None
        }
    }

    /// Puts `text` in at byte offset `idx` (cut at the end of the buffer); the
    /// offset must fall between chars.
    pub fn insert(&mut self, idx: usize, text: &str)
        requires
            is_byte_boundary(old(self)@.text, clamp(idx as int, utf8_len(old(self)@.text) as int)),
        ensures
            final(self)@ == (TextBufferView {
                text: inserted_at_byte(old(self)@.text, idx as int, text@),
                modified: true,
                ..old(self)@
            }),
    {
        let n = crate::text::byte_len(self.text.as_str());
        let at = if idx < n {
            idx
        } else {
            n
        };
        let cs = chars_of(self.text.as_str());
        let k = char_index_at(&cs, at).unwrap();
        proof {
            let j = char_index_of_byte(cs@, at as int);
            lemma_byte_boundary_unique(cs@, j, k as int);
        }
        let mut out = string_of_range(&cs, 0, k);
        crate::text::push_str(&mut out, text);
        let rest = string_of_range(&cs, k, cs.len());
        crate::text::push_str(&mut out, rest.as_str());
        proof {
            assert(cs@.subrange(0, k as int) =~= cs@.take(k as int));
            assert(cs@.subrange(k as int, cs@.len() as int) =~= cs@.skip(k as int));
        }
        self.text = out;
        self.is_modified = true;
    }

    /// Drops the bytes from `start` to `end` (both cut at the end of the
    /// buffer); when the range is not empty its ends must fall between chars.
    pub fn remove(&mut self, start: usize, end: usize)
        requires
            ({
                let t = old(self)@.text;
                let n = utf8_len(t) as int;
                clamp(start as int, n) < clamp(end as int, n) ==> is_byte_boundary(
                    t,
                    clamp(start as int, n),
                ) && is_byte_boundary(t, clamp(end as int, n))
            }),
        ensures
            ({
                let t = old(self)@.text;
                let n = utf8_len(t) as int;
                if clamp(start as int, n) < clamp(end as int, n) {
                    final(self)@ == (TextBufferView {
                        text: removed_bytes(t, start as int, end as int),
                        modified: true,
                        ..old(self)@
                    })
                } else {
                    final(self)@ == old(self)@
                }
            }),
    {
        let n = crate::text::byte_len(self.text.as_str());
        let s = if start < n {
            start
        } else {
            n
        };
        let e = if end < n {
            end
        } else {
            n
        };
        if s < e {
            let cs = chars_of(self.text.as_str());
            let ks = char_index_at(&cs, s).unwrap();
            let ke = char_index_at(&cs, e).unwrap();
            proof {
                lemma_byte_boundary_unique(cs@, char_index_of_byte(cs@, s as int), ks as int);
                lemma_byte_boundary_unique(cs@, char_index_of_byte(cs@, e as int), ke as int);
                if ke < ks {
                    lemma_utf8_len_take_mono(cs@, ke as int, ks as int);
                }
            }
            let mut out = string_of_range(&cs, 0, ks);
            let rest = string_of_range(&cs, ke, cs.len());
            crate::text::push_str(&mut out, rest.as_str());
            proof {
                assert(cs@.subrange(0, ks as int) =~= cs@.take(ks as int));
                assert(cs@.subrange(ke as int, cs@.len() as int) =~= cs@.skip(ke as int));
            }
            self.text = out;
            self.is_modified = true;
        }
    }

    /// The whole text.
    pub fn get_text(&self) -> (r: String)
        ensures
            r@ == self@.text,
    {
        let mut out = String::new();
        crate::text::push_str(&mut out, self.text.as_str());
        out
    }

    /// The text of the bytes from `start` to `end` (cut at the end); empty when
    /// the range is empty or starts past the text. Otherwise both ends must
    /// fall between chars.
    pub fn get_text_range(&self, start: usize, end: usize) -> (r: String)
        requires
            ({
                let t = self@.text;
                let n = utf8_len(t) as int;
                start < end && start < n ==> is_byte_boundary(t, start as int) && is_byte_boundary(
                    t,
                    clamp(end as int, n),
                )
            }),
        ensures
            r@ == text_range(self@.text, start as int, end as int),
    {
        let n = crate::text::byte_len(self.text.as_str());
        if start >= end || start >= n {
            return String::new();
        }
        let e = if end < n {
            end
        } else {
            n
        };
        let cs = chars_of(self.text.as_str());
        let ks = char_index_at(&cs, start).unwrap();
        let ke = char_index_at(&cs, e).unwrap();
        proof {
            lemma_byte_boundary_unique(cs@, char_index_of_byte(cs@, start as int), ks as int);
            lemma_byte_boundary_unique(cs@, char_index_of_byte(cs@, e as int), ke as int);
            if ke < ks {
                lemma_utf8_len_take_mono(cs@, ke as int, ks as int);
            }
        }
        string_of_range(&cs, ks, ke)
    }

    /// The byte offset of line `line_idx` as counting the lines before it
    /// gives it: each line's bytes and one byte for its line break.
    pub fn line_to_byte(&self, line_idx: usize) -> (r: Option<usize>)
        ensures
            r == (if line_idx < str_lines(self@.text).len() {
                Some(line_offset(str_lines(self@.text), line_idx as int) as usize)
            } else {
                None
            }),
            r matches Some(o) ==> o == line_offset(str_lines(self@.text), line_idx as int),
    {
        let total = crate::text::byte_len(self.text.as_str());
        let cs = chars_of(self.text.as_str());
        let n = cs.len();
        let ghost s = cs@;
        let mut p: usize = 0;
        let mut k: usize = 0;
        let mut offset: usize = 0;
        proof {
            assert(str_lines(s).skip(0) =~= str_lines(s));
            assert(s.take(0) =~= Seq::<char>::empty());
            assert(vstd::utf8::encode_utf8(Seq::<char>::empty()) =~= Seq::<u8>::empty());
        }
        while p < n
            invariant
                n == s.len(),
                s == self@.text,
                s == cs@,
                total == utf8_len(s),
                p <= n,
                k <= p,
                k <= line_idx,
                str_lines(s).len() == k + lines_from(s, p as int).len(),
                str_lines(s).skip(k as int) == lines_from(s, p as int),
                offset == line_offset(str_lines(s), k as int),
                offset <= utf8_len(s.take(p as int)),
            decreases n - p,
        {
            let e = find_newline(&cs, p);
            proof {
                lemma_lines_from_step(s, p as int);
                lemma_next_newline(s, p as int);
                assert(str_lines(s).skip(k as int)[0] == str_lines(s)[k as int]);
            }
            if k == line_idx {
                return Some(offset);
            }
            proof {
                assert(str_lines(s).skip(k + 1) =~= str_lines(s).skip(k as int).skip(1));
            }
            if e >= n {
                return None;
            }
            let b = body_end(&cs, p, e);
            proof {
                lemma_segment_bytes(s, p as int, e as int);
                lemma_utf8_len_take_mono(s, e + 1, s.len() as int);
            }
            let w = bytes_between(&cs, p, b);
            offset = offset + w + 1;
            k = k + 1;
            p = e + 1;
        }
        None
    }

    /// `Some(min(byte_idx, len))` for a byte index inside the text, else none.
    pub fn byte_to_char(&self, byte_idx: usize) -> (r: Option<usize>)
        ensures
            r == (if byte_idx >= utf8_len(self@.text) {
                None
            } else {
                Some(clamp(byte_idx as int, self@.text.len() as int) as usize)
            }),
    {
        let n = crate::text::byte_len(self.text.as_str());
        if byte_idx >= n {
            return None;
        }
        let len = self.len();
        Some(
            if byte_idx < len {
                byte_idx
            } else {
                len
            },
        )
    }

    /// The line of char `char_idx`: the LFs before it, cut at the end.
    pub fn char_to_line(&self, char_idx: usize) -> (r: usize)
        ensures
            r == line_index_of(self@.text, char_idx as int),
    {
        let cs = chars_of(self.text.as_str());
        let mut line: usize = 0;
        let mut count: usize = 0;
        while count < cs.len() && count < char_idx
            invariant
                count <= cs@.len(),
                count <= char_idx,
                line == newlines_before(cs@, count as int),
                line <= count,
            decreases cs@.len() - count,
        {
            if cs[count] == '\n' {
                line = line + 1;
            }
            count = count + 1;
        }
        line
    }

    /// Back from `char_idx` to just after the nearest LF before it, or to 0.
    pub fn line_beginning(&self, char_idx: usize) -> (r: usize)
        ensures
            r == line_begin(self@.text, char_idx as int),
    {
        let cs = chars_of(self.text.as_str());
        let mut start = char_idx;
        while start > 0
            invariant
                start <= char_idx,
                line_begin(cs@, start as int) == line_begin(cs@, char_idx as int),
            ensures
                start == 0 || (start - 1 < cs@.len() && cs@[start - 1] == '\n'),
                line_begin(cs@, start as int) == line_begin(cs@, char_idx as int),
            decreases start,
        {
            if start - 1 < cs.len() && cs[start - 1] == '\n' {
                break;
            }
            start = start - 1;
        }
        start
    }

    /// Where the line of `char_idx` ends: its start plus the length of its text.
    pub fn line_ending(&self, char_idx: usize) -> (r: usize)
        ensures
            r == line_end_of(self@.text, char_idx as int),
    {
        let total = self.len();
        let line_idx = self.char_to_line(char_idx);
        let line_start = self.line_beginning(char_idx);
        let line_len = match self.line_len(line_idx) {
            Some(l) => l,
            None => 0,
        };
        proof {
            let t = self@.text;
            lemma_line_begin(t, char_idx as int);
            lemma_lines_at_segment(t, line_start as int);
            if line_idx < str_lines(t).len() {
                assert(line_start < t.len());
                assert(str_lines(t).skip(line_idx as int)[0] == str_lines(t)[line_idx as int]);
                lemma_lines_from_step(t, line_start as int);
                lemma_next_newline(t, line_start as int);
                lemma_line_body_len(t, line_start as int, next_newline(t, line_start as int));
            }
        }
        line_start + line_len
    }

    /// The offset of the next line from `char_idx`, or the length of the text.
    pub fn next_line(&self, char_idx: usize) -> (r: usize)
        ensures
            r == next_line_of(self@.text, char_idx as int),
    {
        let line_idx = self.char_to_line(char_idx);
        let num_lines = self.num_lines();
        if num_lines > 0 && line_idx < num_lines - 1 {
            match self.line_to_byte(line_idx + 1) {
                Some(o) => o,
                None => char_idx,
            }
        } else {
            self.len()
        }
    }

    /// The offset of the previous line from `char_idx`, or 0.
    pub fn prev_line(&self, char_idx: usize) -> (r: usize)
        ensures
            r == prev_line_of(self@.text, char_idx as int),
    {
        let line_idx = self.char_to_line(char_idx);
        proof {
            lemma_line_index_bound(self@.text, char_idx as int);
        }
        if line_idx > 0 {
            match self.line_to_byte(line_idx - 1) {
                Some(o) => o,
                None => 0,
            }
        } else {
            0
        }
    }

    /// The words of the text, each a maximal run of letters, digits and `_`,
    /// as byte ranges.
    pub fn words(&self) -> (r: Vec<(usize, usize)>)
        ensures
            r@ == word_byte_spans(self@.text),
    {
        let total = crate::text::byte_len(self.text.as_str());
        let cs = chars_of(self.text.as_str());
        let ghost s = cs@;
        let ghost f = |w: (int, int)| (utf8_len(s.take(w.0)) as usize, utf8_len(s.take(w.1)) as usize);
        let ghost full = word_spans_from(s, 0).map_values(f);
        let mut words: Vec<(usize, usize)> = Vec::new();
        let mut i: usize = 0;
        let mut bytes: usize = 0;
        let mut start: usize = 0;
        let mut in_word = false;
        let ghost mut ws: int = 0;
        proof {
            assert(s.take(0) =~= Seq::<char>::empty());
            assert(vstd::utf8::encode_utf8(Seq::<char>::empty()) =~= Seq::<u8>::empty());
            assert(words@ + word_spans_from(s, 0).map_values(f) =~= full);
        }
        while i < cs.len()
            invariant
                s == cs@,
                s == self@.text,
                total == utf8_len(s),
                f == (|w: (int, int)| (utf8_len(s.take(w.0)) as usize, utf8_len(s.take(w.1)) as usize)),
                full == word_spans_from(s, 0).map_values(f),
                i <= s.len(),
                bytes == utf8_len(s.take(i as int)),
                !in_word ==> words@ + word_spans_from(s, i as int).map_values(f) == full,
                in_word ==> {
                    &&& 0 <= ws < i
                    &&& start == utf8_len(s.take(ws))
                    &&& crate::text::forward_over_word(s, ws) == crate::text::forward_over_word(s, i as int)
                    &&& word_spans_from(s, ws) == seq![(ws, crate::text::forward_over_word(s, ws))]
                        + word_spans_from(s, crate::text::forward_over_word(s, ws))
                    &&& words@ + word_spans_from(s, ws).map_values(f) == full
                },
            decreases s.len() - i,
        {
            let c = cs[i];
            let is_word = crate::text::word_char(c);
            proof {
                lemma_utf8_len_take_step(s, i as int);
                lemma_utf8_len_take_mono(s, i + 1, s.len() as int);
                crate::text::lemma_forward_over_word(s, i as int);
                crate::text::lemma_forward_over_word(s, i + 1);
            }
            if is_word {
                if !in_word {
                    proof {
                        ws = i as int;
                    }
                    start = bytes;
                    in_word = true;
                }
            } else {
                if in_word {
                    proof {
                        let e = crate::text::forward_over_word(s, ws);
                        assert(e == i);
                        assert(word_spans_from(s, i as int) == word_spans_from(s, i + 1));
                        assert((seq![(ws, e)] + word_spans_from(s, e)).map_values(f) =~= seq![f((ws, e))]
                            + word_spans_from(s, e).map_values(f));
                        assert(words@.push((start, bytes)) + word_spans_from(s, i + 1).map_values(f)
                            =~= words@ + word_spans_from(s, ws).map_values(f));
                    }
                    words.push((start, bytes));
                    in_word = false;
                } else {
                    proof {
                        assert(word_spans_from(s, i as int) == word_spans_from(s, i + 1));
                    }
                }
            }
            bytes = bytes + char_utf8_len(c);
            i = i + 1;
        }
        if in_word {
            proof {
                let e = crate::text::forward_over_word(s, ws);
                assert(e == s.len());
                assert(s.take(s.len() as int) =~= s);
                assert((seq![(ws, e)] + word_spans_from(s, e)).map_values(f) =~= seq![f((ws, e))]);
                assert(words@.push((start, total)) =~= words@ + word_spans_from(s, ws).map_values(f));
            }
            words.push((start, total));
        } else {
            proof {
                assert(words@ =~= words@ + word_spans_from(s, i as int).map_values(f));
            }
        }
        words
    }
}

impl Clone for TextBuffer {
    /// The same identifier, text and flag.
    fn clone(&self) -> (r: Self)
        ensures
            r@ == self@,
    {
        TextBuffer { id: self.id, text: self.get_text(), is_modified: self.is_modified }
    }
}

impl Default for TextBuffer {
    fn default() -> (b: Self)
        ensures
            b@.text == Seq::<char>::empty(),
            !b@.modified,
    {
        TextBuffer::new()
    }
}

} // verus!

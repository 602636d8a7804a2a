//! The model of text that the contracts speak of: a text is a sequence of
//! `char`s, divided into lines by line breaks.
use vstd::prelude::*;
use vstd::utf8::encode_utf8;

verus! {

/// The characters that end a line: LF, VT, FF, CR, NEL, LINE SEPARATOR and
/// PARAGRAPH SEPARATOR. A CR directly followed by an LF forms one break.
pub open spec fn is_break_char(c: char) -> bool {
    c == '\n' || c == '\r' || c == '\u{0B}' || c == '\u{0C}' || c == '\u{85}' || c == '\u{2028}'
        || c == '\u{2029}'
}

/// A line break ends just before index `j` (so that a new line starts at `j`).
pub open spec fn breaks_before(s: Seq<char>, j: int) -> bool {
    &&& 0 < j <= s.len()
    &&& is_break_char(s[j - 1])
    &&& !(s[j - 1] == '\r' && j < s.len() && s[j] == '\n')
}

/// The index of the line that holds char `i`: the number of line breaks that
/// end at or before `i`.
pub open spec fn line_of(s: Seq<char>, i: int) -> nat
    decreases i,
{
    if i <= 0 {
        0
    } else {
        line_of(s, i - 1) + if breaks_before(s, i) {
            1nat
        } else {
            0nat
        }
    }
}

/// The number of lines: one more than the number of line breaks.
pub open spec fn line_count(s: Seq<char>) -> nat {
    line_of(s, s.len() as int) + 1
}

/// A line starts at index `j`.
pub open spec fn is_line_start(s: Seq<char>, j: int) -> bool {
    j == 0 || breaks_before(s, j)
}

/// The index at which line `l` starts; for `l == line_count(s)` (and past it)
/// the length of the text.
pub open spec fn line_start(s: Seq<char>, l: int) -> int {
    if 0 <= l < line_count(s) {
        choose|j: int| 0 <= j <= s.len() && is_line_start(s, j) && line_of(s, j) == l
    } else {
        s.len() as int
    }
}

/// The number of chars in line `l`, its line break included.
pub open spec fn line_len(s: Seq<char>, l: int) -> int {
    line_start(s, l + 1) - line_start(s, l)
}

/// The chars of line `l`, its line break included.
pub open spec fn line_text(s: Seq<char>, l: int) -> Seq<char> {
    s.subrange(line_start(s, l), line_start(s, l + 1))
}

/// The column of index `i`: its distance from the start of its line.
pub open spec fn column_of(s: Seq<char>, i: int) -> int {
    i - line_start(s, line_of(s, i) as int)
}

pub proof fn lemma_line_of_mono(s: Seq<char>, i: int, j: int)
    requires
        i <= j,
    ensures
        line_of(s, i) <= line_of(s, j),
        j >= 0 ==> line_of(s, j) <= line_of(s, i) + (j - if i < 0 { 0 } else { i }),
    decreases j - i,
{
    if i < j {
        lemma_line_of_mono(s, i, j - 1);
    }
}

/// A line break that ends after `i` puts its line past the line of `i`.
pub proof fn lemma_line_of_break_after(s: Seq<char>, i: int, j: int)
    requires
        0 <= i < j,
        breaks_before(s, j),
    ensures
        line_of(s, j) >= line_of(s, i) + 1,
{
    lemma_line_of_mono(s, i, j - 1);
}

proof fn lemma_line_start_exists_upto(s: Seq<char>, n: int, l: int)
    requires
        0 <= n <= s.len(),
        0 <= l <= line_of(s, n),
    ensures
        exists|j: int| 0 <= j <= n && is_line_start(s, j) && line_of(s, j) == l,
    decreases n,
{
    if n == 0 {
        assert(is_line_start(s, 0) && line_of(s, 0) == 0);
    } else if l <= line_of(s, n - 1) {
        lemma_line_start_exists_upto(s, n - 1, l);
        let j = choose|j: int| 0 <= j <= n - 1 && is_line_start(s, j) && line_of(s, j) == l;
        assert(0 <= j <= n && is_line_start(s, j) && line_of(s, j) == l);
    } else {
        assert(breaks_before(s, n));
        assert(is_line_start(s, n) && line_of(s, n) == l);
    }
}

/// Two line starts of the same line are the same index.
pub proof fn lemma_line_start_unique(s: Seq<char>, j1: int, j2: int)
    requires
        0 <= j1 <= s.len(),
        0 <= j2 <= s.len(),
        is_line_start(s, j1),
        is_line_start(s, j2),
        line_of(s, j1) == line_of(s, j2),
    ensures
        j1 == j2,
{
    if j1 < j2 {
        lemma_line_of_break_after(s, j1, j2);
    } else if j2 < j1 {
        lemma_line_of_break_after(s, j2, j1);
    }
}

/// What `line_start` is, line by line.
pub proof fn lemma_line_start(s: Seq<char>, l: int)
    requires
        0 <= l < line_count(s),
    ensures
        0 <= line_start(s, l) <= s.len(),
        is_line_start(s, line_start(s, l)),
        line_of(s, line_start(s, l)) == l,
        l == 0 ==> line_start(s, l) == 0,
{
    lemma_line_start_exists_upto(s, s.len() as int, l);
    if l == 0 {
        lemma_line_start_unique(s, 0, line_start(s, l));
    }
}

/// The start of the line after `l` is past the start of `l`.
pub proof fn lemma_line_start_increasing(s: Seq<char>, l: int)
    requires
        0 <= l < line_count(s),
    ensures
        line_start(s, l) < line_start(s, l + 1) <= s.len()
            || (l + 1 == line_count(s) && line_start(s, l) <= line_start(s, l + 1) == s.len()),
        line_start(s, l) <= line_start(s, l + 1) <= s.len(),
{
    lemma_line_start(s, l);
    if l + 1 < line_count(s) {
        lemma_line_start(s, l + 1);
        let a = line_start(s, l);
        let b = line_start(s, l + 1);
        if b <= a {
            lemma_line_of_mono(s, b, a);
        }
    }
}

/// Every index lies in its line: between the start of its line and the start
/// of the next one.
pub proof fn lemma_index_in_line(s: Seq<char>, i: int)
    requires
        0 <= i <= s.len(),
    ensures
        line_of(s, i) < line_count(s),
        line_start(s, line_of(s, i) as int) <= i,
        i < line_start(s, line_of(s, i) as int + 1) || (line_of(s, i) + 1 == line_count(s) && i
            <= s.len()),
        i <= line_start(s, line_of(s, i) as int + 1),
        0 <= column_of(s, i) <= line_len(s, line_of(s, i) as int),
{
    let l = line_of(s, i) as int;
    lemma_line_of_mono(s, i, s.len() as int);
    lemma_line_start(s, l);
    let a = line_start(s, l);
    if a > i {
        lemma_line_of_break_after(s, i, a);
    }
    if l + 1 < line_count(s) {
        lemma_line_start(s, l + 1);
        let b = line_start(s, l + 1);
        if b <= i {
            lemma_line_of_mono(s, b, i);
        }
    }
}

/// What `char::is_alphanumeric` answers for `c` (the Unicode `Alphabetic`
/// and `Numeric` properties).
pub uninterp spec fn alphanumeric(c: char) -> bool;

/// `char::is_alphanumeric`: whether `c` is a letter or a digit in Unicode.
/// Among ASCII chars these are exactly `a`-`z`, `A`-`Z` and `0`-`9`; which
/// other chars are letters or digits is left to the Unicode tables.
#[verifier::external_body]
pub(crate) fn char_is_alphanumeric(c: char) -> (r: bool)
    ensures
        r == alphanumeric(c),
        (c as u32) < 0x80 ==> (r <==> (0x61 <= (c as u32) <= 0x7a || 0x41 <= (c as u32) <= 0x5a
            || 0x30 <= (c as u32) <= 0x39)),
{
    c.is_alphanumeric()
}

/// A char that belongs to a word: a letter, a digit or `_`.
pub open spec fn is_word_char(c: char) -> bool {
    alphanumeric(c) || c == '_'
}

pub fn word_char(c: char) -> (r: bool)
    ensures
        r == is_word_char(c),
{
    char_is_alphanumeric(c) || c == '_'
}

/// Index `i` holds a word char.
pub open spec fn word_at(s: Seq<char>, i: int) -> bool {
    0 <= i < s.len() && is_word_char(s[i])
}

/// From `p`, back over the word chars just before it.
pub open spec fn back_over_word(s: Seq<char>, p: int) -> int
    decreases p,
{
    if p > 0 && word_at(s, p - 1) {
        back_over_word(s, p - 1)
    } else {
        p
    }
}

/// From `p`, forward over the word chars at and after it.
pub open spec fn forward_over_word(s: Seq<char>, p: int) -> int
    decreases s.len() - p,
{
    if p < s.len() && word_at(s, p) {
        forward_over_word(s, p + 1)
    } else {
        p
    }
}

/// From `p`, forward over the chars that are not word chars.
pub open spec fn forward_over_nonword(s: Seq<char>, p: int) -> int
    decreases s.len() - p,
{
    if p < s.len() && !word_at(s, p) {
        forward_over_nonword(s, p + 1)
    } else {
        p
    }
}

/// Where a move to the start of a word lands from `p`: the start of the word
/// that holds `p`, or, from outside a word, the start of the next word (or the
/// end of the text). Index 0 stays.
pub open spec fn word_start_from(s: Seq<char>, p: int) -> int {
    if p <= 0 {
        p
    } else if word_at(s, p) {
        back_over_word(s, p)
    } else {
        forward_over_nonword(s, p)
    }
}

/// Where a move to the end of a word lands from `p`: just past the last char
/// of the word that holds `p`, or, from outside a word, of the next word (at
/// most the end of the text).
pub open spec fn word_end_from(s: Seq<char>, p: int) -> int {
    let q = if word_at(s, p) {
        forward_over_word(s, p)
    } else {
        forward_over_word(s, forward_over_nonword(s, p))
    };
    if q < s.len() {
        q
    } else {
        s.len() as int
    }
}

pub proof fn lemma_forward_over_word(s: Seq<char>, p: int)
    ensures
        p <= forward_over_word(s, p),
        p <= s.len() ==> forward_over_word(s, p) <= s.len(),
        forall|k: int| p <= k < forward_over_word(s, p) ==> word_at(s, k),
    decreases s.len() - p,
{
    if p < s.len() && word_at(s, p) {
        lemma_forward_over_word(s, p + 1);
    }
}

proof fn lemma_forward_over_word_stops(s: Seq<char>, p: int)
    requires
        0 <= p <= s.len(),
    ensures
        forward_over_word(s, p) == s.len() || !word_at(s, forward_over_word(s, p)),
    decreases s.len() - p,
{
    if p < s.len() && word_at(s, p) {
        lemma_forward_over_word_stops(s, p + 1);
    }
}

proof fn lemma_back_over_word(s: Seq<char>, p: int)
    requires
        0 <= p,
    ensures
        0 <= back_over_word(s, p) <= p,
        forall|k: int| back_over_word(s, p) <= k < p ==> word_at(s, k),
        back_over_word(s, p) == 0 || !word_at(s, back_over_word(s, p) - 1),
    decreases p,
{
    if p > 0 && word_at(s, p - 1) {
        lemma_back_over_word(s, p - 1);
    }
}

proof fn lemma_forward_over_nonword(s: Seq<char>, p: int)
    requires
        0 <= p <= s.len(),
    ensures
        p <= forward_over_nonword(s, p) <= s.len(),
        forall|k: int| p <= k < forward_over_nonword(s, p) ==> !word_at(s, k),
        forward_over_nonword(s, p) == s.len() || word_at(s, forward_over_nonword(s, p)),
    decreases s.len() - p,
{
    if p < s.len() && !word_at(s, p) {
        lemma_forward_over_nonword(s, p + 1);
    }
}

/// A move to the start of a word, from a caret past 0 inside the text: on a
/// word char it goes back to the first char of that word (never forward, and
/// over word chars only); elsewhere it goes forward over the chars that are
/// not word chars, to the first char of the next word or the end of the text.
pub proof fn law_word_start_target(s: Seq<char>, p: int)
    requires
        0 < p <= s.len(),
    ensures
        ({
            let r = word_start_from(s, p);
            &&& 0 <= r <= s.len()
            &&& word_at(s, p) ==> {
                &&& r <= p
                &&& forall|k: int| r <= k <= p ==> word_at(s, k)
                &&& r == 0 || !word_at(s, r - 1)
            }
            &&& !word_at(s, p) ==> {
                &&& p <= r
                &&& forall|k: int| p <= k < r ==> !word_at(s, k)
                &&& r == s.len() || word_at(s, r)
                &&& p < s.len() ==> p < r
            }
        }),
{
    if word_at(s, p) {
        lemma_back_over_word(s, p);
    } else {
        lemma_forward_over_nonword(s, p);
    }
}

/// From `p` to `r` the chars up to `a` are not word chars (there are none
/// when `p` is on a word char), those from `a` on are, and a word char at
/// `a` is passed.
pub open spec fn word_end_path(s: Seq<char>, p: int, a: int, r: int) -> bool {
    &&& p <= a <= r
    &&& word_at(s, p) ==> a == p
    &&& forall|k: int| p <= k < a ==> !word_at(s, k)
    &&& forall|k: int| a <= k < r ==> word_at(s, k)
    &&& a < s.len() ==> a < r
}

/// A move to the end of a word, from a caret inside the text: it passes
/// first the chars that are not word chars (none when the caret is on a word
/// char), then the word chars of one word, and stops just past that word's
/// last char (or at the end of the text).
pub proof fn law_word_end_target(s: Seq<char>, p: int)
    requires
        0 <= p <= s.len(),
    ensures
        ({
            let r = word_end_from(s, p);
            &&& p <= r <= s.len()
            &&& r == s.len() || !word_at(s, r)
            &&& exists|a: int| #[trigger] word_end_path(s, p, a, r)
        }),
{
    let a = if word_at(s, p) {
        p
    } else {
        forward_over_nonword(s, p)
    };
    lemma_forward_over_nonword(s, p);
    lemma_forward_over_word(s, a);
    lemma_forward_over_word_stops(s, a);
    let r = word_end_from(s, p);
    assert(word_end_path(s, p, a, r));
}

/// The word selected around a caret inside the text holds the caret, is made
/// of word chars only, and cannot grow: the chars just outside it are not
/// word chars.
pub proof fn law_word_around(s: Seq<char>, p: int)
    requires
        0 <= p <= s.len(),
    ensures
        ({
            let a = back_over_word(s, p);
            let b = forward_over_word(s, p);
            &&& 0 <= a <= p <= b <= s.len()
            &&& forall|k: int| a <= k < b ==> word_at(s, k)
            &&& a == 0 || !word_at(s, a - 1)
            &&& b == s.len() || !word_at(s, b)
        }),
{
    lemma_back_over_word(s, p);
    lemma_forward_over_word(s, p);
    lemma_forward_over_word_stops(s, p);
}

/// The number of bytes of the UTF-8 encoding of `s`.
pub open spec fn utf8_len(s: Seq<char>) -> nat {
    encode_utf8(s).len()
}

/// The number of UTF-8 bytes that encode `c`.
pub open spec fn char_width(c: char) -> nat {
    if (c as u32) <= 0x7f {
        1
    } else if (c as u32) <= 0x7ff {
        2
    } else if (c as u32) <= 0xffff {
        3
    } else {
        4
    }
}

/// One char takes as many bytes as `char_width` says.
pub proof fn lemma_utf8_len_char(c: char)
    ensures
        utf8_len(seq![c]) == char_width(c),
        1 <= char_width(c) <= 4,
{
    broadcast use vstd::utf8::char_is_scalar;

    assert(seq![c].drop_first() =~= Seq::<char>::empty());
    assert(encode_utf8(Seq::<char>::empty()) =~= Seq::<u8>::empty());
    assert(encode_utf8(seq![c]) =~= vstd::utf8::encode_scalar(c as u32) + encode_utf8(
        seq![c].drop_first(),
    ));
}

/// The bytes of two texts put together are the bytes of each, in turn.
pub proof fn lemma_utf8_len_append(a: Seq<char>, b: Seq<char>)
    ensures
        utf8_len(a + b) == utf8_len(a) + utf8_len(b),
    decreases a.len(),
{
    if a.len() == 0 {
        assert(a + b =~= b);
    } else {
        assert((a + b).drop_first() =~= a.drop_first() + b);
        assert((a + b)[0] == a[0]);
        lemma_utf8_len_append(a.drop_first(), b);
    }
}

/// Taking one char more adds that char's width.
pub proof fn lemma_utf8_len_take_step(s: Seq<char>, k: int)
    requires
        0 <= k < s.len(),
    ensures
        utf8_len(s.take(k + 1)) == utf8_len(s.take(k)) + char_width(s[k]),
        utf8_len(s.take(k)) < utf8_len(s.take(k + 1)),
{
    assert(s.take(k + 1) =~= s.take(k) + seq![s[k]]);
    lemma_utf8_len_append(s.take(k), seq![s[k]]);
    lemma_utf8_len_char(s[k]);
}

/// A longer prefix takes more bytes, at least one per char.
pub proof fn lemma_utf8_len_take_mono(s: Seq<char>, i: int, j: int)
    requires
        0 <= i <= j <= s.len(),
    ensures
        utf8_len(s.take(i)) + (j - i) <= utf8_len(s.take(j)),
        utf8_len(s.take(j)) <= utf8_len(s),
    decreases j - i,
{
    if i < j {
        lemma_utf8_len_take_mono(s, i, j - 1);
        lemma_utf8_len_take_step(s, j - 1);
    }
    assert(s =~= s.take(j) + s.skip(j));
    lemma_utf8_len_append(s.take(j), s.skip(j));
}

/// `char::len_utf8`: the number of UTF-8 bytes that encode `c`.
pub fn char_utf8_len(c: char) -> (n: usize)
    ensures
        n == utf8_len(seq![c]),
        n == char_width(c),
{
    proof {
        lemma_utf8_len_char(c);
    }
    let v = c as u32;
    if v <= 0x7f {
        1
    } else if v <= 0x7ff {
        2
    } else if v <= 0xffff {
        3
    } else {
        4
    }
}

/// `str::len`: the number of bytes of the UTF-8 encoding of `s`.
#[verifier::external_body]
pub(crate) fn byte_len(s: &str) -> (n: usize)
    ensures
        n == utf8_len(s@),
{
    s.len()
}

/// The number of chars that end line `l`: 2 for a CR LF pair, 1 for any
/// other line break, 0 for the last line, which has none.
pub open spec fn line_break_len(s: Seq<char>, l: int) -> int {
    let t = line_text(s, l);
    if l + 1 >= line_count(s) {
        0
    } else if t.len() >= 2 && t[t.len() - 2] == '\r' && t[t.len() - 1] == '\n' {
        2
    } else {
        1
    }
}

/// The number of chars of line `l` without its line break.
pub open spec fn line_content_len(s: Seq<char>, l: int) -> int {
    line_len(s, l) - line_break_len(s, l)
}

/// A line's text, without its break, is part of the line.
pub proof fn lemma_line_content_len(s: Seq<char>, l: int)
    requires
        0 <= l < line_count(s),
    ensures
        line_text(s, l).len() == line_len(s, l),
        0 <= line_content_len(s, l) <= line_len(s, l),
        line_start(s, l) + line_len(s, l) <= s.len(),
{
    lemma_line_start(s, l);
    lemma_line_start_increasing(s, l);
}

/// Where a vertical move into line `line`, wanting column `target`, lands:
/// at that column, or at the end of the line's text (before its break) when
/// the line is shorter.
pub open spec fn vertical_target(s: Seq<char>, line: int, target: int) -> int {
    line_start(s, line) + if target <= line_content_len(s, line) {
        target
    } else {
        line_content_len(s, line)
    }
}

/// The chars of `s`, in order.
pub fn chars_of(s: &str) -> (v: Vec<char>)
    ensures
        v@ == s@,
{
    let mut v: Vec<char> = Vec::new();
    for c in it: s.chars()
        invariant
            v@ == it.seq().take(it.index() as int),
    {
        v.push(c);
    }
    v
}

/// `char::to_string`: a `String` holding `c` alone.
#[verifier::external_body]
pub(crate) fn char_to_string(c: char) -> (s: String)
    ensures
        s@ == seq![c],
{
    c.to_string()
}

/// `String::push`: `c` is added at the end of `s`.
#[verifier::external_body]
pub(crate) fn string_push(s: &mut String, c: char)
    ensures
        final(s)@ == old(s)@.push(c),
{
    s.push(c)
}

/// A `String` holding the chars of `v`, in order.
pub fn string_from_chars(v: &[char]) -> (s: String)
    ensures
        s@ == v@,
{
    let mut s = String::new();
    let mut i: usize = 0;
    while i < v.len()
        invariant
            i <= v@.len(),
            s@ == v@.take(i as int),
        decreases v@.len() - i,
    {
        string_push(&mut s, v[i]);
        assert(v@.take(i + 1) =~= v@.take(i as int).push(v@[i as int]));
        i = i + 1;
    }
    assert(v@.take(v@.len() as int) =~= v@);
    s
}

/// A control char: Unicode general category Cc, that is U+0000 to U+001F
/// and U+007F to U+009F.
pub open spec fn is_control_char(c: char) -> bool {
    (c as u32) <= 0x1f || (0x7f <= (c as u32) && (c as u32) <= 0x9f)
}

/// `char::is_control`: whether `c` has the general category Cc.
pub fn char_is_control(c: char) -> (r: bool)
    ensures
        r == is_control_char(c),
{
    let v = c as u32;
    v <= 0x1f || (0x7f <= v && v <= 0x9f)
}

/// Appends the chars of `t` to `s`.
pub fn push_str(s: &mut String, t: &str)
    ensures
        final(s)@ == old(s)@ + t@,
{
    let mut i: usize = 0;
    let cs = chars_of(t);
    while i < cs.len()
        invariant
            i <= cs@.len(),
            cs@ == t@,
            s@ == old(s)@ + cs@.take(i as int),
        decreases cs@.len() - i,
    {
        string_push(s, cs[i]);
        assert(old(s)@ + cs@.take(i + 1) =~= old(s)@ + cs@.take(i as int) + seq![cs@[i as int]]);
        i = i + 1;
    }
    assert(cs@.take(cs@.len() as int) =~= cs@);
}

/// `String::pop`: the last char comes off, when there is one.
#[verifier::external_body]
pub(crate) fn string_pop(s: &mut String) -> (r: Option<char>)
    ensures
        old(s)@.len() > 0 ==> r == Some(old(s)@.last()) && final(s)@ == old(s)@.drop_last(),
        old(s)@.len() == 0 ==> r is None && final(s)@ == old(s)@,
{
    s.pop()
}

/// Whether two texts hold the same chars.
pub fn text_eq(a: &str, b: &str) -> (r: bool)
    ensures
        r == (a@ == b@),
{
    let x = chars_of(a);
    let y = chars_of(b);
    if x.len() != y.len() {
        return false;
    }
    let mut i: usize = 0;
    while i < x.len()
        invariant
            i <= x@.len(),
            x@.len() == y@.len(),
            x@ == a@,
            y@ == b@,
            forall|k: int| 0 <= k < i ==> x@[k] == y@[k],
        decreases x@.len() - i,
    {
        if x[i] != y[i] {
            return false;
        }
        i = i + 1;
    }
    assert(x@ =~= y@);
    true
}

/// `s` with every occurrence of `p` replaced by `r`, scanning from the left
/// and never overlapping, as `str::replace` does it for a pattern that is not
/// empty.
pub open spec fn replaced(s: Seq<char>, p: Seq<char>, r: Seq<char>) -> Seq<char>
    decreases s.len(),
{
    if p.len() == 0 || s.len() < p.len() {
        s
    } else if s.take(p.len() as int) == p {
        r + replaced(s.skip(p.len() as int), p, r)
    } else {
        seq![s[0]] + replaced(s.drop_first(), p, r)
    }
}

/// Whether `p` occurs in `cs` at index `i`.
pub fn occurs_at(cs: &Vec<char>, i: usize, p: &Vec<char>) -> (r: bool)
    requires
        i <= cs@.len(),
    ensures
        r == (i + p@.len() <= cs@.len() && cs@.skip(i as int).take(p@.len() as int) == p@),
{
    if p.len() > cs.len() - i {
        return false;
    }
    let n = cs.len();
    let mut j: usize = 0;
    while j < p.len()
        invariant
            n == cs@.len(),
            i + p@.len() <= cs@.len(),
            j <= p@.len(),
            forall|k: int| 0 <= k < j ==> cs@[i + k] == p@[k],
        decreases p@.len() - j,
    {
        if cs[i + j] != p[j] {
            assert(cs@.skip(i as int).take(p@.len() as int)[j as int] != p@[j as int]);
            return false;
        }
        j = j + 1;
    }
    assert(cs@.skip(i as int).take(p@.len() as int) =~= p@);
    true
}

/// `str::replace` for a pattern that is not empty: every occurrence of `from`
/// in `s`, from the left and never overlapping, is replaced by `to`.
pub fn replace_all(s: &str, from: &str, to: &str) -> (r: String)
    requires
        from@.len() > 0,
    ensures
        r@ == replaced(s@, from@, to@),
{
    let cs = chars_of(s);
    let ps = chars_of(from);
    let mut out = String::new();
    let mut i: usize = 0;
    proof {
        assert(cs@.skip(0) =~= cs@);
    }
    while i < cs.len()
        invariant
            i <= cs@.len(),
            cs@ == s@,
            ps@ == from@,
            ps@.len() > 0,
            out@ + replaced(cs@.skip(i as int), ps@, to@) == replaced(s@, from@, to@),
        decreases cs@.len() - i,
    {
        let ghost rest = cs@.skip(i as int);
        if occurs_at(&cs, i, &ps) {
            proof {
                assert(rest.len() >= ps@.len());
                assert(rest.take(ps@.len() as int) == ps@);
                assert(rest.skip(ps@.len() as int) =~= cs@.skip(i + ps@.len()));
                assert(out@ + to@ + replaced(cs@.skip(i + ps@.len()), ps@, to@) =~= out@ + (to@
                    + replaced(rest.skip(ps@.len() as int), ps@, to@)));
            }
            push_str(&mut out, to);
            i = i + ps.len();
        } else {
            proof {
                assert(rest.drop_first() =~= cs@.skip(i + 1));
                assert(rest[0] == cs@[i as int]);
                if rest.len() >= ps@.len() {
                    assert(rest.take(ps@.len() as int) != ps@);
                }
                assert(out@.push(cs@[i as int]) + replaced(cs@.skip(i + 1), ps@, to@) =~= out@ + (
                seq![rest[0]] + replaced(rest.drop_first(), ps@, to@)));
            }
            string_push(&mut out, cs[i]);
            i = i + 1;
        }
    }
    proof {
        assert(cs@.skip(i as int) =~= Seq::<char>::empty());
        assert(out@ + Seq::<char>::empty() =~= out@);
    }
    out
}

} // verus!

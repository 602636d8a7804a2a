//! Find and replace over a text, with plain or regular-expression search.
use crate::editor::buffer::{char_index_of_byte, is_byte_boundary, lemma_byte_boundary_unique};
use crate::text::{chars_of, lemma_utf8_len_append, push_str, string_push, utf8_len};
use vstd::prelude::*;

verus! {

/// A char that has a meaning in a regular expression and must be escaped
/// to stand for itself.
pub open spec fn is_meta_char(c: char) -> bool {
    c == '\\' || c == '.' || c == '+' || c == '*' || c == '?' || c == '(' || c == ')' || c == '|'
        || c == '[' || c == ']' || c == '{' || c == '}' || c == '^' || c == '$' || c == '#' || c
        == '&' || c == '-' || c == '~'
}

/// `s` with a backslash put before each meta char.
pub open spec fn escaped(s: Seq<char>) -> Seq<char>
    decreases s.len(),
{
    if s.len() == 0 {
        s
    } else if is_meta_char(s[0]) {
        seq!['\\', s[0]] + escaped(s.drop_first())
    } else {
        seq![s[0]] + escaped(s.drop_first())
    }
}

/// Whether `Regex::new` accepts `pattern`: it parses and stays within the
/// default size limit.
pub uninterp spec fn regex_compiles(pattern: Seq<char>) -> bool;

/// The byte range of the first match that `Regex::find` gives for the regex
/// `pattern` in `haystack`.
pub uninterp spec fn regex_first_match(pattern: Seq<char>, haystack: Seq<char>) -> Option<
    (int, int),
>;

/// The byte ranges of the successive matches that `Regex::find_iter` gives
/// for the regex `pattern` in `haystack`.
pub uninterp spec fn regex_all_matches(pattern: Seq<char>, haystack: Seq<char>) -> Seq<
    (usize, usize),
>;

/// What `Regex::replace_all` makes of `haystack` for the regex `pattern` and
/// the replacement `replacement` (where `$name` stands for a group).
pub uninterp spec fn regex_replaced(
    pattern: Seq<char>,
    haystack: Seq<char>,
    replacement: Seq<char>,
) -> Seq<char>;

/// `regex::escape`: `pattern` with a backslash before each meta char.
#[verifier::external_body]
fn regex_escape(pattern: &str) -> (r: String)
    ensures
        r@ == escaped(pattern@),
{
    regex::escape(pattern)
}

/// `Regex::new`: whether `pattern` compiles.
#[verifier::external_body]
fn regex_is_valid(pattern: &str) -> (r: bool)
    ensures
        r == regex_compiles(pattern@),
{
    regex::Regex::new(pattern).is_ok()
}

/// `Regex::find` for the regex `pattern`: the byte range of the first match
/// in `haystack`, which lies in it and falls between chars.
#[verifier::external_body]
fn regex_find(pattern: &str, haystack: &str) -> (r: Option<(usize, usize)>)
    requires
        regex_compiles(pattern@),
    ensures
        match r {
            Some((s, e)) => regex_first_match(pattern@, haystack@) == Some((s as int, e as int))
                && s <= e <= utf8_len(haystack@) && is_byte_boundary(haystack@, s as int)
                && is_byte_boundary(haystack@, e as int),
            None => regex_first_match(pattern@, haystack@) is None,
        },
{
    match regex::Regex::new(pattern) {
        Ok(re) => re.find(haystack).map(|m| (m.start(), m.end())),
        Err(_) => None,
    }
}

/// `Regex::find_iter` for the regex `pattern`: the byte ranges of the
/// successive non-overlapping matches in `haystack`, each of which lies in it
/// with its ends between chars.
#[verifier::external_body]
fn regex_find_all(pattern: &str, haystack: &str) -> (r: Vec<(usize, usize)>)
    requires
        regex_compiles(pattern@),
    ensures
        r@ == regex_all_matches(pattern@, haystack@),
        forall|i: int| 0 <= i < r@.len() ==> (#[trigger] r@[i]).0 <= r@[i].1 <= utf8_len(haystack@),
        forall|i: int| 0 <= i < r@.len() ==> is_byte_boundary(haystack@, (#[trigger] r@[i]).0 as int)
            && is_byte_boundary(haystack@, r@[i].1 as int),
        forall|i: int, j: int| 0 <= i < j < r@.len() ==> (#[trigger] r@[i]).1 <= (#[trigger] r@[j]).0,
{
    match regex::Regex::new(pattern) {
        Ok(re) => re.find_iter(haystack).map(|m| (m.start(), m.end())).collect(),
        Err(_) => Vec::new(),
    }
}

/// `h` with each byte range of `ms` (in order, not overlapping, their ends
/// between chars) replaced by `r`.
pub open spec fn spliced(h: Seq<char>, ms: Seq<(usize, usize)>, r: Seq<char>) -> Seq<char>
    decreases ms.len(),
{
    if ms.len() == 0 {
        h
    } else {
        let last = ms.last();
        spliced(h.take(char_index_of_byte(h, last.0 as int)), ms.drop_last(), r) + r + h.skip(
            char_index_of_byte(h, last.1 as int),
        )
    }
}

/// `Regex::replace_all` for the regex `pattern`: every match in `haystack`
/// replaced by `replacement`, with its group references expanded. A
/// replacement without `$` has nothing to expand: each match that
/// `find_iter` gives is replaced by it as it stands.
#[verifier::external_body]
fn regex_replace(pattern: &str, haystack: &str, replacement: &str) -> (r: String)
    requires
        regex_compiles(pattern@),
    ensures
        r@ == regex_replaced(pattern@, haystack@, replacement@),
        !replacement@.contains('$') ==> r@ == spliced(
            haystack@,
            regex_all_matches(pattern@, haystack@),
            replacement@,
        ),
{
    match regex::Regex::new(pattern) {
        Ok(re) => re.replace_all(haystack, replacement).into_owned(),
        Err(_) => haystack.to_string(),
    }
}

/// `Regex::replace_all` with `NoExpand`: each match that `find_iter` gives
/// for the regex `pattern` in `haystack` is replaced by `replacement` as it
/// stands.
#[verifier::external_body]
fn regex_replace_literal(pattern: &str, haystack: &str, replacement: &str) -> (r: String)
    requires
        regex_compiles(pattern@),
    ensures
        r@ == spliced(haystack@, regex_all_matches(pattern@, haystack@), replacement@),
{
    match regex::Regex::new(pattern) {
        Ok(re) => re.replace_all(haystack, regex::NoExpand(replacement)).into_owned(),
        Err(_) => haystack.to_string(),
    }
}

/// The settings and state of a find-and-replace.
#[derive(Debug, Clone)]
pub struct FindReplace {
    pub search_text: String,
    pub replace_text: String,
    pub case_sensitive: bool,
    pub whole_word: bool,
    pub regex: bool,
    pub wrap_around: bool,
    pub show_replace: bool,
    last_match: Option<usize>,
    regex_cache: Option<String>,
}

/// What a `FindReplace` holds, as the contracts see it.
pub struct FindView {
    pub search: Seq<char>,
    pub replacement: Seq<char>,
    pub case_sensitive: bool,
    pub whole_word: bool,
    pub regex: bool,
    pub wrap_around: bool,
    pub show_replace: bool,
    pub last_match: Option<usize>,
    pub cached_pattern: Option<Seq<char>>,
}

impl View for FindReplace {
    type V = FindView;

    closed spec fn view(&self) -> FindView {
        FindView {
            search: self.search_text@,
            replacement: self.replace_text@,
            case_sensitive: self.case_sensitive,
            whole_word: self.whole_word,
            regex: self.regex,
            wrap_around: self.wrap_around,
            show_replace: self.show_replace,
            last_match: self.last_match,
            cached_pattern: opt_text(self.regex_cache),
        }
    }
}

/// The regular expression that a search uses: the search text itself when it
/// is a regular expression, else the search text escaped; between word
/// boundaries for whole words; made case-insensitive unless case matters.
pub open spec fn pattern_for(search: Seq<char>, is_regex: bool, whole_word: bool, case_sensitive: bool) -> Seq<char> {
    let base = if is_regex {
        search
    } else {
        escaped(search)
    };
    let worded = if whole_word {
        seq!['\\', 'b'] + base + seq!['\\', 'b']
    } else {
        base
    };
    if case_sensitive {
        worded
    } else {
        seq!['(', '?', 'i', ')'] + worded
    }
}

/// The regular expression that `f` searches with.
pub open spec fn pattern_of(f: FindView) -> Seq<char> {
    pattern_for(f.search, f.regex, f.whole_word, f.case_sensitive)
}

/// The pattern that a search of `f` compiles: none for an empty search text
/// or a pattern that does not compile.
pub open spec fn built_pattern(f: FindView) -> Option<Seq<char>> {
    if f.search.len() == 0 || !regex_compiles(pattern_of(f)) {
        None
    } else {
        Some(pattern_of(f))
    }
}

/// What `find_next` finds from byte offset `from`: the first match of
/// `pattern` in the text from there on, else (wrapping around, from past the
/// start) the first match in the whole text.
pub open spec fn next_match(
    pattern: Seq<char>,
    text: Seq<char>,
    from: int,
    wrap_around: bool,
) -> Option<(int, int)> {
    match regex_first_match(pattern, text.skip(char_index_of_byte(text, from))) {
        Some((s, e)) => Some((from + s, from + e)),
        None => if wrap_around && from > 0 {
            regex_first_match(pattern, text)
        } else {
            None
        },
    }
}

/// The view of a `String` that may be missing.
pub open spec fn opt_text(s: Option<String>) -> Option<Seq<char>> {
    match s {
        Some(t) => Some(t@),
        None => None,
    }
}

/// `f` and `g` agree on everything but the last match and the cached pattern.
pub open spec fn same_settings(f: FindView, g: FindView) -> bool {
    &&& f.search == g.search
    &&& f.replacement == g.replacement
    &&& f.case_sensitive == g.case_sensitive
    &&& f.whole_word == g.whole_word
    &&& f.regex == g.regex
    &&& f.wrap_around == g.wrap_around
    &&& f.show_replace == g.show_replace
}

impl FindReplace {
    /// A search for `search_text`, replaced by `replace_text`, with the other
    /// settings as `default` has them.
    pub fn new(search_text: String, replace_text: String) -> (f: Self)
        ensures
            f@.search == search_text@,
            f@.replacement == replace_text@,
            !f@.case_sensitive,
            !f@.whole_word,
            !f@.regex,
            f@.wrap_around,
            !f@.show_replace,
            f@.last_match is None,
            f@.cached_pattern is None,
    {
        FindReplace {
            search_text,
            replace_text,
            case_sensitive: false,
            whole_word: false,
            regex: false,
            wrap_around: true,
            show_replace: false,
            last_match: None,
            regex_cache: None,
        }
    }

    pub fn set_search_text(&mut self, text: String)
        ensures
            final(self)@ == (FindView { search: text@, ..old(self)@ }),
    {
        self.search_text = text;
    }

    pub fn set_replace_text(&mut self, text: String)
        ensures
            final(self)@ == (FindView { replacement: text@, ..old(self)@ }),
    {
        self.replace_text = text;
    }

    pub fn set_case_sensitive(&mut self, on: bool)
        ensures
            final(self)@ == (FindView { case_sensitive: on, ..old(self)@ }),
    {
        self.case_sensitive = on;
    }

    pub fn set_whole_word(&mut self, on: bool)
        ensures
            final(self)@ == (FindView { whole_word: on, ..old(self)@ }),
    {
        self.whole_word = on;
    }

    pub fn set_regex(&mut self, on: bool)
        ensures
            final(self)@ == (FindView { regex: on, ..old(self)@ }),
    {
        self.regex = on;
    }

    pub fn set_wrap_around(&mut self, on: bool)
        ensures
            final(self)@ == (FindView { wrap_around: on, ..old(self)@ }),
    {
        self.wrap_around = on;
    }

    /// The regular expression the settings give, without checking it.
    fn pattern_text(&self) -> (r: String)
        ensures
            r@ == pattern_of(self@),
    {
        let base = if self.regex {
            let mut b = String::new();
            push_str(&mut b, self.search_text.as_str());
            b
        } else {
            regex_escape(self.search_text.as_str())
        };
        let worded = if self.whole_word {
            let mut w = String::new();
            string_push(&mut w, '\\');
            string_push(&mut w, 'b');
            push_str(&mut w, base.as_str());
            string_push(&mut w, '\\');
            string_push(&mut w, 'b');
            proof {
                assert(w@ =~= seq!['\\', 'b'] + base@ + seq!['\\', 'b']);
            }
            w
        } else {
            base
        };
        if self.case_sensitive {
            worded
        } else {
            let mut p = String::new();
            string_push(&mut p, '(');
            string_push(&mut p, '?');
            string_push(&mut p, 'i');
            string_push(&mut p, ')');
            push_str(&mut p, worded.as_str());
            proof {
                assert(p@ =~= seq!['(', '?', 'i', ')'] + worded@);
            }
            p
        }
    }

    /// Compiles the search into a regular expression and keeps it; none for
    /// an empty search text or a pattern that does not compile.
    pub fn build_pattern(&mut self) -> (r: Option<String>)
        ensures
            opt_text(r) == built_pattern(old(self)@),
            final(self)@.cached_pattern == built_pattern(old(self)@),
            same_settings(final(self)@, old(self)@),
            final(self)@.last_match == old(self)@.last_match,
    {
        if self.search_text.as_str().is_empty() {
            self.regex_cache = None;
            return None;
        }
        let pattern = self.pattern_text();
        if regex_is_valid(pattern.as_str()) {
            let mut kept = String::new();
            push_str(&mut kept, pattern.as_str());
            self.regex_cache = Some(kept);
            Some(pattern)
        } else {
            self.regex_cache = None;
            None
        }
    }

    /// The next match from byte offset `start_from`, wrapping around to the
    /// start when that is on; its start is kept as the last match.
    pub fn find_next(&mut self, text: &str, start_from: usize) -> (r: Option<(usize, usize)>)
        requires
            is_byte_boundary(text@, start_from as int),
        ensures
            ({
                let f = old(self)@;
                match built_pattern(f) {
                    None => r is None,
                    Some(p) => match r {
                        Some((s, e)) => next_match(p, text@, start_from as int, f.wrap_around)
                            == Some((s as int, e as int)),
                        None => next_match(p, text@, start_from as int, f.wrap_around) is None,
                    },
                }
            }),
            same_settings(final(self)@, old(self)@),
            old(self)@.search.len() > 0 ==> final(self)@.cached_pattern == built_pattern(
                old(self)@,
            ),
            final(self)@.last_match == match r {
                Some((s, _)) => Some(s),
                None => old(self)@.last_match,
            },
    {
        if self.search_text.as_str().is_empty() {
            return None;
        }
        let pattern = match self.build_pattern() {
            Some(p) => p,
            None => return None,
        };
        let cs = chars_of(text);
        let k: usize = char_index_of(&cs, start_from);
        let mut rest = String::new();
        let mut i = k;
        while i < cs.len()
            invariant
                k <= i <= cs@.len(),
                rest@ == cs@.subrange(k as int, i as int),
            decreases cs@.len() - i,
        {
            string_push(&mut rest, cs[i]);
            assert(cs@.subrange(k as int, i + 1) =~= cs@.subrange(k as int, i as int).push(
                cs@[i as int],
            ));
            i = i + 1;
        }
        proof {
            assert(rest@ =~= text@.skip(k as int));
            assert(text@ =~= text@.take(k as int) + text@.skip(k as int));
            lemma_utf8_len_append(text@.take(k as int), text@.skip(k as int));
        }
        let total = crate::text::byte_len(text);
        if let Some((s, e)) = regex_find(pattern.as_str(), rest.as_str()) {
            let start = start_from + s;
            let end = start_from + e;
            self.last_match = Some(start);
            return Some((start, end));
        }
        if self.wrap_around && start_from > 0 {
            if let Some((s, e)) = regex_find(pattern.as_str(), text) {
                self.last_match = Some(s);
                return Some((s, e));
            }
        }
        None
    }

    /// The byte ranges of all matches of the search in `text`.
    pub fn find_all(&mut self, text: &str) -> (r: Vec<(usize, usize)>)
        ensures
            match built_pattern(old(self)@) {
                None => r@.len() == 0,
                Some(p) => r@ == regex_all_matches(p, text@),
            },
            forall|i: int| 0 <= i < r@.len() ==> (#[trigger] r@[i]).0 <= r@[i].1 <= utf8_len(text@),
            forall|i: int, j: int| 0 <= i < j < r@.len() ==> (#[trigger] r@[i]).1 <= (#[trigger] r@[j]).0,
            same_settings(final(self)@, old(self)@),
            final(self)@.last_match == old(self)@.last_match,
            old(self)@.search.len() > 0 ==> final(self)@.cached_pattern == built_pattern(
                old(self)@,
            ),
    {
        if self.search_text.as_str().is_empty() {
            return Vec::new();
        }
        let pattern = match self.build_pattern() {
            Some(p) => p,
            None => return Vec::new(),
        };
        regex_find_all(pattern.as_str(), text)
    }

    /// `text` with every match of the search replaced: exactly the ranges that
    /// `find_all` reports, for a plain search, or for a regular expression
    /// whose replacement has no `$`; a regular expression's replacement may
    /// refer to its groups with `$`. An empty search, or one that does not
    /// compile, changes nothing.
    pub fn replace(&self, text: &str) -> (r: String)
        ensures
            r@ == match built_pattern(self@) {
                None => text@,
                Some(p) => if self@.regex {
                    regex_replaced(p, text@, self@.replacement)
                } else {
                    spliced(text@, regex_all_matches(p, text@), self@.replacement)
                },
            },
            match built_pattern(self@) {
                Some(p) => !self@.regex || !self@.replacement.contains('$') ==> r@ == spliced(
                    text@,
                    regex_all_matches(p, text@),
                    self@.replacement,
                ),
                None => true,
            },
    {
        if self.search_text.as_str().is_empty() {
            let mut out = String::new();
            push_str(&mut out, text);
            return out;
        }
        let pattern = self.pattern_text();
        if !regex_is_valid(pattern.as_str()) {
            let mut out = String::new();
            push_str(&mut out, text);
            return out;
        }
        if self.regex {
            regex_replace(pattern.as_str(), text, self.replace_text.as_str())
        } else {
            regex_replace_literal(pattern.as_str(), text, self.replace_text.as_str())
        }
    }

    /// `text` with the bytes in `range` replaced by the replacement text; both
    /// ends must fall between chars.
    pub fn replace_match(&self, text: &str, range: (usize, usize)) -> (r: String)
        requires
            is_byte_boundary(text@, range.0 as int),
            is_byte_boundary(text@, range.1 as int),
        ensures
            r@ == text@.take(char_index_of_byte(text@, range.0 as int)) + self@.replacement
                + text@.skip(char_index_of_byte(text@, range.1 as int)),
    {
        let (start, end) = range;
        let cs = chars_of(text);
        let ks = char_index_of(&cs, start);
        let ke = char_index_of(&cs, end);
        let mut result = String::new();
        let mut i: usize = 0;
        while i < ks
            invariant
                i <= ks <= cs@.len(),
                result@ == cs@.take(i as int),
            decreases ks - i,
        {
            string_push(&mut result, cs[i]);
            assert(cs@.take(i + 1) =~= cs@.take(i as int).push(cs@[i as int]));
            i = i + 1;
        }
        push_str(&mut result, self.replace_text.as_str());
        let ghost mid = result@;
        let mut j = ke;
        while j < cs.len()
            invariant
                ke <= j <= cs@.len(),
                result@ == mid + cs@.subrange(ke as int, j as int),
            decreases cs@.len() - j,
        {
            string_push(&mut result, cs[j]);
            assert(cs@.subrange(ke as int, j + 1) =~= cs@.subrange(ke as int, j as int).push(
                cs@[j as int],
            ));
            j = j + 1;
        }
        assert(cs@.subrange(ke as int, cs@.len() as int) =~= cs@.skip(ke as int));
        result
    }

    /// The number of matches of the search in `text`.
    pub fn count_matches(&mut self, text: &str) -> (r: usize)
        ensures
            r == match built_pattern(old(self)@) {
                None => 0,
                Some(p) => regex_all_matches(p, text@).len(),
            },
            same_settings(final(self)@, old(self)@),
    {
        self.find_all(text).len()
    }

    /// Empties the search and replacement texts and forgets the last match and
    /// the kept pattern.
    pub fn clear(&mut self)
        ensures
            final(self)@.search == Seq::<char>::empty(),
            final(self)@.replacement == Seq::<char>::empty(),
            final(self)@.case_sensitive == old(self)@.case_sensitive,
            final(self)@.whole_word == old(self)@.whole_word,
            final(self)@.regex == old(self)@.regex,
            final(self)@.wrap_around == old(self)@.wrap_around,
            final(self)@.show_replace == old(self)@.show_replace,
            final(self)@.last_match is None,
            final(self)@.cached_pattern is None,
    {
        self.search_text = String::new();
        self.replace_text = String::new();
        self.last_match = None;
        self.regex_cache = None;
    }
}

/// The char index at byte offset `b` of the text `cs`, for an offset that
/// falls between chars.
fn char_index_of(cs: &Vec<char>, b: usize) -> (k: usize)
    requires
        is_byte_boundary(cs@, b as int),
    ensures
        k <= cs@.len(),
        k == char_index_of_byte(cs@, b as int),
        utf8_len(cs@.take(k as int)) == b,
{
    let mut k: usize = 0;
    let mut bytes: usize = 0;
    let ghost target = char_index_of_byte(cs@, b as int);
    proof {
        assert(cs@.take(0) =~= Seq::<char>::empty());
        assert(vstd::utf8::encode_utf8(Seq::<char>::empty()) =~= Seq::<u8>::empty());
    }
    let n = cs.len();
    while bytes < b
        invariant
            n == cs@.len(),
            0 <= target <= cs@.len(),
            utf8_len(cs@.take(target)) == b,
            k <= target,
            bytes == utf8_len(cs@.take(k as int)),
            bytes <= b,
        decreases target - k,
    {
        proof {
            if k == target {
                assert(false);
            }
            crate::text::lemma_utf8_len_take_step(cs@, k as int);
            crate::text::lemma_utf8_len_take_mono(cs@, k + 1, target);
        }
        bytes = bytes + crate::text::char_utf8_len(cs[k]);
        k = k + 1;
    }
    proof {
        lemma_byte_boundary_unique(cs@, k as int, target);
    }
    k
}

impl Default for FindReplace {
    /// An empty search that ignores case and wraps around.
    fn default() -> (f: Self)
        ensures
            f@.search == Seq::<char>::empty(),
            f@.replacement == Seq::<char>::empty(),
            !f@.case_sensitive,
            !f@.whole_word,
            !f@.regex,
            f@.wrap_around,
            !f@.show_replace,
            f@.last_match is None,
            f@.cached_pattern is None,
    {
        FindReplace {
            search_text: String::new(),
            replace_text: String::new(),
            case_sensitive: false,
            whole_word: false,
            regex: false,
            wrap_around: true,
            show_replace: false,
            last_match: None,
            regex_cache: None,
        }
    }
}

} // verus!

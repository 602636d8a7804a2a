//! A document: a text buffer with the file it came from, the encoding it was
//! read in and the line ending it uses.
use crate::editor::buffer::{TextBuffer, TextBufferView};
use crate::text::{chars_of, push_str, replace_all, replaced, text_eq};
use vstd::prelude::*;
use vstd::utf8::{decode_utf8, encode_utf8, valid_utf8};

verus! {

/// The encodings a document can be read in.
#[derive(Debug, Clone, Copy, PartialEq, Eq, Structural)]
pub enum FileEncoding {
    Utf8,
    Utf16Le,
    Utf16Be,
    Ascii,
    Other,
}

/// `encoding_rs::Encoding`, an encoding of the WHATWG Encoding Standard.
#[verifier::external_type_specification]
#[verifier::external_body]
pub struct ExEncoding(encoding_rs::Encoding);

/// The canonical name of an encoding of the standard, as `Encoding::name`
/// gives it.
pub uninterp spec fn canonical_name(encoding: encoding_rs::Encoding) -> Seq<char>;

/// `Encoding::name`: the canonical name of `encoding`.
#[verifier::external_body]
fn encoding_name(encoding: &'static encoding_rs::Encoding) -> (r: &'static str)
    ensures
        r@ == canonical_name(*encoding),
{
    encoding.name()
}

/// The file encoding that an encoding of the standard with canonical name
/// `name` stands for.
pub open spec fn encoding_for_name(name: Seq<char>) -> FileEncoding {
    if name == "UTF-8"@ {
        FileEncoding::Utf8
    } else if name == "UTF-16LE"@ {
        FileEncoding::Utf16Le
    } else if name == "UTF-16BE"@ {
        FileEncoding::Utf16Be
    } else {
        FileEncoding::Other
    }
}

impl FileEncoding {
    /// The file encoding that an encoding of the standard with canonical name
    /// `name` stands for: UTF-8, UTF-16LE and UTF-16BE, and Other for the rest.
    pub fn from_name(name: &str) -> (r: Self)
        ensures
            r == encoding_for_name(name@),
    {
        if text_eq(name, "UTF-8") {
            FileEncoding::Utf8
        } else if text_eq(name, "UTF-16LE") {
            FileEncoding::Utf16Le
        } else if text_eq(name, "UTF-16BE") {
            FileEncoding::Utf16Be
        } else {
            FileEncoding::Other
        }
    }

    /// The file encoding that `encoding` stands for, by its canonical name:
    /// UTF-8, UTF-16LE and UTF-16BE, and Other for the rest.
    pub fn from_encoding(encoding: &'static encoding_rs::Encoding) -> (r: Self)
        ensures
            r == encoding_for_name(canonical_name(*encoding)),
            r != FileEncoding::Ascii,
    {
        Self::from_name(encoding_name(encoding))
    }

    /// The name shown for the encoding.
    pub fn name(&self) -> (r: &'static str)
        ensures
            r@ == match self {
                FileEncoding::Utf8 => "UTF-8"@,
                FileEncoding::Utf16Le => "UTF-16 LE"@,
                FileEncoding::Utf16Be => "UTF-16 BE"@,
                FileEncoding::Ascii => "ASCII"@,
                FileEncoding::Other => "Other"@,
            },
    {
        match self {
            FileEncoding::Utf8 => "UTF-8",
            FileEncoding::Utf16Le => "UTF-16 LE",
            FileEncoding::Utf16Be => "UTF-16 BE",
            FileEncoding::Ascii => "ASCII",
            FileEncoding::Other => "Other",
        }
    }
}

impl Default for FileEncoding {
    fn default() -> (r: Self)
        ensures
            r == FileEncoding::Utf8,
    {
        FileEncoding::Utf8
    }
}

/// The line endings a document can use.
#[derive(Debug, Clone, Copy, PartialEq, Eq, Structural)]
pub enum LineEnding {
    Crlf,
    Lf,
    Cr,
}

/// A CR directly followed by an LF starts at index `i` of `t`.
pub open spec fn crlf_at(t: Seq<char>, i: int) -> bool {
    0 <= i && i + 1 < t.len() && t[i] == '\r' && t[i + 1] == '\n'
}

/// `t` holds a CR directly followed by an LF.
pub open spec fn has_crlf(t: Seq<char>) -> bool {
    exists|i: int| #[trigger] crlf_at(t, i)
}

/// The line ending a text uses: CRLF when it holds one, else CR when it holds
/// one, else LF.
pub open spec fn line_ending_of(t: Seq<char>) -> LineEnding {
    if has_crlf(t) {
        LineEnding::Crlf
    } else if t.contains('\r') {
        LineEnding::Cr
    } else {
        LineEnding::Lf
    }
}

/// The chars of a line ending.
pub open spec fn ending_chars(e: LineEnding) -> Seq<char> {
    match e {
        LineEnding::Crlf => seq!['\r', '\n'],
        LineEnding::Lf => seq!['\n'],
        LineEnding::Cr => seq!['\r'],
    }
}

impl LineEnding {
    /// The line ending `text` uses.
    pub fn from_str(text: &str) -> (r: Self)
        ensures
            r == line_ending_of(text@),
    {
        let cs = chars_of(text);
        let mut i: usize = 0;
        let mut saw_cr = false;
        while i < cs.len()
            invariant
                i <= cs@.len(),
                cs@ == text@,
                forall|j: int| j < i ==> !#[trigger] crlf_at(cs@, j),
                saw_cr <==> exists|j: int| 0 <= j < i && cs@[j] == '\r',
            decreases cs@.len() - i,
        {
            if cs[i] == '\r' {
                if i + 1 < cs.len() && cs[i + 1] == '\n' {
                    assert(crlf_at(cs@, i as int));
                    return LineEnding::Crlf;
                }
                saw_cr = true;
            }
            i = i + 1;
        }
        if saw_cr {
            proof {
                let j = choose|j: int| 0 <= j < i && cs@[j] == '\r';
                assert(cs@[j] == '\r');
            }
            LineEnding::Cr
        } else {
            proof {
                assert forall|j: int| 0 <= j < cs@.len() implies cs@[j] != '\r' by {}
            }
            LineEnding::Lf
        }
    }

    /// The chars of the line ending.
    pub fn as_str(&self) -> (r: &'static str)
        ensures
            r@ == match self {
                LineEnding::Crlf => "\r\n"@,
                LineEnding::Lf => "\n"@,
                LineEnding::Cr => "\r"@,
            },
    {
        match self {
            LineEnding::Crlf => "\r\n",
            LineEnding::Lf => "\n",
            LineEnding::Cr => "\r",
        }
    }

    /// The name shown for the line ending.
    pub fn name(&self) -> (r: &'static str)
        ensures
            r@ == match self {
                LineEnding::Crlf => "CRLF"@,
                LineEnding::Lf => "LF"@,
                LineEnding::Cr => "CR"@,
            },
    {
        match self {
            LineEnding::Crlf => "CRLF",
            LineEnding::Lf => "LF",
            LineEnding::Cr => "CR",
        }
    }
}

impl Default for LineEnding {
    fn default() -> (r: Self)
        ensures
            r == LineEnding::Crlf,
    {
        LineEnding::Crlf
    }
}

/// What `Encoding::decode` of the encoding with canonical name `encoding`
/// makes of `bytes`: BOM sniffing, then decoding with malformed sequences
/// replaced by U+FFFD.
pub uninterp spec fn whatwg_decoded(encoding: Seq<char>, bytes: Seq<u8>) -> Seq<char>;

/// What `String::from_utf8_lossy` makes of `bytes`: their text, with each
/// malformed sequence replaced by U+FFFD.
pub uninterp spec fn utf8_lossy(bytes: Seq<u8>) -> Seq<char>;

/// `std::str::from_utf8`: the text `bytes` encode, when they are valid UTF-8.
#[verifier::external_body]
fn text_from_utf8(bytes: &[u8]) -> (r: Option<String>)
    ensures
        match r {
            Some(s) => valid_utf8(bytes@) && s@ == decode_utf8(bytes@),
            None => !valid_utf8(bytes@),
        },
{
    match std::str::from_utf8(bytes) {
        Ok(s) => Some(s.to_string()),
        Err(_) => None,
    }
}

/// `String::from_utf8_lossy`: the text of `bytes`, each malformed sequence
/// replaced by U+FFFD; valid UTF-8 comes back as the text it encodes.
#[verifier::external_body]
fn text_from_utf8_lossy(bytes: &[u8]) -> (r: String)
    ensures
        r@ == utf8_lossy(bytes@),
        valid_utf8(bytes@) ==> r@ == decode_utf8(bytes@),
{
    String::from_utf8_lossy(bytes).into_owned()
}

/// `UTF_16LE.decode`: the text of `bytes` as UTF-16LE, after BOM sniffing.
#[verifier::external_body]
fn decode_utf16le(bytes: &[u8]) -> (r: String)
    ensures
        r@ == whatwg_decoded("UTF-16LE"@, bytes@),
{
    encoding_rs::UTF_16LE.decode(bytes).0.into_owned()
}

/// `UTF_16BE.decode`: the text of `bytes` as UTF-16BE, after BOM sniffing.
#[verifier::external_body]
fn decode_utf16be(bytes: &[u8]) -> (r: String)
    ensures
        r@ == whatwg_decoded("UTF-16BE"@, bytes@),
{
    encoding_rs::UTF_16BE.decode(bytes).0.into_owned()
}

/// `UTF_8.encode`: the UTF-8 bytes of `text`.
#[verifier::external_body]
fn encode_utf8_bytes(text: &str) -> (r: Vec<u8>)
    ensures
        r@ == encode_utf8(text@),
{
    encoding_rs::UTF_8.encode(text).0.into_owned()
}

/// `UTF_16LE.encode`: the output encoding of UTF-16LE is UTF-8, so this gives
/// the UTF-8 bytes of `text`.
#[verifier::external_body]
fn encode_utf16le_bytes(text: &str) -> (r: Vec<u8>)
    ensures
        r@ == encode_utf8(text@),
{
    encoding_rs::UTF_16LE.encode(text).0.into_owned()
}

/// `UTF_16BE.encode`: the output encoding of UTF-16BE is UTF-8, so this gives
/// the UTF-8 bytes of `text`.
#[verifier::external_body]
fn encode_utf16be_bytes(text: &str) -> (r: Vec<u8>)
    ensures
        r@ == encode_utf8(text@),
{
    encoding_rs::UTF_16BE.encode(text).0.into_owned()
}

/// The text of a file's bytes and the encoding it was read in: UTF-8 when the
/// bytes are valid UTF-8, UTF-16 by a byte order mark, else UTF-8 with
/// malformed sequences replaced.
pub open spec fn decoded_file(b: Seq<u8>) -> (Seq<char>, FileEncoding) {
    if valid_utf8(b) {
        (decode_utf8(b), FileEncoding::Utf8)
    } else if b.len() >= 2 && b[0] == 0xFF && b[1] == 0xFE {
        (whatwg_decoded("UTF-16LE"@, b), FileEncoding::Utf16Le)
    } else if b.len() >= 2 && b[0] == 0xFE && b[1] == 0xFF {
        (whatwg_decoded("UTF-16BE"@, b), FileEncoding::Utf16Be)
    } else {
        (utf8_lossy(b), FileEncoding::Utf8)
    }
}

/// Decodes a file's bytes, telling which encoding it was read in.
pub fn decode_lossless(bytes: &[u8]) -> (r: (String, FileEncoding))
    ensures
        r.0@ == decoded_file(bytes@).0,
        r.1 == decoded_file(bytes@).1,
{
    if let Some(s) = text_from_utf8(bytes) {
        return (s, FileEncoding::Utf8);
    }
    if bytes.len() >= 2 && bytes[0] == 0xFF && bytes[1] == 0xFE {
        return (decode_utf16le(bytes), FileEncoding::Utf16Le);
    }
    if bytes.len() >= 2 && bytes[0] == 0xFE && bytes[1] == 0xFF {
        return (decode_utf16be(bytes), FileEncoding::Utf16Be);
    }
    (text_from_utf8_lossy(bytes), FileEncoding::Utf8)
}

/// `text` with its line breaks turned from `from` into `to`: CRLF to LF or CR,
/// LF to CRLF or CR, CR to LF or CRLF; the text stays as it is otherwise.
pub open spec fn converted(text: Seq<char>, from: LineEnding, to: LineEnding) -> Seq<char> {
    match (from, to) {
        (LineEnding::Crlf, LineEnding::Lf) => replaced(text, seq!['\r', '\n'], seq!['\n']),
        (LineEnding::Lf, LineEnding::Crlf) => replaced(text, seq!['\n'], seq!['\r', '\n']),
        (LineEnding::Cr, LineEnding::Lf) => replaced(text, seq!['\r'], seq!['\n']),
        (LineEnding::Cr, LineEnding::Crlf) => replaced(text, seq!['\r'], seq!['\r', '\n']),
        (LineEnding::Crlf, LineEnding::Cr) => replaced(text, seq!['\r', '\n'], seq!['\r']),
        (LineEnding::Lf, LineEnding::Cr) => replaced(text, seq!['\n'], seq!['\r']),
        _ => text,
    }
}

/// A path made of one plain component: not empty, not `.` or `..`, and
/// without a char that separates components or starts a prefix on some
/// platform (`/`, `\`, `:`).
pub open spec fn is_plain_component(p: Seq<char>) -> bool {
    &&& p.len() > 0
    &&& forall|i: int| 0 <= i < p.len() ==> p[i] != '/' && p[i] != '\\' && p[i] != ':'
    &&& p != "."@
    &&& p != ".."@
}

/// `Path::file_name`, as text: the last component of the path `path`, when
/// it has one, lossily converted to a `String`. A component is never empty,
/// and a path of one plain component is its own file name; what the last
/// component of another path is depends on the platform's path syntax, and
/// nothing more is claimed of it.
#[verifier::external_body]
fn path_file_name(path: &str) -> (r: Option<String>)
    ensures
        r is Some ==> r->0@.len() > 0,
        is_plain_component(path@) ==> r is Some && r->0@ == path@,
{
    std::path::Path::new(path).file_name().map(|n| n.to_string_lossy().to_string())
}

/// The name shown for a file whose path gives `name` as its last component:
/// that name, or "Untitled" when there is none.
pub fn file_name_or_untitled(name: Option<String>) -> (r: String)
    ensures
        r@ == match name {
            Some(n) => n@,
            None => "Untitled"@,
        },
{
    match name {
        Some(n) => n,
        None => {
            let mut s = String::new();
            push_str(&mut s, "Untitled");
            s
        },
    }
}

/// A text document and what is known of its file.
#[derive(Debug, Clone)]
pub struct Document {
    pub buffer: TextBuffer,
    pub file_path: Option<String>,
    pub encoding: FileEncoding,
    pub line_ending: LineEnding,
    pub is_readonly: bool,
    pub original_content: String,
}

/// What a save writes, a load reads back: the UTF-8 bytes of a text decode
/// to that text, read as UTF-8.
pub proof fn law_save_then_load(t: Seq<char>)
    ensures
        decoded_file(encode_utf8(t)).0 == t,
        decoded_file(encode_utf8(t)).1 == FileEncoding::Utf8,
{
    vstd::utf8::encode_utf8_valid_utf8(t);
    vstd::utf8::encode_utf8_decode_utf8(t);
}

/// Turning LF line breaks into CRLF and back gives the text back, for a text
/// without CRs.
pub proof fn law_lf_crlf_round_trip(t: Seq<char>)
    requires
        !t.contains('\r'),
    ensures
        converted(converted(t, LineEnding::Lf, LineEnding::Crlf), LineEnding::Crlf, LineEnding::Lf)
            == t,
    decreases t.len(),
{
    let lf = seq!['\n'];
    let crlf = seq!['\r', '\n'];
    if t.len() > 0 {
        let rest = t.drop_first();
        assert(!rest.contains('\r')) by {
            if rest.contains('\r') {
                let i = choose|i: int| 0 <= i < rest.len() && rest[i] == '\r';
                assert(t[i + 1] == '\r');
            }
        }
        law_lf_crlf_round_trip(rest);
        let y = replaced(rest, lf, crlf);
        if t[0] == '\n' {
            assert(t.take(1) =~= lf);
            assert(t.skip(1) =~= rest);
            let x = crlf + y;
            assert(replaced(t, lf, crlf) == x);
            assert(x.take(2) =~= crlf);
            assert(x.skip(2) =~= y);
            assert(replaced(x, crlf, lf) == lf + replaced(y, crlf, lf));
            assert(lf + rest =~= t);
        } else {
            assert(t[0] != '\r');
            assert(t.take(1) != lf) by {
                assert(t.take(1)[0] != lf[0]);
            }
            let x = seq![t[0]] + y;
            assert(replaced(t, lf, crlf) == x);
            assert(x.drop_first() =~= y);
            if x.len() >= 2 {
                assert(x.take(2) != crlf) by {
                    assert(x.take(2)[0] != crlf[0]);
                }
            }
            assert(seq![t[0]] + rest =~= t);
        }
    }
}

/// Turning LF line breaks into CR and back gives the text back, for a text
/// without CRs.
pub proof fn law_lf_cr_round_trip(t: Seq<char>)
    requires
        !t.contains('\r'),
    ensures
        converted(converted(t, LineEnding::Lf, LineEnding::Cr), LineEnding::Cr, LineEnding::Lf) == t,
    decreases t.len(),
{
    let lf = seq!['\n'];
    let cr = seq!['\r'];
    if t.len() > 0 {
        let rest = t.drop_first();
        assert(!rest.contains('\r')) by {
            if rest.contains('\r') {
                let i = choose|i: int| 0 <= i < rest.len() && rest[i] == '\r';
                assert(t[i + 1] == '\r');
            }
        }
        law_lf_cr_round_trip(rest);
        let y = replaced(rest, lf, cr);
        if t[0] == '\n' {
            assert(t.take(1) =~= lf);
            assert(t.skip(1) =~= rest);
            let x = cr + y;
            assert(replaced(t, lf, cr) == x);
            assert(x.take(1) =~= cr);
            assert(x.skip(1) =~= y);
            assert(lf + rest =~= t);
        } else {
            assert(t[0] != '\r');
            assert(t.take(1) != lf) by {
                assert(t.take(1)[0] != lf[0]);
            }
            let x = seq![t[0]] + y;
            assert(replaced(t, lf, cr) == x);
            assert(x.drop_first() =~= y);
            assert(x.take(1) != cr) by {
                assert(x.take(1)[0] != cr[0]);
            }
            assert(seq![t[0]] + rest =~= t);
        }
    }
}

/// `t` holds no `c`.
pub open spec fn has_no(t: Seq<char>, c: char) -> bool {
    forall|i: int| 0 <= i < t.len() ==> t[i] != c
}

/// Every line break of `t` is a CR LF pair: each CR is followed by an LF and
/// each LF follows a CR.
pub open spec fn breaks_all_crlf(t: Seq<char>) -> bool
    decreases t.len(),
{
    if t.len() == 0 {
        true
    } else if t[0] == '\r' {
        t.len() >= 2 && t[1] == '\n' && breaks_all_crlf(t.skip(2))
    } else {
        t[0] != '\n' && breaks_all_crlf(t.drop_first())
    }
}

/// A text that does not start with the first char of `p` is replaced char by
/// char from its second char on.
proof fn lemma_replaced_plain_head(t: Seq<char>, p: Seq<char>, r: Seq<char>)
    requires
        t.len() > 0,
        p.len() > 0,
        t[0] != p[0],
    ensures
        replaced(t, p, r) == seq![t[0]] + replaced(t.drop_first(), p, r),
{
    assert(seq![t[0]] + t.drop_first() =~= t);
    if t.len() >= p.len() {
        assert(t.take(p.len() as int)[0] != p[0]);
    }
}

/// A text that starts with `p` has that `p` replaced by `r`.
proof fn lemma_replaced_head(t: Seq<char>, p: Seq<char>, r: Seq<char>)
    requires
        p.len() > 0,
        p.len() <= t.len(),
        t.take(p.len() as int) =~= p,
    ensures
        replaced(t, p, r) == r + replaced(t.skip(p.len() as int), p, r),
{
}

/// Two texts without `d`, put together, hold no `d`.
proof fn lemma_has_no_cons(x: Seq<char>, y: Seq<char>, d: char)
    requires
        has_no(x, d),
        has_no(y, d),
    ensures
        has_no(x + y, d),
{
    assert forall|i: int| 0 <= i < (x + y).len() implies (x + y)[i] != d by {
        if i >= x.len() {
            assert((x + y)[i] == y[i - x.len()]);
        }
    }
}

/// Converting CR LF line breaks into CR turns each pair into one CR: the
/// result holds no LF, and converting it back gives the text back.
pub proof fn law_crlf_to_cr(t: Seq<char>)
    requires
        breaks_all_crlf(t),
    ensures
        has_no(converted(t, LineEnding::Crlf, LineEnding::Cr), '\n'),
        converted(converted(t, LineEnding::Crlf, LineEnding::Cr), LineEnding::Cr, LineEnding::Crlf)
            == t,
    decreases t.len(),
{
    let crlf = seq!['\r', '\n'];
    let cr = seq!['\r'];
    if t.len() > 0 {
        if t[0] == '\r' {
            let rest = t.skip(2);
            law_crlf_to_cr(rest);
            let y = replaced(rest, crlf, cr);
            lemma_replaced_head(t, crlf, cr);
            let x = cr + y;
            lemma_has_no_cons(cr, y, '\n');
            assert(x.take(1) =~= cr);
            assert(x.skip(1) =~= y);
            lemma_replaced_head(x, cr, crlf);
            assert(crlf + rest =~= t);
        } else {
            let rest = t.drop_first();
            law_crlf_to_cr(rest);
            let y = replaced(rest, crlf, cr);
            lemma_replaced_plain_head(t, crlf, cr);
            let x = seq![t[0]] + y;
            lemma_has_no_cons(seq![t[0]], y, '\n');
            assert(x.drop_first() =~= y);
            lemma_replaced_plain_head(x, cr, crlf);
            assert(seq![t[0]] + rest =~= t);
        }
    }
}

/// Converting CR LF line breaks into LF turns each pair into one LF: the
/// result holds no CR, and converting it back gives the text back.
pub proof fn law_crlf_to_lf(t: Seq<char>)
    requires
        breaks_all_crlf(t),
    ensures
        has_no(converted(t, LineEnding::Crlf, LineEnding::Lf), '\r'),
        converted(converted(t, LineEnding::Crlf, LineEnding::Lf), LineEnding::Lf, LineEnding::Crlf)
            == t,
    decreases t.len(),
{
    let crlf = seq!['\r', '\n'];
    let lf = seq!['\n'];
    if t.len() > 0 {
        if t[0] == '\r' {
            let rest = t.skip(2);
            law_crlf_to_lf(rest);
            let y = replaced(rest, crlf, lf);
            lemma_replaced_head(t, crlf, lf);
            let x = lf + y;
            lemma_has_no_cons(lf, y, '\r');
            assert(x.take(1) =~= lf);
            assert(x.skip(1) =~= y);
            lemma_replaced_head(x, lf, crlf);
            assert(crlf + rest =~= t);
        } else {
            let rest = t.drop_first();
            law_crlf_to_lf(rest);
            let y = replaced(rest, crlf, lf);
            lemma_replaced_plain_head(t, crlf, lf);
            let x = seq![t[0]] + y;
            lemma_has_no_cons(seq![t[0]], y, '\r');
            assert(x.drop_first() =~= y);
            lemma_replaced_plain_head(x, lf, crlf);
            assert(seq![t[0]] + rest =~= t);
        }
    }
}

/// Converting CR line breaks into LF, for a text without LFs: the result
/// holds no CR, and converting it back gives the text back.
pub proof fn law_cr_to_lf(t: Seq<char>)
    requires
        has_no(t, '\n'),
    ensures
        has_no(converted(t, LineEnding::Cr, LineEnding::Lf), '\r'),
        converted(converted(t, LineEnding::Cr, LineEnding::Lf), LineEnding::Lf, LineEnding::Cr)
            == t,
    decreases t.len(),
{
    let cr = seq!['\r'];
    let lf = seq!['\n'];
    if t.len() > 0 {
        let rest = t.drop_first();
        assert(has_no(rest, '\n')) by {
            assert forall|i: int| 0 <= i < rest.len() implies rest[i] != '\n' by {
                assert(rest[i] == t[i + 1]);
            }
        }
        law_cr_to_lf(rest);
        let y = replaced(rest, cr, lf);
        if t[0] == '\r' {
            lemma_replaced_head(t, cr, lf);
            let x = lf + y;
            lemma_has_no_cons(lf, y, '\r');
            assert(x.take(1) =~= lf);
            assert(x.skip(1) =~= y);
            lemma_replaced_head(x, lf, cr);
            assert(cr + rest =~= t);
        } else {
            lemma_replaced_plain_head(t, cr, lf);
            let x = seq![t[0]] + y;
            lemma_has_no_cons(seq![t[0]], y, '\r');
            assert(x.drop_first() =~= y);
            lemma_replaced_plain_head(x, lf, cr);
            assert(seq![t[0]] + rest =~= t);
        }
    }
}

/// Converting CR line breaks into CR LF, for a text without LFs: every
/// break of the result is a CR LF pair, and converting it back gives the
/// text back.
pub proof fn law_cr_to_crlf(t: Seq<char>)
    requires
        has_no(t, '\n'),
    ensures
        breaks_all_crlf(converted(t, LineEnding::Cr, LineEnding::Crlf)),
        converted(converted(t, LineEnding::Cr, LineEnding::Crlf), LineEnding::Crlf, LineEnding::Cr)
            == t,
    decreases t.len(),
{
    let cr = seq!['\r'];
    let crlf = seq!['\r', '\n'];
    if t.len() > 0 {
        let rest = t.drop_first();
        assert(has_no(rest, '\n')) by {
            assert forall|i: int| 0 <= i < rest.len() implies rest[i] != '\n' by {
                assert(rest[i] == t[i + 1]);
            }
        }
        law_cr_to_crlf(rest);
        let y = replaced(rest, cr, crlf);
        if t[0] == '\r' {
            lemma_replaced_head(t, cr, crlf);
            let x = crlf + y;
            assert(x.skip(2) =~= y);
            assert(x.take(2) =~= crlf);
            lemma_replaced_head(x, crlf, cr);
            assert(cr + rest =~= t);
        } else {
            lemma_replaced_plain_head(t, cr, crlf);
            let x = seq![t[0]] + y;
            assert(x.drop_first() =~= y);
            lemma_replaced_plain_head(x, crlf, cr);
            assert(seq![t[0]] + rest =~= t);
        }
    }
}

/// Converting LF line breaks into CR LF, for a text without CRs: every break
/// of the result is a CR LF pair.
pub proof fn law_lf_to_crlf_breaks(t: Seq<char>)
    requires
        has_no(t, '\r'),
    ensures
        breaks_all_crlf(converted(t, LineEnding::Lf, LineEnding::Crlf)),
    decreases t.len(),
{
    let lf = seq!['\n'];
    let crlf = seq!['\r', '\n'];
    if t.len() > 0 {
        let rest = t.drop_first();
        assert(has_no(rest, '\r')) by {
            assert forall|i: int| 0 <= i < rest.len() implies rest[i] != '\r' by {
                assert(rest[i] == t[i + 1]);
            }
        }
        law_lf_to_crlf_breaks(rest);
        let y = replaced(rest, lf, crlf);
        if t[0] == '\n' {
            lemma_replaced_head(t, lf, crlf);
            let x = crlf + y;
            assert(x.skip(2) =~= y);
        } else {
            lemma_replaced_plain_head(t, lf, crlf);
            let x = seq![t[0]] + y;
            assert(x.drop_first() =~= y);
        }
    }
}

/// Converting LF line breaks into CR, for a text without CRs: the result
/// holds no LF.
pub proof fn law_lf_to_cr_breaks(t: Seq<char>)
    requires
        has_no(t, '\r'),
    ensures
        has_no(converted(t, LineEnding::Lf, LineEnding::Cr), '\n'),
    decreases t.len(),
{
    let lf = seq!['\n'];
    let cr = seq!['\r'];
    if t.len() > 0 {
        let rest = t.drop_first();
        assert(has_no(rest, '\r')) by {
            assert forall|i: int| 0 <= i < rest.len() implies rest[i] != '\r' by {
                assert(rest[i] == t[i + 1]);
            }
        }
        law_lf_to_cr_breaks(rest);
        let y = replaced(rest, lf, cr);
        if t[0] == '\n' {
            lemma_replaced_head(t, lf, cr);
            lemma_has_no_cons(cr, y, '\n');
        } else {
            lemma_replaced_plain_head(t, lf, cr);
            lemma_has_no_cons(seq![t[0]], y, '\n');
        }
    }
}

impl Document {
    /// An empty, untitled UTF-8 document with LF line endings.
    pub fn new() -> (d: Self)
        ensures
            d.buffer@.text == Seq::<char>::empty(),
            !d.buffer@.modified,
            d.file_path is None,
            d.encoding == FileEncoding::Utf8,
            d.line_ending == LineEnding::Lf,
            !d.is_readonly,
            d.original_content@ == Seq::<char>::empty(),
    {
        Document {
            buffer: TextBuffer::new(),
            file_path: None,
            encoding: FileEncoding::Utf8,
            line_ending: LineEnding::Lf,
            is_readonly: false,
            original_content: String::new(),
        }
    }

    /// An untitled UTF-8 document holding `text`, with the line ending it uses.
    pub fn from_text(text: &str) -> (d: Self)
        ensures
            d.buffer@.text == text@,
            !d.buffer@.modified,
            d.file_path is None,
            d.encoding == FileEncoding::Utf8,
            d.line_ending == line_ending_of(text@),
            !d.is_readonly,
            d.original_content@ == text@,
    {
        let line_ending = LineEnding::from_str(text);
        let mut original_content = String::new();
        push_str(&mut original_content, text);
        Document {
            buffer: TextBuffer::from_string(text),
            file_path: None,
            encoding: FileEncoding::Utf8,
            line_ending,
            is_readonly: false,
            original_content,
        }
    }

    /// The name shown for the document: the last component of its path, or
    /// "Untitled"; never empty. A path of one plain component is shown as it
    /// stands.
    pub fn file_name(&self) -> (r: String)
        ensures
            self.file_path is None ==> r@ == "Untitled"@,
            self.file_path is Some && is_plain_component(self.file_path->0@) ==> r@
                == self.file_path->0@,
            r@.len() > 0,
    {
        proof {
            reveal_strlit("Untitled");
        }
        let name = match &self.file_path {
            Some(p) => path_file_name(p.as_str()),
            None => None,
        };
        file_name_or_untitled(name)
    }

    pub fn is_modified(&self) -> (r: bool)
        ensures
            r == self.buffer@.modified,
    {
        self.buffer.is_modified()
    }

    pub fn set_modified(&mut self, modified: bool)
        ensures
            final(self).buffer@ == (TextBufferView { modified, ..old(self).buffer@ }),
            final(self).file_path == old(self).file_path,
            final(self).encoding == old(self).encoding,
            final(self).line_ending == old(self).line_ending,
            final(self).is_readonly == old(self).is_readonly,
            final(self).original_content == old(self).original_content,
    {
        self.buffer.set_modified(modified);
    }

    /// Takes in the bytes read from the file at `path`: their text, the
    /// encoding they were read in and the line ending the text uses; the
    /// document is then not modified.
    pub fn load_bytes(&mut self, path: String, bytes: &[u8])
        ensures
            final(self).buffer@.text == decoded_file(bytes@).0,
            !final(self).buffer@.modified,
            final(self).file_path == Some(path),
            final(self).encoding == decoded_file(bytes@).1,
            final(self).line_ending == line_ending_of(decoded_file(bytes@).0),
            final(self).is_readonly == old(self).is_readonly,
            final(self).original_content@ == decoded_file(bytes@).0,
    {
        let (content, encoding) = decode_lossless(bytes);
        let line_ending = LineEnding::from_str(content.as_str());
        self.buffer = TextBuffer::from_string(content.as_str());
        self.file_path = Some(path);
        self.encoding = encoding;
        self.line_ending = line_ending;
        self.original_content = content;
        self.buffer.set_modified(false);
    }

    /// The bytes to write when saving: the text encoded for the document's
    /// encoding, which is UTF-8 for all of them.
    pub fn encoded_content(&self) -> (r: Vec<u8>)
        ensures
            r@ == encode_utf8(self.buffer@.text),
    {
        let content = self.buffer.get_text();
        match self.encoding {
            FileEncoding::Utf8 => encode_utf8_bytes(content.as_str()),
            FileEncoding::Utf16Le => encode_utf16le_bytes(content.as_str()),
            FileEncoding::Utf16Be => encode_utf16be_bytes(content.as_str()),
            _ => encode_utf8_bytes(content.as_str()),
        }
    }

    /// Records that the document was written to `path`: that becomes its path
    /// and it is no longer modified.
    pub fn mark_saved(&mut self, path: String)
        ensures
            final(self).buffer@ == (TextBufferView { modified: false, ..old(self).buffer@ }),
            final(self).file_path == Some(path),
            final(self).encoding == old(self).encoding,
            final(self).line_ending == old(self).line_ending,
            final(self).is_readonly == old(self).is_readonly,
            final(self).original_content == old(self).original_content,
    {
        self.file_path = Some(path);
        self.buffer.set_modified(false);
    }

    /// Turns the line breaks of the text into `ending`; the buffer is made
    /// anew from the converted text.
    pub fn convert_line_endings(&mut self, ending: LineEnding)
        ensures
            old(self).line_ending == ending ==> *final(self) == *old(self),
            old(self).line_ending != ending ==> {
                &&& final(self).buffer@.text == converted(
                    old(self).buffer@.text,
                    old(self).line_ending,
                    ending,
                )
                &&& !final(self).buffer@.modified
                &&& final(self).line_ending == ending
                &&& final(self).file_path == old(self).file_path
                &&& final(self).encoding == old(self).encoding
                &&& final(self).is_readonly == old(self).is_readonly
                &&& final(self).original_content == old(self).original_content
            },
    {
        if self.line_ending == ending {
            return;
        }
        let content = self.buffer.get_text();
        proof {
            reveal_strlit("\r\n");
            reveal_strlit("\n");
            reveal_strlit("\r");
            assert("\r\n"@ =~= seq!['\r', '\n']);
            assert("\n"@ =~= seq!['\n']);
            assert("\r"@ =~= seq!['\r']);
        }
        let converted = match (self.line_ending, ending) {
            (LineEnding::Crlf, LineEnding::Lf) => replace_all(content.as_str(), "\r\n", "\n"),
            (LineEnding::Lf, LineEnding::Crlf) => replace_all(content.as_str(), "\n", "\r\n"),
            (LineEnding::Cr, LineEnding::Lf) => replace_all(content.as_str(), "\r", "\n"),
            (LineEnding::Cr, LineEnding::Crlf) => replace_all(content.as_str(), "\r", "\r\n"),
            (LineEnding::Crlf, LineEnding::Cr) => replace_all(content.as_str(), "\r\n", "\r"),
            (LineEnding::Lf, LineEnding::Cr) => replace_all(content.as_str(), "\n", "\r"),
            _ => content,
        };
        self.buffer = TextBuffer::from_string(converted.as_str());
        self.line_ending = ending;
    }

    /// The document has no file yet.
    pub fn is_untitled(&self) -> (r: bool)
        ensures
            r == (self.file_path is None),
    {
        self.file_path.is_none()
    }

    /// The document's path, or "Untitled".
    pub fn get_path_string(&self) -> (r: String)
        ensures
            r@ == match self.file_path {
                Some(p) => p@,
                None => "Untitled"@,
            },
    {
        let mut s = String::new();
        match &self.file_path {
            Some(p) => push_str(&mut s, p.as_str()),
            None => push_str(&mut s, "Untitled"),
        }
        s
    }
}

impl Default for Document {
    fn default() -> (d: Self)
        ensures
            d.buffer@.text == Seq::<char>::empty(),
            d.file_path is None,
            d.encoding == FileEncoding::Utf8,
            d.line_ending == LineEnding::Lf,
    {
        Document::new()
    }
}

} // verus!

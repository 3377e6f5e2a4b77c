//! Recognition of the label format of a payload.
//!
//! The tests are tried in a fixed order and the first that holds decides:
//! the PDF magic, the PNG signature, the ZPL II markers, the EPL2 opening.

use vstd::prelude::*;
use vstd::string::StringExecFns;
use vstd::utf8::{decode_utf8, valid_utf8};
use crate::chars::{ascii_letter, is_ascii_letter};
use crate::strings::{
    all_ascii, ascii_text, chars_of, lemma_ascii_is_utf8, lossy_text, utf8_lossy,
};
use crate::text::{
    begins_with, contains, contains_seq, find, find_in, lemma_find_from, starts_with, trim,
    trimmed,
};

verus! {

/// The label formats that are recognised.
#[derive(Debug, Clone, Copy, PartialEq, Eq, Structural)]
pub enum FileType {
    Pdf,
    Png,
    Zplii,
    Epl2,
}

impl FileType {
    /// The file extension of this format.
    pub open spec fn extension_text(self) -> Seq<char> {
        match self {
            FileType::Pdf => seq!['p', 'd', 'f'],
            FileType::Png => seq!['p', 'n', 'g'],
            FileType::Zplii => seq!['z', 'p', 'l'],
            FileType::Epl2 => seq!['e', 'p', 'l'],
        }
    }

    /// The file extension of this format.
    pub fn extension(&self) -> (ext: &str)
        ensures
            ext@ == self.extension_text(),
    {
        proof {
            reveal_strlit("pdf");
            reveal_strlit("png");
            reveal_strlit("zpl");
            reveal_strlit("epl");
        }
        let ext = match self {
            FileType::Pdf => "pdf",
            FileType::Png => "png",
            FileType::Zplii => "zpl",
            FileType::Epl2 => "epl",
        };
        assert(ext@ =~= self.extension_text());
        ext
    }
}

/// The four bytes `%PDF`.
pub open spec fn pdf_magic() -> Seq<u8> {
    seq![0x25u8, 0x50u8, 0x44u8, 0x46u8]
}

/// The eight bytes that open a PNG file.
pub open spec fn png_magic() -> Seq<u8> {
    seq![0x89u8, 0x50u8, 0x4Eu8, 0x47u8, 0x0Du8, 0x0Au8, 0x1Au8, 0x0Au8]
}

/// Whether `data` opens with `magic`.
pub open spec fn opens_with(data: Seq<u8>, magic: Seq<u8>) -> bool {
    data.len() >= magic.len() && data.take(magic.len() as int) == magic
}

/// The ZPL II start marker.
pub open spec fn zpl_start() -> Seq<char> {
    seq!['^', 'X', 'A']
}

/// The ZPL II end marker.
pub open spec fn zpl_end() -> Seq<char> {
    seq!['^', 'X', 'Z']
}

/// Whether `text` holds a ZPL II marker.
pub open spec fn zpl_marked(text: Seq<char>) -> bool {
    contains(text, zpl_start()) || contains(text, zpl_end()) || starts_with(text, zpl_start())
}

/// The first line of `s`: what stands before its first line feed, less a
/// carriage return at the end of that; all of `s` where it has no line feed.
pub open spec fn first_line(s: Seq<char>) -> Seq<char> {
    match find(s, seq!['\n']) {
        None => s,
        Some(k) => {
            let line = s.take(k);
            if line.len() > 0 && line.last() == '\r' {
                line.drop_last()
            } else {
                line
            }
        },
    }
}

/// Whether `t` begins with one of the letters that open an EPL2 job.
pub open spec fn epl_opening(t: Seq<char>) -> bool {
    starts_with(t, seq!['N']) || starts_with(t, seq!['O']) || starts_with(t, seq!['q'])
}

/// Whether `text` reads as EPL2: trimmed, it begins with an opening letter,
/// and its first line, or all of it where it has one line only, begins with
/// an ASCII letter.
pub open spec fn epl_shaped(text: Seq<char>) -> bool {
    let t = trimmed(text);
    epl_opening(t) && if contains(t, seq!['\n']) || contains(t, seq!['\r']) {
        first_line(t).len() > 0 && ascii_letter(first_line(t)[0])
    } else {
        t.len() > 0 && ascii_letter(t[0])
    }
}

/// The text format that `text` is taken for.
pub open spec fn text_format(text: Seq<char>) -> Option<FileType> {
    if zpl_marked(text) {
        Some(FileType::Zplii)
    } else if epl_shaped(text) {
        Some(FileType::Epl2)
    } else {
        None
    }
}

/// The format of a payload with the bytes `data` that reads as `text`.
pub open spec fn detected(data: Seq<u8>, text: Seq<char>) -> Option<FileType> {
    if opens_with(data, pdf_magic()) {
        Some(FileType::Pdf)
    } else if opens_with(data, png_magic()) {
        Some(FileType::Png)
    } else {
        text_format(text)
    }
}

/// The format of the payload `data`.
pub open spec fn format_of(data: Seq<u8>) -> Option<FileType> {
    detected(data, lossy_text(data))
}

/// The message given where no format is recognised.
pub open spec fn unrecognized_text() -> Seq<char> {
    "Unable to detect file type. Supported types: PDF, PNG, ZPLII, EPL2"@
}

/// Whether `data` opens with the PDF magic.
pub fn is_pdf(data: &[u8]) -> (b: bool)
    ensures
        b == opens_with(data@, pdf_magic()),
{
    let b = data.len() >= 4 && data[0] == 0x25 && data[1] == 0x50 && data[2] == 0x44 && data[3]
        == 0x46;
    proof {
        if data.len() >= 4 {
            let head = data@.take(4);
            assert(head[0] == data@[0] && head[1] == data@[1] && head[2] == data@[2] && head[3]
                == data@[3]);
            if b {
                assert(head =~= pdf_magic());
            }
        }
    }
    b
}

/// Whether `data` opens with the PNG signature.
pub fn is_png(data: &[u8]) -> (b: bool)
    ensures
        b == opens_with(data@, png_magic()),
{
    let b = data.len() >= 8 && data[0] == 0x89 && data[1] == 0x50 && data[2] == 0x4E && data[3]
        == 0x47 && data[4] == 0x0D && data[5] == 0x0A && data[6] == 0x1A && data[7] == 0x0A;
    proof {
        if data.len() >= 8 {
            let head = data@.take(8);
            assert(head[0] == data@[0] && head[1] == data@[1] && head[2] == data@[2] && head[3]
                == data@[3]);
            assert(head[4] == data@[4] && head[5] == data@[5] && head[6] == data@[6] && head[7]
                == data@[7]);
            if b {
                assert(head =~= png_magic());
            }
        }
    }
    b
}

/// Whether `text` holds a ZPL II marker.
pub fn is_zpl(text: &[char]) -> (b: bool)
    ensures
        b == zpl_marked(text@),
{
    broadcast use vstd::array::group_array_axioms;

    let start: [char; 3] = ['^', 'X', 'A'];
    let end: [char; 3] = ['^', 'X', 'Z'];
    let start = start.as_slice();
    let end = end.as_slice();
    assert(start@ =~= zpl_start());
    assert(end@ =~= zpl_end());
    contains_seq(text, start) || contains_seq(text, end) || begins_with(text, start)
}

/// The first line of `s`.
pub fn first_line_of(s: &[char]) -> (line: &[char])
    ensures
        line@ == first_line(s@),
{
    broadcast use vstd::array::group_array_axioms;

    let feed: [char; 1] = ['\n'];
    let feed = feed.as_slice();
    assert(feed@ =~= seq!['\n']);
    match find_in(s, feed) {
        None => s,
        Some(k) => {
            proof {
                lemma_find_from(s@, seq!['\n'], 0);
            }
            if k > 0 && s[k - 1] == '\r' {
                assert(s@.take(k as int).drop_last() =~= s@.subrange(0, k - 1));
                vstd::slice::slice_subrange(s, 0, k - 1)
            } else {
                assert(s@.take(k as int) =~= s@.subrange(0, k as int));
                vstd::slice::slice_subrange(s, 0, k)
            }
        },
    }
}

/// Whether `text` reads as EPL2.
pub fn is_epl(text: &[char]) -> (b: bool)
    ensures
        b == epl_shaped(text@),
{
    broadcast use vstd::array::group_array_axioms;

    let t = trim(text);
    let n: [char; 1] = ['N'];
    let o: [char; 1] = ['O'];
    let q: [char; 1] = ['q'];
    let feed: [char; 1] = ['\n'];
    let cr: [char; 1] = ['\r'];
    let (n, o, q, feed, cr) = (n.as_slice(), o.as_slice(), q.as_slice(), feed.as_slice(), cr.as_slice());
    assert(n@ =~= seq!['N']);
    assert(o@ =~= seq!['O']);
    assert(q@ =~= seq!['q']);
    assert(feed@ =~= seq!['\n']);
    assert(cr@ =~= seq!['\r']);
    if !(begins_with(t, n) || begins_with(t, o) || begins_with(t, q)) {
        return false;
    }
    if contains_seq(t, feed) || contains_seq(t, cr) {
        let line = first_line_of(t);
        line.len() > 0 && is_ascii_letter(line[0])
    } else {
        t.len() > 0 && is_ascii_letter(t[0])
    }
}

/// The text format that `text` is taken for, ZPL II before EPL2.
pub fn classify_text(text: &[char]) -> (r: Option<FileType>)
    ensures
        r == text_format(text@),
{
    if is_zpl(text) {
        Some(FileType::Zplii)
    } else if is_epl(text) {
        Some(FileType::Epl2)
    } else {
        None
    }
}

/// Why a payload gets no format.
#[derive(Debug, Clone, Copy, PartialEq, Eq, Structural)]
pub enum ClassifyError {
    /// The payload passes none of the four tests.
    UnrecognizedFormat,
}

impl ClassifyError {
    /// The message of this error.
    pub open spec fn message_text(self) -> Seq<char> {
        unrecognized_text()
    }

    /// The message shown for this error.
    pub fn message(&self) -> (text: String)
        ensures
            text@ == self.message_text(),
    {
        String::from_str("Unable to detect file type. Supported types: PDF, PNG, ZPLII, EPL2")
    }
}

/// The format of the payload `data`: the binary signatures are tried on
/// the bytes, the text tests on their lossy reading as UTF-8. For bytes
/// that are well-formed UTF-8 that reading is the text they encode, and for
/// ASCII bytes the characters they stand for.
pub fn detect(data: &[u8]) -> (r: Result<FileType, ClassifyError>)
    ensures
        match r {
            Ok(file_type) => format_of(data@) == Some(file_type),
            Err(_) => format_of(data@) is None,
        },
        valid_utf8(data@) ==> format_of(data@) == detected(data@, decode_utf8(data@)),
        all_ascii(data@) ==> format_of(data@) == detected(data@, ascii_text(data@)),
{
    proof {
        if all_ascii(data@) {
            lemma_ascii_is_utf8(data@);
        }
    }
    if is_pdf(data) {
        return Ok(FileType::Pdf);
    }
    if is_png(data) {
        return Ok(FileType::Png);
    }
    let text = utf8_lossy(data);
    let chars = chars_of(text.as_str());
    match classify_text(chars.as_slice()) {
        Some(file_type) => Ok(file_type),
        None => Err(ClassifyError::UnrecognizedFormat),
    }
}

/// The format of the payload `data`, or the message that none is recognised.
pub fn detect_file_type(data: &[u8]) -> (r: Result<FileType, String>)
    ensures
        match r {
            Ok(file_type) => format_of(data@) == Some(file_type),
            Err(message) => format_of(data@) is None && message@ == unrecognized_text(),
        },
        valid_utf8(data@) ==> format_of(data@) == detected(data@, decode_utf8(data@)),
        all_ascii(data@) ==> format_of(data@) == detected(data@, ascii_text(data@)),
{
    match detect(data) {
        Ok(file_type) => Ok(file_type),
        Err(e) => Err(e.message()),
    }
}

/// The order of the tests is fixed: a payload that opens with the PDF
/// magic is PDF, whatever markers its text holds.
pub proof fn lemma_pdf_comes_first(data: Seq<u8>, text: Seq<char>)
    requires
        opens_with(data, pdf_magic()),
    ensures
        detected(data, text) == Some(FileType::Pdf),
        format_of(data) == Some(FileType::Pdf),
{
}

/// A payload that opens with the PNG signature is PNG, whatever follows
/// the signature and however the bytes read as text.
pub proof fn lemma_png_signature(data: Seq<u8>, text: Seq<char>)
    requires
        opens_with(data, png_magic()),
    ensures
        detected(data, text) == Some(FileType::Png),
        format_of(data) == Some(FileType::Png),
{
    assert(data.take(8)[0] == png_magic()[0]);
    assert(data.take(4)[0] == data[0]);
    assert(data.take(8)[0] == data[0]);
}

/// No format is given exactly where none of the four tests holds.
pub proof fn lemma_unrecognized(data: Seq<u8>, text: Seq<char>)
    ensures
        detected(data, text) is None <==> !opens_with(data, pdf_magic()) && !opens_with(
            data,
            png_magic(),
        ) && !zpl_marked(text) && !epl_shaped(text),
{
}

/// The third ZPL II test adds nothing: a text that begins with the start
/// marker holds it.
pub proof fn lemma_zpl_is_containment(text: Seq<char>)
    ensures
        zpl_marked(text) == (contains(text, zpl_start()) || contains(text, zpl_end())),
{
    lemma_find_from(text, zpl_start(), 0);
}

/// The look at the first line adds nothing: a text reads as EPL2 exactly
/// where, trimmed, it begins with `N`, `O` or `q`.
pub proof fn lemma_epl_is_opening(text: Seq<char>)
    ensures
        epl_shaped(text) == epl_opening(trimmed(text)),
{
    let t = trimmed(text);
    if epl_opening(t) {
        assert(t.len() > 0);
        assert(t[0] == 'N' || t[0] == 'O' || t[0] == 'q') by {
            assert(t.subrange(0, 1)[0] == t[0]);
        }
        let feed = seq!['\n'];
        lemma_find_from(t, feed, 0);
        if let Some(k) = find(t, feed) {
            assert(t.subrange(k, k + 1)[0] == t[k]);
            assert(k > 0);
            let line = t.take(k);
            assert(line[0] == t[0]);
            if line.last() == '\r' {
                assert(line.len() > 1);
                assert(line.drop_last()[0] == t[0]);
            }
        }
        assert(first_line(t).len() > 0 && first_line(t)[0] == t[0]);
    }
}

} // verus!

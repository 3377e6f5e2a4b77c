//! Classes of characters that the cleaning and detection rules speak of.

use vstd::prelude::*;

verus! {

/// Whether `c` has the Unicode property `White_Space`.
pub open spec fn white_space(c: char) -> bool {
    let n = c as u32;
    ||| 0x09 <= n <= 0x0D
    ||| n == 0x20
    ||| n == 0x85
    ||| n == 0xA0
    ||| n == 0x1680
    ||| 0x2000 <= n <= 0x200A
    ||| n == 0x2028
    ||| n == 0x2029
    ||| n == 0x202F
    ||| n == 0x205F
    ||| n == 0x3000
}

/// Whether `c` is a double or a single quote.
pub open spec fn quote_mark(c: char) -> bool {
    c == '"' || c == '\''
}

/// Whether `c` is an ASCII letter.
pub open spec fn ascii_letter(c: char) -> bool {
    ('A' <= c && c <= 'Z') || ('a' <= c && c <= 'z')
}

/// Whether `c` is an ASCII decimal digit.
pub open spec fn ascii_digit(c: char) -> bool {
    '0' <= c && c <= '9'
}

/// Whether `c` belongs to the padded standard base64 alphabet.
pub open spec fn base64_symbol(c: char) -> bool {
    ascii_letter(c) || ascii_digit(c) || c == '+' || c == '/' || c == '='
}

/// Whether `c` is white space.
pub fn is_whitespace(c: char) -> (b: bool)
    ensures
        b == white_space(c),
{
    let n: u32 = c as u32;
    (0x09 <= n && n <= 0x0D) || n == 0x20 || n == 0x85 || n == 0xA0 || n == 0x1680 || (0x2000 <= n
        && n <= 0x200A) || n == 0x2028 || n == 0x2029 || n == 0x202F || n == 0x205F || n == 0x3000
}

/// Whether `c` is a quote.
pub fn is_quote(c: char) -> (b: bool)
    ensures
        b == quote_mark(c),
{
    c == '"' || c == '\''
}

/// Whether `c` is an ASCII letter.
pub fn is_ascii_letter(c: char) -> (b: bool)
    ensures
        b == ascii_letter(c),
{
    ('A' <= c && c <= 'Z') || ('a' <= c && c <= 'z')
}

/// Whether `c` belongs to the padded standard base64 alphabet.
pub fn is_base64_symbol(c: char) -> (b: bool)
    ensures
        b == base64_symbol(c),
{
    is_ascii_letter(c) || ('0' <= c && c <= '9') || c == '+' || c == '/' || c == '='
}

} // verus!

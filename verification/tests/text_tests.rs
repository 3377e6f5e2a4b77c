use label_payload::chars::{is_ascii_letter, is_base64_symbol, is_quote, is_whitespace};
use label_payload::sanitize::{keep_symbols, sanitize, strip_prefix};
use label_payload::strings::{chars_of, string_of};
use label_payload::text::{begins_with, contains_seq, find_in, matches_at, trim, unwrap_quotes};

fn cs(s: &str) -> Vec<char> {
    s.chars().collect()
}

#[test]
fn whitespace_agrees_with_std_on_every_char() {
    let mut n: u32 = 0;
    while n <= 0x10FFFF {
        if let Some(c) = char::from_u32(n) {
            assert_eq!(is_whitespace(c), c.is_whitespace(), "U+{:04X}", n);
        }
        n += 1;
    }
}

#[test]
fn letters_and_symbols_agree_with_std_on_every_char() {
    let mut n: u32 = 0;
    while n <= 0x10FFFF {
        if let Some(c) = char::from_u32(n) {
            assert_eq!(is_ascii_letter(c), c.is_ascii_alphabetic(), "U+{:04X}", n);
            let symbol = c.is_ascii_alphanumeric() || c == '+' || c == '/' || c == '=';
            assert_eq!(is_base64_symbol(c), symbol, "U+{:04X}", n);
        }
        n += 1;
    }
}

#[test]
fn quotes_are_the_two_ascii_quotes() {
    assert!(is_quote('"'));
    assert!(is_quote('\''));
    assert!(!is_quote('`'));
    assert!(!is_quote('\u{201C}'));
}

#[test]
fn chars_round_trip() {
    let s = "a\u{e9}\u{3000}\u{1F600}z";
    assert_eq!(chars_of(s), cs(s));
    assert_eq!(string_of(&cs(s)), s);
    assert_eq!(chars_of(""), Vec::<char>::new());
    assert_eq!(string_of(&[]), "");
}

#[test]
fn trim_agrees_with_std() {
    for s in ["", " ", "  a b  ", "\t\r\nab\u{3000}", "\u{85}\u{a0}x\u{2028}", "ab", " \"a\" "] {
        assert_eq!(trim(&cs(s)), cs(s.trim()).as_slice(), "{:?}", s);
    }
}

#[test]
fn unwrap_quotes_agrees_with_std() {
    for s in ["", "\"\"", "'\" ab \"'", " \"a'b\" ", "a\"", "\"  \" \t"] {
        let expected = s.trim_matches(|c: char| c == '"' || c == '\'' || c.is_whitespace());
        assert_eq!(unwrap_quotes(&cs(s)), cs(expected).as_slice(), "{:?}", s);
    }
}

#[test]
fn find_gives_the_first_occurrence() {
    assert_eq!(find_in(&cs("abcabc"), &cs("bc")), Some(1));
    assert_eq!(find_in(&cs("abcabc"), &cs("abc")), Some(0));
    assert_eq!(find_in(&cs("abcabc"), &cs("cab")), Some(2));
    assert_eq!(find_in(&cs("abcabc"), &cs("abcabc")), Some(0));
    assert_eq!(find_in(&cs("abcabc"), &cs("abcabcd")), None);
    assert_eq!(find_in(&cs("abcabc"), &cs("x")), None);
    assert_eq!(find_in(&cs("abc"), &cs("")), Some(0));
    assert_eq!(find_in(&cs(""), &cs("")), Some(0));
    assert_eq!(find_in(&cs(""), &cs("a")), None);
    assert_eq!(find_in(&cs("aab"), &cs("ab")), Some(1));
}

#[test]
fn matching_at_an_index() {
    assert!(matches_at(&cs("hello"), &cs("ell"), 1));
    assert!(!matches_at(&cs("hello"), &cs("ell"), 0));
    assert!(matches_at(&cs("hello"), &cs("lo"), 3));
    assert!(!matches_at(&cs("hello"), &cs("lo"), 4));
    assert!(!matches_at(&cs("hello"), &cs("lo"), usize::MAX));
    assert!(matches_at(&cs("hello"), &cs(""), 5));
    assert!(!matches_at(&cs("hello"), &cs(""), 6));
}

#[test]
fn contains_and_begins_with() {
    assert!(contains_seq(&cs("~^XA~"), &cs("^XA")));
    assert!(!contains_seq(&cs("~^X A~"), &cs("^XA")));
    assert!(begins_with(&cs("^XA~"), &cs("^XA")));
    assert!(!begins_with(&cs(" ^XA~"), &cs("^XA")));
    assert!(begins_with(&cs(""), &cs("")));
    assert!(!begins_with(&cs(""), &cs("N")));
}

#[test]
fn prefix_is_cut_behind_the_first_marker() {
    assert_eq!(strip_prefix(&cs("data:image/png;base64,QUJD")), cs("QUJD").as_slice());
    assert_eq!(strip_prefix(&cs("base64,base64,QUJD")), cs("base64,QUJD").as_slice());
    assert_eq!(strip_prefix(&cs("QUJD")), cs("QUJD").as_slice());
    assert_eq!(strip_prefix(&cs("BASE64,QUJD")), cs("BASE64,QUJD").as_slice());
    assert_eq!(strip_prefix(&cs("x;base64,")), cs("").as_slice());
}

#[test]
fn only_symbols_are_kept() {
    assert_eq!(keep_symbols(&cs("QU JD\n+/=")), "QUJD+/=");
    assert_eq!(keep_symbols(&cs("{\"a\": \"QUJD\"}")), "aQUJD");
    assert_eq!(keep_symbols(&cs("\u{e9}\u{3000}-_,.")), "");
}

#[test]
fn sanitize_strips_prefix_quotes_and_whitespace() {
    assert_eq!(sanitize("  \"data:application/pdf;base64,JVBE\r\nRi0x\"  "), "JVBERi0x");
    assert_eq!(sanitize("'JVBE Ri0x'"), "JVBERi0x");
    assert_eq!(sanitize("JVBERi0x"), "JVBERi0x");
    assert_eq!(sanitize("data:application/pdf;base64,"), "");
    assert_eq!(sanitize(""), "");
    assert_eq!(sanitize(" \"' \t'\" "), "");
}

#[test]
fn sanitize_without_a_marker_keeps_the_scheme_letters() {
    assert_eq!(sanitize("data:text/plain,QUJD"), "datatext/plainQUJD");
}

#[test]
fn sanitize_is_idempotent() {
    for s in [
        "  \"data:application/pdf;base64,JVBE\r\nRi0x\"  ",
        "base64,base64,QUJD",
        "data:text/plain,QUJD",
        "",
        "'==='",
    ] {
        let once = sanitize(s);
        assert_eq!(sanitize(&once), once, "{:?}", s);
    }
}

fn cleaned_step_by_step(input: &str) -> String {
    let trimmed = input.trim();
    let start = match trimmed.find("base64,") {
        Some(at) => at + 7,
        None => 0,
    };
    let mut cleaned: String = trimmed[start..]
        .trim_matches(|c: char| c == '"' || c == '\'' || c.is_whitespace())
        .chars()
        .filter(|c| {
            c.is_ascii_alphanumeric() || *c == '+' || *c == '/' || *c == '=' || c.is_whitespace()
        })
        .filter(|c| !c.is_whitespace())
        .collect();
    cleaned.retain(|c| c != '"' && c != '\'');
    cleaned
}

#[test]
fn sanitize_agrees_with_the_cleaning_step_by_step() {
    for s in [
        "",
        " ",
        "QUJD",
        "  \"data:application/pdf;base64,JVBE\r\nRi0x\"  ",
        "\u{3000}data:image/png;base64, iVBO Rw0K \u{2028}",
        "base64,base64,QUJD",
        "xbase64,'QU\"JD'",
        "{\"file\": \"data:;base64,QUJD==\"}",
        "\u{e9}base64,\u{e9}QUJD\u{1F600}",
        "base64",
        "base64,",
        " base64 , QUJD",
        "'\"'\"",
    ] {
        assert_eq!(sanitize(s), cleaned_step_by_step(s), "{:?}", s);
    }
}

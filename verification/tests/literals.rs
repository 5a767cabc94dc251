use pris::parser::{char_from_codepoint, unescape_raw_string_literal, unescape_string_literal};
use pris::parser::DecodeError;

#[test]
fn unescape_raw_string_literal_strips_dashes() {
    let x = unescape_raw_string_literal("---\nhi\n---");
    assert_eq!("hi", &x);
}

#[test]
fn unescape_raw_string_literal_strips_indent() {
    let x = unescape_raw_string_literal("---\n  hi\n  ---");
    assert_eq!("hi", &x);
}

#[test]
fn unescape_raw_string_literal_preserves_newlines() {
    let x = unescape_raw_string_literal("---\n  hi\n    there\n  ---");
    assert_eq!("hi\n  there", &x);
}

#[test]
fn unescape_raw_string_literal_allows_blank_lines() {
    let x = unescape_raw_string_literal("---\n  hi\n\n  there\n  ---");
    assert_eq!("hi\n\nthere", &x);
}

#[test]
fn unescape_string_literal_strips_quotes() {
    let x = unescape_string_literal("\"\"");
    assert_eq!(Ok("".into()), x);
}

#[test]
fn unescape_string_literal_handles_escaped_quotes() {
    let x = unescape_string_literal("\"x\\\"y\"");
    assert_eq!(Ok("x\"y".into()), x);
}

#[test]
fn unescape_string_literal_handles_escaped_newlines() {
    let x = unescape_string_literal("\"\\n\"");
    assert_eq!(Ok("\n".into()), x);
}

#[test]
fn unescape_string_literal_handles_escaped_codepoints() {
    let x = unescape_string_literal("\"\\u1f574 Unicode 6 was a bad idea.\"");
    assert_eq!(Ok("\u{1f574} Unicode 6 was a bad idea.".into()), x);
}

#[test]
fn unescape_string_literal_handles_escaped_codepoints_at_end() {
    let x = unescape_string_literal("\"\\u1f574\"");
    assert_eq!(Ok("\u{1f574}".into()), x);
}

#[test]
fn unescape_string_literal_handles_short_escaped_codepoints() {
    let x = unescape_string_literal("\"\\u0anewline\"");
    assert_eq!(Ok("\nnewline".into()), x);
}

#[test]
fn unescape_string_literal_handles_long_escaped_codepoints() {
    let x = unescape_string_literal("\"\\u00000afg\"");
    assert_eq!(Ok("\nfg".into()), x);
    let y = unescape_string_literal("\"\\u0000afg\"");
    assert_eq!(Ok("\u{00af}g".into()), y);
}

#[test]
fn unescape_string_literal_rejects_unknown_escape() {
    let x = unescape_string_literal("\"a\\qb\"");
    assert_eq!(Err(DecodeError::InvalidEscape('q')), x);
}

#[test]
fn unescape_string_literal_rejects_surrogate_codepoint() {
    let x = unescape_string_literal("\"\\ud800\"");
    assert_eq!(Err(DecodeError::InvalidCodepoint(0xd800)), x);
}

#[test]
fn unescape_string_literal_escaped_backslash() {
    let x = unescape_string_literal("\"a\\\\n\"");
    assert_eq!(Ok("a\\n".into()), x);
}

#[test]
fn char_from_codepoint_accepts_scalars() {
    assert_eq!(Ok('A'), char_from_codepoint(0x41));
    assert_eq!(Ok('\u{10FFFF}'), char_from_codepoint(0x10FFFF));
}

#[test]
fn char_from_codepoint_rejects_out_of_range() {
    assert_eq!(Err(DecodeError::InvalidCodepoint(0x110000)), char_from_codepoint(0x110000));
    assert_eq!(Err(DecodeError::InvalidCodepoint(0xDFFF)), char_from_codepoint(0xDFFF));
}

#[test]
fn locate_error_finds_line_and_span() {
    let input: Vec<u8> = b"ab\ncd\nef".to_vec();
    let (line, start, end) = pris::report::locate_error(&input, 4);
    assert_eq!(line, 2);
    assert_eq!(start, 3);
    assert_eq!(end, 5);
    let (line2, start2, end2) = pris::report::locate_error(&input, 7);
    assert_eq!(line2, 3);
    assert_eq!(start2, 6);
    assert_eq!(end2, 8);
}

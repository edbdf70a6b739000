use std::sync::Arc;

use jatom::syntax::{has_well_formed_escapes, Error, Literal};

fn decoded(s: &str) -> Result<Literal, Error> {
    Ok(Literal::String(Arc::new(s.to_string())))
}

#[test]
fn test_escape() {
    let srcs = [
        (r#""#, ""),
        (r#"a"#, "a"),
        (r#"ab"#, "ab"),
        (r#"abc"#, "abc"),
        (r#"abc\n"#, "abc\n"),
        (r#"abc\nd"#, "abc\nd"),
        (r#"abc\ndef"#, "abc\ndef"),
        (r#"abc\ndef\""#, "abc\ndef\""),
        (r#"abc\n\ndef\""#, "abc\n\ndef\""),
        (r#"abc\n\\\ndef\""#, "abc\n\\\ndef\""),
        (r#"abc\x1b\n\\\ndef\""#, "abc\x1b\n\\\ndef\""),
        (r#"abc\e\n\\\ndef\""#, "abc\x1b\n\\\ndef\""),
        (r#"abc\u001b\n\\\ndef\""#, "abc\x1b\n\\\ndef\""),
        (r#"abc\U0000001b\n\\\ndef\""#, "abc\x1b\n\\\ndef\""),
        (r#"\n"#, "\n"),
        (r#"\nq"#, "\nq"),
        (r#"\nab"#, "\nab"),
    ];

    for (src, expected) in srcs {
        assert_eq!(Literal::escape(src), decoded(expected));
    }
}

#[test]
fn escape_decodes_newline_between_text() {
    assert_eq!(Literal::escape("abc\\ndef"), decoded("abc\ndef"));
}

#[test]
fn escape_keeps_plain_text() {
    assert_eq!(Literal::escape("abc"), decoded("abc"));
    assert_eq!(Literal::escape(""), decoded(""));
}

#[test]
fn escape_rejects_code_above_unicode_range() {
    assert_eq!(Literal::escape("\\U00110000"), Err(Error::InvalidUnicode(0x110000)));
}

#[test]
fn escape_rejects_surrogate_code() {
    assert_eq!(Literal::escape("ab\\U0000D800cd"), Err(Error::InvalidUnicode(0xD800)));
}

#[test]
fn escape_decodes_every_single_letter_form() {
    assert_eq!(
        Literal::escape("\\\\\\\"\\n\\r\\b\\t\\e"),
        decoded("\\\"\n\r\u{8}\t\u{1b}")
    );
}

#[test]
fn escape_decodes_hex_forms_of_each_width() {
    assert_eq!(Literal::escape("\\x41\\u00e9\\U0001F600"), decoded("A\u{e9}\u{1F600}"));
    assert_eq!(Literal::escape("\\u6D4B\\u8bd5"), decoded("\u{6d4b}\u{8bd5}"));
}

#[test]
fn escape_keeps_non_ascii_text_around_escapes() {
    assert_eq!(Literal::escape("测\\t试"), decoded("测\t试"));
}

#[test]
fn well_formed_escapes_are_recognised() {
    assert!(has_well_formed_escapes("plain"));
    assert!(has_well_formed_escapes("a\\n\\x41\\u00e9\\U0010FFFF"));
    assert!(has_well_formed_escapes("\\U00110000"));
    assert!(!has_well_formed_escapes("\\q"));
    assert!(!has_well_formed_escapes("\\x4"));
    assert!(!has_well_formed_escapes("\\uD800"));
    assert!(!has_well_formed_escapes("ends with \\"));
}

use amd_smi_lib::error::AmdSmiError;
use amd_smi_lib::util::cleanup;
use amd_smi_lib::util::string_from_buffer;
use amd_smi_lib::util::white_space;
use amd_smi_lib::util::StringCleanup;

fn padded(text: &str, capacity: usize) -> Vec<u8> {
    let mut buffer = text.as_bytes().to_vec();
    assert!(buffer.len() < capacity);
    buffer.resize(capacity, 0);
    buffer
}

#[test]
fn padding_is_stripped() {
    assert_eq!(string_from_buffer(&padded("Advanced Micro Devices", 64)), Ok(String::from("Advanced Micro Devices")));
    assert_eq!(string_from_buffer(&padded("abc", 4)), Ok(String::from("abc")));
    assert_eq!(string_from_buffer(&padded("abc", 256)), Ok(String::from("abc")));
}

#[test]
fn white_space_at_both_ends_is_removed() {
    assert_eq!(string_from_buffer(&padded("  abc  ", 16)), Ok(String::from("abc")));
    assert_eq!(string_from_buffer(&padded("\tabc def\r\n", 16)), Ok(String::from("abc def")));
    assert_eq!(string_from_buffer(&padded("a  b", 16)), Ok(String::from("a  b")));
}

#[test]
fn empty_and_blank_buffers_give_empty_text() {
    assert_eq!(string_from_buffer(&[]), Ok(String::new()));
    assert_eq!(string_from_buffer(&[0u8; 38]), Ok(String::new()));
    assert_eq!(string_from_buffer(&padded("   ", 8)), Ok(String::new()));
    assert_eq!(string_from_buffer(b"   "), Ok(String::new()));
}

#[test]
fn text_without_padding_is_kept() {
    assert_eq!(string_from_buffer(b"abc"), Ok(String::from("abc")));
    assert_eq!(string_from_buffer(b" abc "), Ok(String::from("abc")));
}

#[test]
fn padding_goes_before_white_space() {
    // NUL characters inside or at the start stay; those at the end go first,
    // and the white space that they covered goes after them.
    assert_eq!(string_from_buffer(b"abc \0\0"), Ok(String::from("abc")));
    assert_eq!(string_from_buffer(b"a\0b\0"), Ok(String::from("a\0b")));
    assert_eq!(string_from_buffer(b"\0abc"), Ok(String::from("\0abc")));
    assert_eq!(string_from_buffer(b"abc\0 "), Ok(String::from("abc\0")));
    assert_eq!(string_from_buffer(b" \0 abc\0"), Ok(String::from("\0 abc")));
}

#[test]
fn bytes_that_are_not_utf8_are_unexpected_data() {
    assert_eq!(string_from_buffer(&[0xff, 0, 0]), Err(AmdSmiError::AmdsmiStatusUnexpectedData));
    assert_eq!(string_from_buffer(&[b'a', 0x80]), Err(AmdSmiError::AmdsmiStatusUnexpectedData));
    assert_eq!(string_from_buffer(&[0xc3]), Err(AmdSmiError::AmdsmiStatusUnexpectedData));
    assert_eq!(
        string_from_buffer(&[0xed, 0xa0, 0x80]),
        Err(AmdSmiError::AmdsmiStatusUnexpectedData)
    );
    assert_eq!(string_from_buffer(&[0xc0, 0x80]), Err(AmdSmiError::AmdsmiStatusUnexpectedData));
}

#[test]
fn text_of_several_bytes_a_character() {
    let buffer = padded("\u{a0}Gr\u{fc}\u{df}e \u{2003}", 32);
    assert_eq!(string_from_buffer(&buffer), Ok(String::from("Gr\u{fc}\u{df}e")));
    let buffer = padded("\u{3000}\u{65e5}\u{672c}\u{2028}", 32);
    assert_eq!(string_from_buffer(&buffer), Ok(String::from("\u{65e5}\u{672c}")));
    assert_eq!(string_from_buffer("\u{1f600}".as_bytes()), Ok(String::from("\u{1f600}")));
}

#[test]
fn white_space_is_the_unicode_property() {
    for code in 0u32..=0x10FFFF {
        if let Some(c) = char::from_u32(code) {
            assert_eq!(white_space(c), c.is_whitespace(), "U+{:04X}", code);
        }
    }
}

#[test]
fn white_space_table() {
    for c in ['\t', '\n', '\u{b}', '\u{c}', '\r', ' ', '\u{85}', '\u{a0}', '\u{1680}', '\u{2000}', '\u{200a}', '\u{2028}', '\u{2029}', '\u{202f}', '\u{205f}', '\u{3000}'] {
        assert!(white_space(c), "{:?}", c);
    }
    for c in ['\0', '\u{8}', '\u{e}', 'a', '_', '\u{84}', '\u{86}', '\u{180e}', '\u{1fff}', '\u{200b}', '\u{2027}', '\u{202a}', '\u{2060}', '\u{feff}'] {
        assert!(!white_space(c), "{:?}", c);
    }
}

#[test]
fn cleanup_is_strip_then_trim() {
    let inputs = [
        "", "abc", "abc\0", "abc\0\0\0", " abc \0", "\0", "\0\0", " ", " \0 ", "a\0b\0", "\0a",
        "abc \0 \0", "\t x \n\0\0", "\u{a0}x\u{a0}\0", "x\u{1680}", "\u{feff}x\0",
    ];
    for input in inputs {
        let expected = input.trim_end_matches("\0").trim().to_string();
        assert_eq!(cleanup(input), expected, "{:?}", input);
        assert_eq!(input.string_cleanup(), expected, "{:?}", input);
        assert_eq!(String::from(input).string_cleanup(), expected, "{:?}", input);
    }
}

#[test]
fn cleanup_exact_values() {
    assert_eq!(cleanup("  gfx90a \0\0"), "gfx90a");
    assert_eq!("name\0\0\0\0".string_cleanup(), "name");
    assert_eq!(String::from(" name\0").string_cleanup(), "name");
}

#[test]
fn order_of_the_two_steps() {
    // Text that does not end in white space: either order gives the same.
    for text in ["abc", "  abc", "a b", "", "   "] {
        let mut s = String::from(text);
        s.push_str("\0\0\0");
        let strip_then_trim = s.trim_end_matches('\0').trim().to_string();
        let trim_then_strip = s.trim().trim_end_matches('\0').to_string();
        assert_eq!(strip_then_trim, trim_then_strip, "{:?}", text);
        assert_eq!(cleanup(&s), strip_then_trim, "{:?}", text);
    }
    // Text that ends in white space: the orders differ, and the padding goes
    // first.
    let s = "abc \0";
    assert_eq!(s.trim().trim_end_matches('\0'), "abc ");
    assert_eq!(cleanup(s), "abc");
}

#[test]
fn printable_ascii_with_padding() {
    for first in 0x20u8..=0x7e {
        for last in [0x21u8, 0x41, 0x7e] {
            let buffer = vec![first, b'x', last, 0, 0];
            let text = string_from_buffer(&buffer).unwrap();
            assert!(!text.contains('\0'));
            assert_eq!(text, String::from_utf8(vec![first, b'x', last]).unwrap().trim());
        }
    }
}

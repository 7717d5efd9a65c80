//! Numbers in writing and on the wire.

use virtual_print_sink::notation::{
    parse_u16, push_decimal, push_hex_byte, push_hex_bytes, push_signed_decimal, push_zero_padded,
};
use virtual_print_sink::split::{find_in, line_spans, trim_range, trim_text, Fill};
use virtual_print_sink::text::{chars_of, same_text, starts_with, text_of, to_ascii_lowercase};
use virtual_print_sink::wire::{
    copy_range, push16, push32, push_bytes, read16, read32, read_signed, signed_bytes,
    signed_value,
};

#[test]
fn numbers_in_writing() {
    let mut text = String::new();
    push_decimal(&mut text, 0);
    push_decimal(&mut text, 18_446_744_073_709_551_615);
    assert_eq!(text, "018446744073709551615");
    let mut text = String::new();
    push_zero_padded(&mut text, 42, 6);
    push_zero_padded(&mut text, 1_234_567, 6);
    assert_eq!(text, "0000421234567");
    let mut text = String::new();
    push_signed_decimal(&mut text, -2_147_483_648);
    push_signed_decimal(&mut text, 7);
    assert_eq!(text, "-21474836487");
    let mut text = String::new();
    push_hex_byte(&mut text, 0x0a);
    push_hex_bytes(&mut text, &[0xff, 0x10]);
    assert_eq!(text, "0aff10");
}

#[test]
fn numbers_on_the_wire() {
    let mut bytes = Vec::new();
    push16(&mut bytes, 0xabcd);
    push32(&mut bytes, 0x01020304);
    push_bytes(&mut bytes, &[9]);
    assert_eq!(bytes, vec![0xab, 0xcd, 1, 2, 3, 4, 9]);
    assert_eq!(read16(0xab, 0xcd), 0xabcd);
    assert_eq!(read32(1, 2, 3, 4), 0x01020304);
    assert_eq!(signed_bytes(-2), [0xff, 0xff, 0xff, 0xfe]);
    assert_eq!(read_signed(0xff, 0xff, 0xff, 0xfe), -2);
    assert_eq!(signed_value(0x8000_0000), i32::MIN);
    assert_eq!(copy_range(&bytes, 1, 3), vec![0xcd, 1]);
}

#[test]
fn texts_are_cut() {
    let chars = chars_of(" \u{3000}ab c\t");
    assert_eq!(trim_text(&chars, 0), "ab c");
    assert_eq!(trim_text(&chars, 3), "b c");
    assert_eq!(trim_range(&chars_of("_.x._"), 0, Fill::Mark), (2, 3));
    assert_eq!(find_in(&chars, ' ', 1), 4);
    assert_eq!(find_in(&chars, 'z', 0), 7);
    assert_eq!(text_of(&chars, 2, 4), "ab");
    let lines = chars_of("a\r\n\nb\rc");
    assert_eq!(line_spans(&lines), vec![(0, 1), (3, 3), (4, 7)]);
}

#[test]
fn numbers_are_read() {
    assert_eq!(parse_u16("0065535"), Some(65535));
    assert_eq!(parse_u16("+0"), Some(0));
    for text in ["65536", "99999999999999999999", "", "+", "++1", "1 ", "-1", "1\u{661}"] {
        assert_eq!(parse_u16(text), None);
    }
}

#[test]
fn capitals_are_made_small() {
    assert_eq!(to_ascii_lowercase("@AZ[ Ä`z"), "@az[ Ä`z");
}

#[test]
fn texts_are_compared() {
    assert!(same_text("äb", "äb"));
    assert!(!same_text("ab", "abc"));
    assert!(!same_text("ab", "aB"));
    assert!(starts_with(b"abc", b"ab"));
    assert!(starts_with(b"abc", b""));
    assert!(!starts_with(b"ab", b"abc"));
}

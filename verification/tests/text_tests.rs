use procfd::text::copy_of;
use procfd::text::digit_value;
use procfd::text::find_blank;
use procfd::text::find_byte;
use procfd::text::find_line_end;
use procfd::text::find_non_blank;
use procfd::text::parse_decimal;
use procfd::text::parse_hex;
use procfd::text::parse_octal;
use procfd::text::push_decimal;
use procfd::text::push_hex;
use procfd::text::text_of_bytes;
use procfd::text::word_bounds;

#[test]
fn decimal_numbers_are_read() {
    assert_eq!(parse_decimal(b"12345", u64::MAX), Some(12345));
    assert_eq!(parse_decimal(b"0", u64::MAX), Some(0));
    assert_eq!(parse_decimal(b"007", u64::MAX), Some(7));
    assert_eq!(parse_decimal(b"18446744073709551615", u64::MAX), Some(u64::MAX));
}

#[test]
fn decimal_numbers_are_refused() {
    assert_eq!(parse_decimal(b"", u64::MAX), None);
    assert_eq!(parse_decimal(b"12a", u64::MAX), None);
    assert_eq!(parse_decimal(b"+1", u64::MAX), None);
    assert_eq!(parse_decimal(b"-1", u64::MAX), None);
    assert_eq!(parse_decimal(b" 1", u64::MAX), None);
    assert_eq!(parse_decimal(b"1f", u64::MAX), None);
    assert_eq!(parse_decimal(b"18446744073709551616", u64::MAX), None);
    assert_eq!(parse_decimal(b"99999999999999999999999", u64::MAX), None);
}

#[test]
fn the_limit_is_the_largest_number_read() {
    assert_eq!(parse_decimal(b"255", 255), Some(255));
    assert_eq!(parse_decimal(b"256", 255), None);
    assert_eq!(parse_hex(b"ffff", 0xffff), Some(0xffff));
    assert_eq!(parse_hex(b"10000", 0xffff), None);
}

#[test]
fn hexadecimal_numbers_are_read_in_either_case() {
    assert_eq!(parse_hex(b"0A", u64::MAX), Some(10));
    assert_eq!(parse_hex(b"ff", u64::MAX), Some(255));
    assert_eq!(parse_hex(b"FF", u64::MAX), Some(255));
    assert_eq!(parse_hex(b"270F", u64::MAX), Some(9999));
    assert_eq!(parse_hex(b"g", u64::MAX), None);
    assert_eq!(parse_hex(b"", u64::MAX), None);
}

#[test]
fn octal_numbers_are_read() {
    assert_eq!(parse_octal(b"0100002", u64::MAX), Some(0o100002));
    assert_eq!(parse_octal(b"02", u64::MAX), Some(2));
    assert_eq!(parse_octal(b"8", u64::MAX), None);
    assert_eq!(parse_octal(b"1a", u64::MAX), None);
}

#[test]
fn digits_have_their_values() {
    assert_eq!(digit_value(b'0'), Some(0));
    assert_eq!(digit_value(b'9'), Some(9));
    assert_eq!(digit_value(b'a'), Some(10));
    assert_eq!(digit_value(b'F'), Some(15));
    assert_eq!(digit_value(b'g'), None);
    assert_eq!(digit_value(b' '), None);
}

#[test]
fn numbers_are_written_in_decimal() {
    let mut out = String::from("n=");
    push_decimal(&mut out, 0);
    assert_eq!(out, "n=0");
    let mut out = String::new();
    push_decimal(&mut out, 65535);
    assert_eq!(out, "65535");
    let mut out = String::new();
    push_decimal(&mut out, u64::MAX);
    assert_eq!(out, "18446744073709551615");
}

#[test]
fn numbers_are_written_in_hexadecimal() {
    let mut out = String::new();
    push_hex(&mut out, 0);
    assert_eq!(out, "0");
    let mut out = String::new();
    push_hex(&mut out, 255);
    assert_eq!(out, "ff");
    let mut out = String::new();
    push_hex(&mut out, 0xdb8);
    assert_eq!(out, "db8");
    let mut out = String::new();
    push_hex(&mut out, 0x10);
    assert_eq!(out, "10");
}

#[test]
fn words_are_found_between_blanks() {
    let line = b"  ab  cd\te";
    assert_eq!(word_bounds(line, 0), Some((2, 4)));
    assert_eq!(word_bounds(line, 1), Some((6, 8)));
    assert_eq!(word_bounds(line, 2), Some((9, 10)));
    assert_eq!(word_bounds(line, 3), None);
    assert_eq!(word_bounds(b"", 0), None);
    assert_eq!(word_bounds(b"   ", 0), None);
    assert_eq!(word_bounds(b"x", 0), Some((0, 1)));
}

#[test]
fn positions_are_found() {
    assert_eq!(find_non_blank(b"  \tx ", 0), 3);
    assert_eq!(find_non_blank(b"   ", 1), 3);
    assert_eq!(find_blank(b"abc def", 0), 3);
    assert_eq!(find_blank(b"abc", 1), 3);
    assert_eq!(find_byte(b"key: value", b':', 0), 3);
    assert_eq!(find_byte(b"novalue", b':', 0), 7);
    assert_eq!(find_line_end(b"ab\ncd", 0), 2);
    assert_eq!(find_line_end(b"ab\ncd", 3), 5);
}

#[test]
fn a_start_behind_the_end_is_handed_back() {
    assert_eq!(find_non_blank(b"  ", 5), 5);
    assert_eq!(find_blank(b"ab", 3), 3);
    assert_eq!(find_byte(b"a:b", b':', 4), 4);
    assert_eq!(find_line_end(b"", 1), 1);
}

#[test]
fn bytes_become_text() {
    assert_eq!(text_of_bytes(b"[eventfd]"), "[eventfd]");
    assert_eq!(text_of_bytes(b""), "");
    assert_eq!(text_of_bytes(&[0xe9]), "\u{e9}");
    assert_eq!(copy_of(b"abc"), b"abc".to_vec());
}

use portkiller::text::{
    chars_of, parse_i32_range, parse_u16_range, parse_u32_range, string_from_range, u64_string,
};

#[test]
fn numbers_render_in_decimal() {
    assert_eq!(u64_string(0), "0");
    assert_eq!(u64_string(7), "7");
    assert_eq!(u64_string(65535), "65535");
    assert_eq!(u64_string(u64::MAX), "18446744073709551615");
}

#[test]
fn u32_parsing_matches_std() {
    let digits = chars_of("123");
    assert_eq!(parse_u32_range(&digits, 0, 3), Some(123));
    let max = chars_of("4294967295");
    assert_eq!(parse_u32_range(&max, 0, 10), Some(u32::MAX));
    let over = chars_of("4294967296");
    assert_eq!(parse_u32_range(&over, 0, 10), None);
    let padded = chars_of("00012");
    assert_eq!(parse_u32_range(&padded, 0, 5), Some(12));
    let empty = chars_of("");
    assert_eq!(parse_u32_range(&empty, 0, 0), None);
    let mixed = chars_of("12a");
    assert_eq!(parse_u32_range(&mixed, 0, 3), None);
}

#[test]
fn i32_parsing_handles_signs_and_bounds() {
    let min = chars_of("-2147483648");
    assert_eq!(parse_i32_range(&min, 0, 11), Some(i32::MIN));
    let over = chars_of("2147483648");
    assert_eq!(parse_i32_range(&over, 0, 10), None);
    let neg_zero = chars_of("-0");
    assert_eq!(parse_i32_range(&neg_zero, 0, 2), Some(0));
    let bare_minus = chars_of("-");
    assert_eq!(parse_i32_range(&bare_minus, 0, 1), None);
}

#[test]
fn u16_parsing_respects_port_range() {
    let fine = chars_of("65535");
    assert_eq!(parse_u16_range(&fine, 0, 5), Some(65535));
    let over = chars_of("65536");
    assert_eq!(parse_u16_range(&over, 0, 5), None);
}

#[test]
fn substrings_copy_the_selected_characters() {
    let cs = chars_of("hello world");
    assert_eq!(string_from_range(&cs, 0, 5), "hello");
    assert_eq!(string_from_range(&cs, 6, 11), "world");
    assert_eq!(string_from_range(&cs, 3, 3), "");
}

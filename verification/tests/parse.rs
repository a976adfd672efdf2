use escape_time::parse::{parse_dimension, parse_u32, trim_ascii_whitespace};

#[test]
fn parses_plain_decimal_numbers() {
    assert_eq!(parse_u32(b"0"), Some(0));
    assert_eq!(parse_u32(b"123"), Some(123));
    assert_eq!(parse_u32(b"007"), Some(7));
    assert_eq!(parse_u32(b"4294967295"), Some(u32::MAX));
}

#[test]
fn rejects_empty_and_non_digit_input() {
    assert_eq!(parse_u32(b""), None);
    assert_eq!(parse_u32(b"12a"), None);
    assert_eq!(parse_u32(b"-3"), None);
    assert_eq!(parse_u32(b"4.5"), None);
    assert_eq!(parse_u32(b" 12"), None);
}

#[test]
fn rejects_values_past_the_u32_range() {
    assert_eq!(parse_u32(b"4294967296"), None);
    assert_eq!(parse_u32(b"99999999999999999999"), None);
}

#[test]
fn trims_ascii_whitespace_at_both_ends() {
    assert_eq!(trim_ascii_whitespace(b"  a b \n"), b"a b".to_vec());
    assert_eq!(trim_ascii_whitespace(b"\t42\r\n"), b"42".to_vec());
    assert_eq!(trim_ascii_whitespace(b" \t \n"), Vec::<u8>::new());
    assert_eq!(trim_ascii_whitespace(b"x"), b"x".to_vec());
}

#[test]
fn dimension_input_is_trimmed_then_parsed() {
    assert_eq!(parse_dimension(b"  42\r\n"), Some(42));
    assert_eq!(parse_dimension(b"800\n"), Some(800));
    assert_eq!(parse_dimension(b" \t "), None);
    assert_eq!(parse_dimension(b"x1"), None);
    assert_eq!(parse_dimension(b"1 2"), None);
}

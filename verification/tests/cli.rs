use crsgrid::cli::{arg_value, parse_usize, DEFAULT_COLS, DEFAULT_REPEATS, DEFAULT_ROWS};

#[test]
fn parses_plain_decimal() {
    assert_eq!(parse_usize(&b"123".to_vec()), Some(123));
    assert_eq!(parse_usize(&b"0".to_vec()), Some(0));
    assert_eq!(parse_usize(&b"007".to_vec()), Some(7));
}

#[test]
fn parses_largest_value() {
    let text: Vec<u8> = usize::MAX.to_string().into_bytes();
    assert_eq!(parse_usize(&text), Some(usize::MAX));
}

#[test]
fn rejects_empty_text() {
    assert_eq!(parse_usize(&Vec::new()), None);
}

#[test]
fn rejects_non_numeric_text() {
    assert_eq!(parse_usize(&b"abc".to_vec()), None);
    assert_eq!(parse_usize(&b"12a".to_vec()), None);
    assert_eq!(parse_usize(&b"-5".to_vec()), None);
    assert_eq!(parse_usize(&b"1 2".to_vec()), None);
}

#[test]
fn rejects_value_too_large() {
    assert_eq!(parse_usize(&b"99999999999999999999999999999999999999".to_vec()), None);
}

#[test]
fn non_numeric_argument_falls_back_to_default() {
    assert_eq!(arg_value(&b"bogus".to_vec(), DEFAULT_REPEATS), (DEFAULT_REPEATS, true));
    assert_eq!(arg_value(&b"bogus".to_vec(), DEFAULT_ROWS), (DEFAULT_ROWS, true));
    assert_eq!(arg_value(&b"bogus".to_vec(), DEFAULT_COLS), (DEFAULT_COLS, true));
}

#[test]
fn numeric_argument_is_taken_as_given() {
    assert_eq!(arg_value(&b"250".to_vec(), DEFAULT_REPEATS), (250, false));
}

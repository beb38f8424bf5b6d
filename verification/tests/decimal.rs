use lsp_client::decimal::{push_int, read_decimal, write_decimal};

fn int_to_string(n: i64) -> String {
    let mut text = String::new();
    push_int(&mut text, n);
    text
}

#[test]
fn writes_zero_as_one_digit() {
    assert_eq!(write_decimal(0), b"0".to_vec());
}

#[test]
fn writes_numbers_without_leading_zeros() {
    assert_eq!(write_decimal(7), b"7".to_vec());
    assert_eq!(write_decimal(10), b"10".to_vec());
    assert_eq!(write_decimal(158), b"158".to_vec());
    assert_eq!(write_decimal(u64::MAX), b"18446744073709551615".to_vec());
}

#[test]
fn reads_digits() {
    assert_eq!(read_decimal(b"0"), Some(0));
    assert_eq!(read_decimal(b"42"), Some(42));
    assert_eq!(read_decimal(b"007"), Some(7));
}

#[test]
fn reads_the_largest_length() {
    let text = usize::MAX.to_string();
    assert_eq!(read_decimal(text.as_bytes()), Some(usize::MAX));
}

#[test]
fn refuses_what_is_no_number() {
    assert_eq!(read_decimal(b""), None);
    assert_eq!(read_decimal(b"12a"), None);
    assert_eq!(read_decimal(b"-1"), None);
    assert_eq!(read_decimal(b"+1"), None);
    assert_eq!(read_decimal(b" 1"), None);
}

#[test]
fn refuses_a_number_too_large() {
    assert_eq!(read_decimal(b"340282366920938463463374607431768211456"), None);
    let mut text = usize::MAX.to_string();
    text.push('0');
    assert_eq!(read_decimal(text.as_bytes()), None);
}

#[test]
fn reading_what_was_written_gives_the_number() {
    for n in [0usize, 1, 9, 10, 99, 100, 12345, 4294967295] {
        assert_eq!(read_decimal(&write_decimal(n as u64)), Some(n));
    }
}

#[test]
fn integers_as_text() {
    assert_eq!(int_to_string(0), "0");
    assert_eq!(int_to_string(9), "9");
    assert_eq!(int_to_string(-1), "-1");
    assert_eq!(int_to_string(1234567890), "1234567890");
    assert_eq!(int_to_string(i64::MAX), "9223372036854775807");
    assert_eq!(int_to_string(i64::MIN), "-9223372036854775808");
}

#[test]
fn integer_is_appended_to_what_is_there() {
    let mut text = String::from("line ");
    push_int(&mut text, -40);
    assert_eq!(text, "line -40");
}

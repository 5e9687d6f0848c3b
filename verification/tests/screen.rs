use gaminal::screen::{push_bytes, push_decimal, push_signed_decimal, push_text};

#[test]
fn decimal_of_zero_is_one_digit() {
    let mut out = Vec::new();
    push_decimal(&mut out, 0);
    assert_eq!(out, b"0".to_vec());
}

#[test]
fn decimal_has_no_padding() {
    let mut out = Vec::new();
    push_decimal(&mut out, 7);
    out.push(b',');
    push_decimal(&mut out, 10);
    out.push(b',');
    push_decimal(&mut out, 120);
    out.push(b',');
    push_decimal(&mut out, 65535);
    assert_eq!(out, b"7,10,120,65535".to_vec());
}

#[test]
fn decimal_of_the_largest_number() {
    let mut out = Vec::new();
    push_decimal(&mut out, u64::MAX);
    assert_eq!(out, b"18446744073709551615".to_vec());
}

#[test]
fn decimal_appends_to_what_is_there() {
    let mut out = b"n=".to_vec();
    push_decimal(&mut out, 42);
    assert_eq!(out, b"n=42".to_vec());
}

#[test]
fn signed_decimal_puts_a_minus_before_negatives() {
    let mut out = Vec::new();
    push_signed_decimal(&mut out, -5);
    out.push(b' ');
    push_signed_decimal(&mut out, 0);
    out.push(b' ');
    push_signed_decimal(&mut out, 60);
    assert_eq!(out, b"-5 0 60".to_vec());
}

#[test]
fn signed_decimal_of_the_extremes() {
    let mut out = Vec::new();
    push_signed_decimal(&mut out, i32::MIN);
    out.push(b' ');
    push_signed_decimal(&mut out, i32::MAX);
    assert_eq!(out, b"-2147483648 2147483647".to_vec());
}

#[test]
fn bytes_are_appended_as_they_are() {
    let mut out = b"ab".to_vec();
    push_bytes(&mut out, &[0, 255, 27]);
    push_bytes(&mut out, &[]);
    assert_eq!(out, vec![b'a', b'b', 0, 255, 27]);
}

#[test]
fn text_is_appended_as_utf8() {
    let mut out = Vec::new();
    push_text(&mut out, "=\u{1c1}\u{58e} ");
    assert_eq!(out, vec![b'=', 0xc7, 0x81, 0xd6, 0x8e, b' ']);
}

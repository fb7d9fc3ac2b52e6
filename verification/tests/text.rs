use comment_harvester::text::{append_decimal, decimal_text, DIGITS};

#[test]
fn digits_are_the_ten_in_order() {
    assert_eq!(DIGITS, "0123456789");
}

#[test]
fn decimal_text_of_single_digits() {
    for (n, text) in [(0u64, "0"), (1, "1"), (5, "5"), (9, "9")] {
        assert_eq!(decimal_text(n), text);
    }
}

#[test]
fn decimal_text_has_no_leading_zeros() {
    assert_eq!(decimal_text(10), "10");
    assert_eq!(decimal_text(100), "100");
    assert_eq!(decimal_text(1002003), "1002003");
    assert_eq!(decimal_text(9876543210), "9876543210");
}

#[test]
fn decimal_text_of_the_largest_number() {
    assert_eq!(decimal_text(u64::MAX), "18446744073709551615");
    assert_eq!(decimal_text(u32::MAX as u64), "4294967295");
}

#[test]
fn decimal_text_agrees_with_the_standard_notation() {
    for n in (0..5000u64).chain([65535, 65536, 99999, 100000, u64::MAX - 1]) {
        assert_eq!(decimal_text(n), n.to_string());
    }
}

#[test]
fn append_decimal_writes_behind_what_is_there() {
    let mut out = String::from("page ");
    append_decimal(&mut out, 42);
    append_decimal(&mut out, 0);
    assert_eq!(out, "page 420");
}

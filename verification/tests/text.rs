use stable_vfs::text::decimal_text;
use stable_vfs::text::signed_decimal_text;

#[test]
fn numbers_are_written_in_decimal_without_leading_zeros() {
    assert_eq!(decimal_text(0), "0");
    assert_eq!(decimal_text(7), "7");
    assert_eq!(decimal_text(9), "9");
    assert_eq!(decimal_text(10), "10");
    assert_eq!(decimal_text(99), "99");
    assert_eq!(decimal_text(100), "100");
    assert_eq!(decimal_text(1234567890), "1234567890");
    assert_eq!(decimal_text(u64::MAX), "18446744073709551615");
    for n in [0u64, 1, 5, 10, 11, 19, 20, 101, 1000, 65535, 65536, 999999, 1 << 40] {
        assert_eq!(decimal_text(n), n.to_string());
    }
}

#[test]
fn negative_numbers_carry_a_minus_sign() {
    assert_eq!(signed_decimal_text(0), "0");
    assert_eq!(signed_decimal_text(5), "5");
    assert_eq!(signed_decimal_text(-5), "-5");
    assert_eq!(signed_decimal_text(-10), "-10");
    assert_eq!(signed_decimal_text(i64::MAX), "9223372036854775807");
    assert_eq!(signed_decimal_text(i64::MIN), "-9223372036854775808");
    for n in [-1i64, -9, -99, -100, -65536, 42, 1 << 50] {
        assert_eq!(signed_decimal_text(n), n.to_string());
    }
}

use auto_volume::decimal::{is_decimal_digit, push_decimal};

#[test]
fn digits_are_zero_to_nine() {
    for c in "0123456789".chars() {
        assert!(is_decimal_digit(c));
    }
    for c in ['/', ':', '.', ' ', 'a', '٣', '０'] {
        assert!(!is_decimal_digit(c));
    }
}

#[test]
fn push_decimal_appends_the_digits() {
    for n in [0u64, 1, 9, 10, 11, 99, 100, 101, 4096, 1_000_000, u64::MAX] {
        let mut text = String::from("n=");
        push_decimal(&mut text, n);
        assert_eq!(text, format!("n={}", n));
    }
}

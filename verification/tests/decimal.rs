use r2d2wm::decimal::{push_decimal, to_decimal};

#[test]
fn decimal_of_small_and_large_numbers() {
    assert_eq!(to_decimal(0), "0");
    assert_eq!(to_decimal(7), "7");
    assert_eq!(to_decimal(10), "10");
    assert_eq!(to_decimal(705_869_087_292_653_708), "705869087292653708");
    assert_eq!(to_decimal(u64::MAX), u64::MAX.to_string());
}

#[test]
fn decimal_matches_display() {
    for n in [1u64, 9, 99, 100, 1234567890, 18446744073709551614] {
        assert_eq!(to_decimal(n), n.to_string());
    }
}

#[test]
fn push_decimal_appends() {
    let mut s = String::from("id=");
    push_decimal(&mut s, 42);
    assert_eq!(s, "id=42");
}

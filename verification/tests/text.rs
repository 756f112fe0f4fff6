use timing_diagram::text::decimal;

#[test]
fn decimal_of_small_numbers() {
    assert_eq!(decimal(0), "0");
    assert_eq!(decimal(7), "7");
    assert_eq!(decimal(9), "9");
}

#[test]
fn decimal_of_numbers_of_several_digits() {
    assert_eq!(decimal(10), "10");
    assert_eq!(decimal(1234567890), "1234567890");
    assert_eq!(decimal(100), "100");
    assert_eq!(decimal(u64::MAX), "18446744073709551615");
}

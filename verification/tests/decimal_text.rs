use commit_tracker::decimal::decimal_string;

#[test]
fn zero_is_written_as_one_digit() {
    assert_eq!(decimal_string(0), "0");
}

#[test]
fn numbers_are_written_without_leading_zeros() {
    assert_eq!(decimal_string(7), "7");
    assert_eq!(decimal_string(10), "10");
    assert_eq!(decimal_string(18), "18");
    assert_eq!(decimal_string(108), "108");
    assert_eq!(decimal_string(1234567890), "1234567890");
}

#[test]
fn largest_number_is_written_in_full() {
    assert_eq!(decimal_string(u64::MAX), "18446744073709551615");
}

#[test]
fn decimal_agrees_with_the_standard_formatting() {
    let mut n: u64 = 1;
    for _ in 0..64 {
        assert_eq!(decimal_string(n), n.to_string());
        assert_eq!(decimal_string(n - 1), (n - 1).to_string());
        n = n.wrapping_mul(2);
    }
}

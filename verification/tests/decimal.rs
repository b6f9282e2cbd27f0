use ritual_tray::decimal::{i64_to_decimal, push_decimal_digits};

#[test]
fn decimal_of_zero_is_one_digit() {
    assert_eq!(i64_to_decimal(0), "0");
}

#[test]
fn decimal_of_small_numbers() {
    assert_eq!(i64_to_decimal(7), "7");
    assert_eq!(i64_to_decimal(10), "10");
    assert_eq!(i64_to_decimal(-1), "-1");
    assert_eq!(i64_to_decimal(-120), "-120");
    assert_eq!(i64_to_decimal(1_700_000_000_000), "1700000000000");
}

#[test]
fn decimal_of_the_extremes() {
    assert_eq!(i64_to_decimal(i64::MAX), "9223372036854775807");
    assert_eq!(i64_to_decimal(i64::MIN), "-9223372036854775808");
    assert_eq!(i64_to_decimal(i64::MIN + 1), "-9223372036854775807");
}

#[test]
fn decimal_agrees_with_std_around_powers_of_ten() {
    let mut power: i64 = 1;
    for _ in 0..18 {
        for n in [power - 1, power, power + 1, -power - 1, -power, -power + 1] {
            assert_eq!(i64_to_decimal(n), n.to_string());
        }
        power *= 10;
    }
}

#[test]
fn push_decimal_digits_appends() {
    let mut out = String::from("n=");
    push_decimal_digits(&mut out, 0);
    assert_eq!(out, "n=0");
    push_decimal_digits(&mut out, 905);
    assert_eq!(out, "n=0905");
    push_decimal_digits(&mut out, u64::MAX);
    assert_eq!(out, "n=090518446744073709551615");
}

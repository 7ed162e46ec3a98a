use swayws::num::{i32_to_string, i64_to_string, parse_i32, parse_i64, u64_to_string};
use swayws::SwayWsError;

#[test]
fn parse_plain_and_signed() {
    assert_eq!(parse_i32("35"), Ok(35));
    assert_eq!(parse_i32("-42"), Ok(-42));
    assert_eq!(parse_i32("+7"), Ok(7));
    assert_eq!(parse_i32("0"), Ok(0));
}

#[test]
fn parse_accepts_leading_zeros() {
    assert_eq!(parse_i32("007"), Ok(7));
    assert_eq!(parse_i32("-000"), Ok(0));
    assert_eq!(parse_i64("00000000000000000000000000009"), Ok(9));
}

#[test]
fn parse_rejects_malformed_input() {
    assert_eq!(parse_i32(""), Err(SwayWsError::Parse));
    assert_eq!(parse_i32("x"), Err(SwayWsError::Parse));
    assert_eq!(parse_i32("-"), Err(SwayWsError::Parse));
    assert_eq!(parse_i32("+"), Err(SwayWsError::Parse));
    assert_eq!(parse_i32("1 2"), Err(SwayWsError::Parse));
    assert_eq!(parse_i32("3.5"), Err(SwayWsError::Parse));
    assert_eq!(parse_i32(" 3"), Err(SwayWsError::Parse));
}

#[test]
fn parse_i32_boundaries() {
    assert_eq!(parse_i32("2147483647"), Ok(i32::MAX));
    assert_eq!(parse_i32("-2147483648"), Ok(i32::MIN));
    assert_eq!(parse_i32("2147483648"), Err(SwayWsError::Parse));
    assert_eq!(parse_i32("-2147483649"), Err(SwayWsError::Parse));
}

#[test]
fn parse_i64_boundaries() {
    assert_eq!(parse_i64("9223372036854775807"), Ok(i64::MAX));
    assert_eq!(parse_i64("-9223372036854775808"), Ok(i64::MIN));
    assert_eq!(parse_i64("9223372036854775808"), Err(SwayWsError::Parse));
    assert_eq!(parse_i64("-9223372036854775809"), Err(SwayWsError::Parse));
    assert_eq!(
        parse_i64("99999999999999999999999"),
        Err(SwayWsError::Parse)
    );
}

#[test]
fn render_decimal_strings() {
    assert_eq!(u64_to_string(0), "0");
    assert_eq!(u64_to_string(10), "10");
    assert_eq!(u64_to_string(9007), "9007");
    assert_eq!(i32_to_string(-35), "-35");
    assert_eq!(i32_to_string(i32::MIN), "-2147483648");
    assert_eq!(i32_to_string(i32::MAX), "2147483647");
    assert_eq!(i64_to_string(i64::MIN), "-9223372036854775808");
    assert_eq!(i64_to_string(i64::MAX), "9223372036854775807");
}

#[test]
fn parse_inverts_rendering() {
    for n in [-1000, -35, -1, 0, 1, 7, 99, 2147483647, -2147483648] {
        assert_eq!(parse_i32(&i32_to_string(n)), Ok(n));
    }
}

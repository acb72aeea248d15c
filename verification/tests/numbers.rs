use statsd::number::Number;
use statsd::text::{bytes_eq, find_byte, number_to_text, parse_number, push_int, push_nat, push_number, push_str};

fn n(millionths: i64) -> Number {
    Number { millionths }
}

fn text_of(millionths: i64) -> String {
    String::from_utf8(number_to_text(n(millionths))).unwrap()
}

#[test]
fn parse_number_reads_whole_numbers() {
    assert_eq!(parse_number(b"0"), Some(n(0)));
    assert_eq!(parse_number(b"1"), Some(n(1_000_000)));
    assert_eq!(parse_number(b"42"), Some(n(42_000_000)));
    assert_eq!(parse_number(b"007"), Some(n(7_000_000)));
}

#[test]
fn parse_number_reads_fractions() {
    assert_eq!(parse_number(b"3.5"), Some(n(3_500_000)));
    assert_eq!(parse_number(b"0.1"), Some(n(100_000)));
    assert_eq!(parse_number(b"0.000001"), Some(n(1)));
    assert_eq!(parse_number(b"12.345678"), Some(n(12_345_678)));
}

#[test]
fn parse_number_reads_negative_numbers() {
    assert_eq!(parse_number(b"-1"), Some(n(-1_000_000)));
    assert_eq!(parse_number(b"-0.25"), Some(n(-250_000)));
    assert_eq!(parse_number(b"-0"), Some(n(0)));
}

#[test]
fn parse_number_drops_digits_past_the_sixth() {
    assert_eq!(parse_number(b"1.0000009"), Some(n(1_000_000)));
    assert_eq!(parse_number(b"0.1234567"), Some(n(123_456)));
    assert_eq!(parse_number(b"-0.9999999999"), Some(n(-999_999)));
}

#[test]
fn parse_number_rejects_other_shapes() {
    assert_eq!(parse_number(b""), None);
    assert_eq!(parse_number(b"-"), None);
    assert_eq!(parse_number(b".5"), None);
    assert_eq!(parse_number(b"5."), None);
    assert_eq!(parse_number(b"1e3"), None);
    assert_eq!(parse_number(b"+1"), None);
    assert_eq!(parse_number(b"1.2.3"), None);
    assert_eq!(parse_number(b"abc"), None);
    assert_eq!(parse_number(b"1 "), None);
    assert_eq!(parse_number(b"--1"), None);
    assert_eq!(parse_number(b"1.2x"), None);
    assert_eq!(parse_number(b"0.1234567x"), None);
}

#[test]
fn parse_number_keeps_to_the_range() {
    assert_eq!(parse_number(b"9223372036854.775807"), Some(n(i64::MAX)));
    assert_eq!(parse_number(b"-9223372036854.775807"), Some(n(-i64::MAX)));
    assert_eq!(parse_number(b"9223372036854.775808"), None);
    assert_eq!(parse_number(b"9223372036855"), None);
    assert_eq!(parse_number(b"99999999999999999999999999999999999999999"), None);
    assert_eq!(parse_number(b"00000000000000000000000000000000000000001"), Some(n(1_000_000)));
}

#[test]
fn number_text_of_whole_numbers_has_no_fraction() {
    assert_eq!(text_of(0), "0");
    assert_eq!(text_of(2_000_000), "2");
    assert_eq!(text_of(-3_000_000), "-3");
    assert_eq!(text_of(120_000_000), "120");
}

#[test]
fn number_text_trims_trailing_zeros() {
    assert_eq!(text_of(2_500_000), "2.5");
    assert_eq!(text_of(1_000_010), "1.00001");
    assert_eq!(text_of(1), "0.000001");
    assert_eq!(text_of(-1), "-0.000001");
    assert_eq!(text_of(-250_000), "-0.25");
    assert_eq!(text_of(3_333_333), "3.333333");
}

#[test]
fn number_text_of_the_ends_of_the_range() {
    assert_eq!(text_of(i64::MAX), "9223372036854.775807");
    assert_eq!(text_of(i64::MIN), "-9223372036854.775808");
}

#[test]
fn number_text_reads_back() {
    let samples: [i64; 9] = [0, 1, -1, 10, 999_999, 1_000_000, -123_456_789, i64::MAX, -i64::MAX];
    for v in samples {
        assert_eq!(parse_number(&number_to_text(n(v))), Some(n(v)));
    }
}

#[test]
fn push_number_appends() {
    let mut out = b"x=".to_vec();
    push_number(&mut out, n(7_250_000));
    assert_eq!(out, b"x=7.25".to_vec());
}

#[test]
fn push_int_and_nat_write_decimal() {
    let mut out = Vec::new();
    push_int(&mut out, -5);
    push_str(&mut out, " ");
    push_int(&mut out, i64::MIN);
    push_str(&mut out, " ");
    push_int(&mut out, 0);
    push_str(&mut out, " ");
    push_nat(&mut out, u64::MAX);
    assert_eq!(out, b"-5 -9223372036854775808 0 18446744073709551615".to_vec());
}

#[test]
fn saturating_add_stops_at_the_ends() {
    assert_eq!(n(1).saturating_add(n(2)), n(3));
    assert_eq!(n(i64::MAX).saturating_add(n(1)), n(i64::MAX));
    assert_eq!(n(i64::MIN).saturating_add(n(-1)), n(i64::MIN));
    assert_eq!(n(i64::MAX).saturating_add(n(i64::MIN)), n(-1));
}

#[test]
fn saturating_sub_stops_at_the_ends() {
    assert_eq!(n(5).saturating_sub(n(7)), n(-2));
    assert_eq!(n(i64::MIN).saturating_sub(n(1)), n(i64::MIN));
    assert_eq!(n(i64::MAX).saturating_sub(n(-1)), n(i64::MAX));
}

#[test]
fn divided_by_rounds_toward_zero() {
    assert_eq!(n(1_000_000).divided_by(n(100_000)), n(10_000_000));
    assert_eq!(n(1_000_000).divided_by(n(300_000)), n(3_333_333));
    assert_eq!(n(-1_000_000).divided_by(n(300_000)), n(-3_333_333));
    assert_eq!(n(5_000_000).divided_by(n(500_000)), n(10_000_000));
}

#[test]
fn divided_by_one_is_exact() {
    for v in [0, 1, -1, 123_456_789, i64::MAX, i64::MIN] {
        assert_eq!(n(v).divided_by(Number::one()), n(v));
    }
}

#[test]
fn divided_by_saturates() {
    assert_eq!(n(i64::MAX).divided_by(n(1)), n(i64::MAX));
    assert_eq!(n(i64::MIN).divided_by(n(1)), n(i64::MIN));
    assert_eq!(n(i64::MAX).divided_by(n(500_000)), n(i64::MAX));
}

#[test]
fn divided_by_count_rounds_toward_zero() {
    assert_eq!(n(10_000_000).divided_by_count(4), n(2_500_000));
    assert_eq!(n(-7).divided_by_count(2), n(-3));
    assert_eq!(n(7).divided_by_count(2), n(3));
    assert_eq!(n(i64::MIN).divided_by_count(1), n(i64::MIN));
}

#[test]
fn zero_and_one() {
    assert_eq!(Number::zero(), n(0));
    assert_eq!(Number::one(), n(1_000_000));
}

#[test]
fn find_byte_gives_first_place_or_length() {
    assert_eq!(find_byte(b"a:b:c", b':'), 1);
    assert_eq!(find_byte(b":", b':'), 0);
    assert_eq!(find_byte(b"abc", b':'), 3);
    assert_eq!(find_byte(b"", b':'), 0);
}

#[test]
fn bytes_eq_compares_contents() {
    assert!(bytes_eq(b"stats", b"stats"));
    assert!(bytes_eq(b"", b""));
    assert!(!bytes_eq(b"stats", b"stat"));
    assert!(!bytes_eq(b"stats", b"statz"));
}

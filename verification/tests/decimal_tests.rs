use quakeml::decimal::{parse_decimal, parse_i32, Decimal};

fn dec(negative: bool, int_part: u64, frac: &[u8]) -> Decimal {
    Decimal { negative, int_part, frac: frac.to_vec() }
}

#[test]
fn parse_plain_decimal() {
    assert_eq!(parse_decimal("4.2"), Some(dec(false, 4, &[2])));
    assert_eq!(parse_decimal("0"), Some(dec(false, 0, &[])));
    assert_eq!(parse_decimal("-117.761"), Some(dec(true, 117, &[7, 6, 1])));
    assert_eq!(parse_decimal("+5."), Some(dec(false, 5, &[])));
    assert_eq!(parse_decimal(".5"), Some(dec(false, 0, &[5])));
    assert_eq!(parse_decimal("007"), Some(dec(false, 7, &[])));
}

#[test]
fn parse_normalizes() {
    // Trailing fraction zeros are dropped and negative zero becomes zero.
    assert_eq!(parse_decimal("4.20"), Some(dec(false, 4, &[2])));
    assert_eq!(parse_decimal("4.200"), parse_decimal("4.2"));
    assert_eq!(parse_decimal("-0.0"), Some(dec(false, 0, &[])));
    assert_eq!(parse_decimal("-0"), Some(dec(false, 0, &[])));
}

#[test]
fn parse_rejects_non_finite_and_malformed() {
    assert_eq!(parse_decimal(""), None);
    assert_eq!(parse_decimal("-"), None);
    assert_eq!(parse_decimal("."), None);
    assert_eq!(parse_decimal("NaN"), None);
    assert_eq!(parse_decimal("inf"), None);
    assert_eq!(parse_decimal("Infinity"), None);
    assert_eq!(parse_decimal("1e5"), None);
    assert_eq!(parse_decimal("4.2.3"), None);
    assert_eq!(parse_decimal(" 4.2"), None);
    assert_eq!(parse_decimal("4.2 "), None);
    // The integer part must fit in a u64.
    assert_eq!(parse_decimal("18446744073709551615"), Some(dec(false, u64::MAX, &[])));
    assert_eq!(parse_decimal("18446744073709551616"), None);
}

#[test]
fn decimal_order() {
    let cases = [
        ("3.0", "5.0", true),
        ("5.0", "3.0", false),
        ("4.2", "4.2", false),
        ("0.1", "0.101", true),
        ("0.101", "0.1", false),
        ("-1", "0", true),
        ("-2.5", "-2.4", true),
        ("-2.4", "-2.5", false),
        ("-0", "0", false),
        ("9.99", "10", true),
    ];
    for (a, b, expect) in cases {
        let da = parse_decimal(a).unwrap();
        let db = parse_decimal(b).unwrap();
        assert_eq!(da.lt(&db), expect, "{} < {}", a, b);
    }
}

#[test]
fn parse_integer() {
    assert_eq!(parse_i32("0"), Some(0));
    assert_eq!(parse_i32("42"), Some(42));
    assert_eq!(parse_i32("-42"), Some(-42));
    assert_eq!(parse_i32("+7"), Some(7));
    assert_eq!(parse_i32("2147483647"), Some(i32::MAX));
    assert_eq!(parse_i32("2147483648"), None);
    assert_eq!(parse_i32("-2147483648"), Some(i32::MIN));
    assert_eq!(parse_i32("-2147483649"), None);
    assert_eq!(parse_i32(""), None);
    assert_eq!(parse_i32("4.2"), None);
    assert_eq!(parse_i32("x"), None);
}

use error_handling::decimal::{parse_numeral, parse_numeral_chars, render_decimal};

#[test]
fn render_decimal_writes_base_ten() {
    assert_eq!(render_decimal(0), "0");
    assert_eq!(render_decimal(7), "7");
    assert_eq!(render_decimal(10), "10");
    assert_eq!(render_decimal(20210225), "20210225");
    assert_eq!(render_decimal(1234567890), "1234567890");
    assert_eq!(render_decimal(usize::MAX), format!("{}", usize::MAX));
}

#[test]
fn render_decimal_agrees_with_the_standard_library() {
    let mut n: usize = 1;
    for _ in 0..60 {
        assert_eq!(render_decimal(n), n.to_string());
        assert_eq!(render_decimal(n - 1), (n - 1).to_string());
        n = n.wrapping_mul(3).wrapping_add(1) % 4_000_000_000;
        n = n.max(1);
    }
}

#[test]
fn parse_numeral_reads_digits() {
    assert_eq!(parse_numeral("0"), Some(0));
    assert_eq!(parse_numeral("85"), Some(85));
    assert_eq!(parse_numeral("007"), Some(7));
    assert_eq!(parse_numeral("20210225"), Some(20210225));
}

#[test]
fn parse_numeral_takes_a_leading_plus() {
    assert_eq!(parse_numeral("+85"), Some(85));
    assert_eq!(parse_numeral("+"), None);
    assert_eq!(parse_numeral("++1"), None);
    assert_eq!(parse_numeral("1+"), None);
}

#[test]
fn parse_numeral_rejects_what_is_no_numeral() {
    assert_eq!(parse_numeral(""), None);
    assert_eq!(parse_numeral(" 1"), None);
    assert_eq!(parse_numeral("1 "), None);
    assert_eq!(parse_numeral("-1"), None);
    assert_eq!(parse_numeral("8a"), None);
    assert_eq!(parse_numeral("a8"), None);
    assert_eq!(parse_numeral("1.5"), None);
    assert_eq!(parse_numeral("\u{663}"), None);
}

#[test]
fn parse_numeral_stops_at_what_fits() {
    let max = u128::MAX.to_string();
    assert_eq!(parse_numeral(&max), Some(u128::MAX));
    assert_eq!(parse_numeral(&format!("000{}", max)), Some(u128::MAX));
    // one more than the greatest
    assert_eq!(parse_numeral("340282366920938463463374607431768211456"), None);
    // ten times the greatest
    assert_eq!(parse_numeral(&format!("{}0", max)), None);
}

#[test]
fn parse_numeral_reads_back_what_render_decimal_wrote() {
    for n in [0usize, 1, 9, 10, 99, 100, 12345, usize::MAX] {
        assert_eq!(parse_numeral(&render_decimal(n)), Some(n as u128));
    }
}

#[test]
fn parse_numeral_chars_reads_a_slice() {
    assert_eq!(parse_numeral_chars(&['4', '2']), Some(42));
    assert_eq!(parse_numeral_chars(&['+', '4', '2']), Some(42));
    assert_eq!(parse_numeral_chars(&[]), None);
    assert_eq!(parse_numeral_chars(&['4', 'x']), None);
}

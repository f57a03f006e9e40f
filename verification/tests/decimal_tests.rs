use domain_expiry::decimal::{parse_u64, render_i64};

#[test]
fn parse_u64_reads_digits() {
    assert_eq!(parse_u64("0"), Some(0));
    assert_eq!(parse_u64("7"), Some(7));
    assert_eq!(parse_u64("86400"), Some(86400));
    assert_eq!(parse_u64("0010"), Some(10));
    assert_eq!(parse_u64("+5"), Some(5));
    assert_eq!(parse_u64("18446744073709551615"), Some(u64::MAX));
    assert_eq!(parse_u64("+18446744073709551615"), Some(u64::MAX));
    assert_eq!(parse_u64("00000000000000000000000000001"), Some(1));
}

#[test]
fn parse_u64_refuses_everything_else() {
    assert_eq!(parse_u64(""), None);
    assert_eq!(parse_u64("+"), None);
    assert_eq!(parse_u64("-"), None);
    assert_eq!(parse_u64("-5"), None);
    assert_eq!(parse_u64("++5"), None);
    assert_eq!(parse_u64("5+"), None);
    assert_eq!(parse_u64(" 5"), None);
    assert_eq!(parse_u64("5 "), None);
    assert_eq!(parse_u64("5s"), None);
    assert_eq!(parse_u64("1_000"), None);
    assert_eq!(parse_u64("1.0"), None);
    assert_eq!(parse_u64("0x10"), None);
    assert_eq!(parse_u64("٣"), None);
    assert_eq!(parse_u64("１"), None);
}

#[test]
fn parse_u64_refuses_what_does_not_fit() {
    assert_eq!(parse_u64("18446744073709551616"), None);
    assert_eq!(parse_u64("18446744073709551620"), None);
    assert_eq!(parse_u64("99999999999999999999"), None);
    assert_eq!(parse_u64("184467440737095516150"), None);
    assert_eq!(parse_u64("18446744073709551616x"), None);
}

#[test]
fn parse_u64_agrees_with_std() {
    for text in [
        "", "0", "1", "+1", "-1", "+", "-", "+0", "-0", "12a", "a12", "007", "4294967296",
        "18446744073709551614", "18446744073709551615", "18446744073709551616",
        "28446744073709551615", "+18446744073709551616", " 1", "1 ", "1\n", "+-1", "1e3",
    ] {
        assert_eq!(parse_u64(text), text.parse::<u64>().ok(), "{:?}", text);
    }
}

#[test]
fn render_i64_writes_digits() {
    assert_eq!(render_i64(0), "0");
    assert_eq!(render_i64(1), "1");
    assert_eq!(render_i64(9), "9");
    assert_eq!(render_i64(10), "10");
    assert_eq!(render_i64(365), "365");
    assert_eq!(render_i64(1000), "1000");
    assert_eq!(render_i64(-1), "-1");
    assert_eq!(render_i64(-10), "-10");
    assert_eq!(render_i64(-12345), "-12345");
    assert_eq!(render_i64(i64::MAX), "9223372036854775807");
    assert_eq!(render_i64(i64::MIN), "-9223372036854775808");
}

#[test]
fn render_i64_agrees_with_std() {
    let mut n: i64 = 1;
    let mut step = 0;
    while step < 62 {
        for m in [n, -n, n - 1, -(n - 1), n + 1, -(n + 1)] {
            assert_eq!(render_i64(m), m.to_string());
        }
        n *= 2;
        step += 1;
    }
    let mut p: i64 = 1;
    let mut k = 0;
    while k < 18 {
        for m in [p, -p, p - 1, -(p - 1), p * 9, -(p * 9)] {
            assert_eq!(render_i64(m), m.to_string());
        }
        p *= 10;
        k += 1;
    }
}

#[test]
fn what_is_written_is_read_back() {
    for n in [0u64, 1, 9, 10, 99, 100, 86400, 4294967295, i64::MAX as u64] {
        assert_eq!(parse_u64(&render_i64(n as i64)), Some(n));
    }
}

use huawei_metrics::decimal::{parse_u64, render_u64};

#[test]
fn parse_u64_reads_digits_only() {
    assert_eq!(parse_u64("0"), Some(0));
    assert_eq!(parse_u64("0042"), Some(42));
    assert_eq!(parse_u64("18446744073709551615"), Some(u64::MAX));
    assert_eq!(parse_u64("18446744073709551616"), None);
    assert_eq!(parse_u64("184467440737095516150"), None);
    assert_eq!(parse_u64(""), None);
    assert_eq!(parse_u64("+1"), None);
    assert_eq!(parse_u64("-1"), None);
    assert_eq!(parse_u64("1 "), None);
    assert_eq!(parse_u64("1_000"), None);
    assert_eq!(parse_u64("\u{0661}"), None);
}

#[test]
fn render_u64_is_canonical() {
    assert_eq!(render_u64(0), "0");
    assert_eq!(render_u64(9), "9");
    assert_eq!(render_u64(10), "10");
    assert_eq!(render_u64(1501), "1501");
    assert_eq!(render_u64(u64::MAX), "18446744073709551615");
}

#[test]
fn render_then_parse_is_the_identity() {
    for n in [0u64, 1, 9, 10, 99, 100, 12345, 1 << 40, u64::MAX - 1, u64::MAX] {
        assert_eq!(parse_u64(&render_u64(n)), Some(n));
        assert_eq!(render_u64(n), n.to_string());
    }
}

use huawei_metrics::text::{
    contains, ends_with, find_char, from_chars, join, matches_at, str_eq, to_ascii_lowercase,
    to_chars,
};

#[test]
fn to_chars_and_back() {
    let v = to_chars("a\u{00e9}\u{4e2d}z");
    assert_eq!(v, vec!['a', '\u{00e9}', '\u{4e2d}', 'z']);
    assert_eq!(from_chars(&v, 0, 4), "a\u{00e9}\u{4e2d}z");
    assert_eq!(from_chars(&v, 1, 3), "\u{00e9}\u{4e2d}");
    assert_eq!(from_chars(&v, 2, 2), "");
    assert_eq!(to_chars(""), Vec::<char>::new());
}

#[test]
fn str_eq_compares_characters() {
    assert!(str_eq("", ""));
    assert!(str_eq("Mbps", "Mbps"));
    assert!(!str_eq("Mbps", "mbps"));
    assert!(!str_eq("Mbps", "Mbp"));
    assert!(!str_eq("Mbp", "Mbps"));
}

#[test]
fn ends_with_agrees_with_std() {
    let cases = [
        ("123.4Mbps", "Mbps"),
        ("123.4Kbps", "Mbps"),
        ("B", "KB"),
        ("KB", "B"),
        ("", ""),
        ("abc", ""),
        ("", "a"),
        ("\u{00e9}B", "B"),
        ("x\u{00e9}", "\u{00e9}"),
    ];
    for (s, suffix) in cases {
        assert_eq!(ends_with(s, suffix), s.ends_with(suffix), "{:?} {:?}", s, suffix);
    }
}

#[test]
fn contains_agrees_with_std() {
    let cases = [
        ("color: red; display: none;", "display: none;"),
        ("display: none", "display: none;"),
        ("device_icon device_offline", "device_offline"),
        ("device_icon", "device_offline"),
        ("dev-table-ip hide", "hide"),
        ("hid", "hide"),
        ("", ""),
        ("abc", ""),
        ("", "a"),
        ("aab", "ab"),
        ("\u{00e9}hide\u{00e9}", "hide"),
    ];
    for (hay, needle) in cases {
        assert_eq!(contains(hay, needle), hay.contains(needle), "{:?} {:?}", hay, needle);
    }
}

#[test]
fn matches_at_checks_one_offset() {
    let hay = to_chars("abcabc");
    let needle = to_chars("bc");
    assert!(!matches_at(&hay, 0, &needle));
    assert!(matches_at(&hay, 1, &needle));
    assert!(matches_at(&hay, 4, &needle));
    assert!(!matches_at(&hay, 5, &needle));
    assert!(!matches_at(&hay, 7, &needle));
    assert!(matches_at(&hay, 6, &to_chars("")));
}

#[test]
fn find_char_gives_the_first_index() {
    assert_eq!(find_char(&to_chars("deviceinformation.softwareVersion"), '.'), 17);
    assert_eq!(find_char(&to_chars("a.b.c"), '.'), 1);
    assert_eq!(find_char(&to_chars(".x"), '.'), 0);
    assert_eq!(find_char(&to_chars("none"), '.'), 4);
    assert_eq!(find_char(&to_chars(""), '.'), 0);
}

#[test]
fn join_puts_nothing_between() {
    assert_eq!(join(&vec![]), "");
    assert_eq!(join(&vec!["12".to_string()]), "12");
    assert_eq!(join(&vec!["12".to_string(), "".to_string(), "MB".to_string()]), "12MB");
}

#[test]
fn to_ascii_lowercase_agrees_with_std() {
    for s in ["", "SoftwareVersion", "dBm", "MBPS", "a_B-9", "\u{00c9}T\u{00c9}", "@[`{AZaz"] {
        assert_eq!(to_ascii_lowercase(s), s.to_ascii_lowercase(), "{:?}", s);
    }
}

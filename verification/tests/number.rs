use huawei_metrics::number::is_float;

#[test]
fn is_float_accepts_the_grammar() {
    for s in [
        "3.14", "-3.14", "2.5E10", "2.5e10", "2.5E-10", "5.", ".5", "0.5", "7", "007", "inf",
        "-inf", "+infinity", "NaN", "nan", "INF", "Infinity", "+.5e+3", "1e0", "0", "-0", "123.4",
        "2048", "1.e5", "+nan", "-NAN",
    ] {
        assert!(is_float(s), "{:?}", s);
    }
}

#[test]
fn is_float_rejects_everything_else() {
    for s in [
        "", "+", "-", ".", "e5", "1e", "1e+", "1e-", "1.2.3", "1,5", " 1", "1 ", "1 2", "--1",
        "+-1", "in", "infinit", "infinityy", "na", "nanx", "1f", "0x10", "1_000", "12 M", "5d",
        "5K", "1e5.0", "1ee5", ".e5", "+.", "\u{0661}", "1\u{00a0}",
    ] {
        assert!(!is_float(s), "{:?}", s);
    }
}

#[test]
fn is_float_agrees_with_the_float_parser_of_std() {
    let alphabet = ['0', '7', '.', 'e', 'E', '+', '-', 'i', 'n', 'f', 'a', ' '];
    let mut count = 0u32;
    for a in alphabet {
        for b in alphabet {
            for c in alphabet {
                for d in alphabet {
                    let mut s = String::new();
                    s.push(a);
                    s.push(b);
                    s.push(c);
                    s.push(d);
                    for len in 0..=4 {
                        let t = &s[..len];
                        assert_eq!(is_float(t), t.parse::<f64>().is_ok(), "{:?}", t);
                        count += 1;
                    }
                }
            }
        }
    }
    assert!(count > 100_000);
    for t in ["infinity", "-Infinity", "+INFINITY", "infinit", "1.5e-300", "NaN", "nane"] {
        assert_eq!(is_float(t), t.parse::<f64>().is_ok(), "{:?}", t);
    }
}

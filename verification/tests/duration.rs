use huawei_metrics::duration::MinuteCounter;

#[test]
fn minute_counter() {
    let stable = [
        "0 day 0 hour 0 minute",
        "1 day 1 hour 1 minute",
        "100 day 23 hour 59 minute",
    ];

    for example in stable {
        assert_eq!(
            example,
            MinuteCounter::try_from_str(example, false)
                .expect("Failed to parse")
                .interface_repr()
        );
    }
}

#[test]
fn correcting_errors() {
    let stable = [("1 day 25 hour 0 minute", 2 * 24 * 60 + 60)];

    for example in stable {
        assert_ne!(
            example.0,
            MinuteCounter::try_from_str(example.0, false)
                .expect("Failed to parse")
                .interface_repr()
        );
        assert_eq!(
            MinuteCounter::try_from_str(example.0, false)
                .expect("Failed to parse")
                .minutes,
            example.1
        );
    }
}

#[test]
fn round_trip_example() {
    let counter = MinuteCounter::try_from_str("1 day 1 hour 1 minute", false).unwrap();
    assert_eq!(counter, MinuteCounter { countdown: false, minutes: 1501 });
    assert_eq!(counter.interface_repr(), "1 day 1 hour 1 minute");
}

#[test]
fn out_of_range_hours_are_normalised() {
    let counter = MinuteCounter::try_from_str("1 day 25 hour 0 minute", false).unwrap();
    assert_eq!(counter.minutes, 2940);
    assert_eq!(counter.interface_repr(), "2 day 1 hour 0 minute");
    let again = MinuteCounter::try_from_str(&counter.interface_repr(), false).unwrap();
    assert_eq!(again, counter);
}

#[test]
fn countdown_flag_is_kept() {
    let up = MinuteCounter::try_from_str("0 day 2 hour 5 minute", false).unwrap();
    let down = MinuteCounter::try_from_str("0 day 2 hour 5 minute", true).unwrap();
    assert_eq!(up, MinuteCounter { countdown: false, minutes: 125 });
    assert_eq!(down, MinuteCounter { countdown: true, minutes: 125 });
}

#[test]
fn pattern_is_found_inside_a_text() {
    let counter = MinuteCounter::try_from_str("up for 3 day 4 hour 5 minute now", false);
    assert_eq!(counter, Some(MinuteCounter { countdown: false, minutes: 3 * 1440 + 4 * 60 + 5 }));
}

#[test]
fn texts_without_the_pattern_give_nothing() {
    for text in [
        "",
        "1 day",
        "1 day 2 hour",
        "1 day 2 hour 3 minutes ago".get(..17).unwrap(),
        "1 days 2 hours 3 minutes",
        "-1 day x hour 3 minute",
        "1.5 day 2.5 hour",
        "day hour minute",
        "1 day  2 hour 3 minute",
    ] {
        assert_eq!(MinuteCounter::try_from_str(text, false), None, "{:?}", text);
    }
}

#[test]
fn a_negative_or_fractional_day_count_gives_nothing() {
    assert_eq!(MinuteCounter::try_from_str("-1 day 0 hour 3 minute", true), None);
    assert_eq!(MinuteCounter::try_from_str("1.5 day 2 hour 3 minute", false), None);
    assert_eq!(MinuteCounter::try_from_str(".5 day 2 hour 3 minute", false), None);
    assert_eq!(MinuteCounter::try_from_str("up -12 day 2 hour 3 minute", false), None);
    assert_eq!(MinuteCounter::try_from_str("v1.5 day 2 hour 3 minute now", true), None);
    assert_eq!(
        MinuteCounter::try_from_str("1.5 day 2 hour 3 minute, 4 day 5 hour 6 minute", false),
        None
    );
}

#[test]
fn a_point_or_a_sign_further_off_does_no_harm() {
    let expected = Some(MinuteCounter { countdown: false, minutes: 5 * 1440 + 2 * 60 + 3 });
    assert_eq!(MinuteCounter::try_from_str("1. 5 day 2 hour 3 minute", false), expected);
    assert_eq!(MinuteCounter::try_from_str("- 5 day 2 hour 3 minute", false), expected);
    assert_eq!(MinuteCounter::try_from_str("v1.0: 5 day 2 hour 3 minute", false), expected);
    assert_eq!(MinuteCounter::try_from_str("+5 day 2 hour 3 minute", false), expected);
    assert_eq!(MinuteCounter::try_from_str("\u{00e9}5 day 2 hour 3 minute", false), expected);
    assert_eq!(MinuteCounter::try_from_str("5 day 2 hour 3 minute.", false), expected);
    assert_eq!(MinuteCounter::try_from_str("5 day 2 hour 3 minute-", false), expected);
}

#[test]
fn numbers_that_do_not_fit_give_nothing() {
    assert_eq!(MinuteCounter::try_from_str("99999999999999999999 day 0 hour 0 minute", false), None);
    assert_eq!(MinuteCounter::try_from_str("0 day 0 hour 18446744073709551616 minute", false), None);
    assert_eq!(MinuteCounter::try_from_str("12810238940076078 day 0 hour 0 minute", false), None);
    assert_eq!(
        MinuteCounter::try_from_str("12810238940076077 day 12 hour 15 minute", false),
        Some(MinuteCounter { countdown: false, minutes: u64::MAX })
    );
    assert_eq!(MinuteCounter::try_from_str("12810238940076077 day 12 hour 16 minute", false), None);
    assert_eq!(
        MinuteCounter::try_from_str("0 day 0 hour 18446744073709551615 minute", false),
        Some(MinuteCounter { countdown: false, minutes: u64::MAX })
    );
    assert_eq!(MinuteCounter::try_from_str("0 day 1 hour 18446744073709551615 minute", false), None);
}

#[test]
fn digits_outside_ascii_give_nothing() {
    assert_eq!(MinuteCounter::try_from_str("\u{0663} day 1 hour 1 minute", false), None);
}

#[test]
fn from_groups_reads_three_numerals() {
    assert_eq!(
        MinuteCounter::from_groups("2", "3", "4", false),
        Some(MinuteCounter { countdown: false, minutes: 2 * 1440 + 3 * 60 + 4 })
    );
    assert_eq!(
        MinuteCounter::from_groups("007", "00", "0", true),
        Some(MinuteCounter { countdown: true, minutes: 7 * 1440 })
    );
    assert_eq!(MinuteCounter::from_groups("", "3", "4", false), None);
    assert_eq!(MinuteCounter::from_groups("2", "+3", "4", false), None);
    assert_eq!(MinuteCounter::from_groups("2", "3", "4 ", false), None);
    assert_eq!(MinuteCounter::from_groups("2", "3", "x", false), None);
}

#[test]
fn from_captures_follows_the_search() {
    assert_eq!(MinuteCounter::from_captures(None, false), None);
    let found = |before: &str| {
        Some((before.to_string(), "1".to_string(), "1".to_string(), "1".to_string()))
    };
    let expected = Some(MinuteCounter { countdown: true, minutes: 1501 });
    assert_eq!(MinuteCounter::from_captures(found(""), true), expected);
    assert_eq!(MinuteCounter::from_captures(found("up for "), true), expected);
    assert_eq!(MinuteCounter::from_captures(found("1. "), true), expected);
    assert_eq!(MinuteCounter::from_captures(found("-x"), true), expected);
    assert_eq!(MinuteCounter::from_captures(found("+"), true), expected);
    assert_eq!(MinuteCounter::from_captures(found("1."), true), None);
    assert_eq!(MinuteCounter::from_captures(found("."), true), None);
    assert_eq!(MinuteCounter::from_captures(found("-"), true), None);
    assert_eq!(MinuteCounter::from_captures(found("up -"), true), None);
    let bad = Some(("".to_string(), "1".to_string(), "x".to_string(), "1".to_string()));
    assert_eq!(MinuteCounter::from_captures(bad, true), None);
}

#[test]
fn interface_repr_splits_minutes() {
    let text = MinuteCounter { countdown: false, minutes: 0 }.interface_repr();
    assert_eq!(text, "0 day 0 hour 0 minute");
    let text = MinuteCounter { countdown: true, minutes: 1439 }.interface_repr();
    assert_eq!(text, "0 day 23 hour 59 minute");
    let text = MinuteCounter { countdown: false, minutes: u64::MAX }.interface_repr();
    assert_eq!(text, "12810238940076077 day 12 hour 15 minute");
}

#[test]
fn phrase_and_counter_agree_on_many_values() {
    let mut minutes: u64 = 0;
    while minutes < 5000 {
        let counter = MinuteCounter { countdown: false, minutes };
        let text = counter.interface_repr();
        assert_eq!(MinuteCounter::try_from_str(&text, false), Some(counter));
        minutes += 7;
    }
}

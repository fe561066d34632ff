use huawei_metrics::units::{candidate, parse_reading, try_parse, Parsed, CANDIDATES};

fn parsed(number: &str, divisor: u64, unit: &str) -> Parsed {
    Parsed { number: number.to_string(), divisor, unit: unit.to_string() }
}

#[test]
fn try_parse_reads_a_number_before_the_unit() {
    assert_eq!(try_parse("123.4Mbps", "Mbps"), Some(parsed("123.4", 1, "Mbps")));
    assert_eq!(try_parse("123.4Kbps", "Mbps"), None);
}

#[test]
fn try_parse_gives_the_number_that_std_reads() {
    let p = try_parse("123.4Mbps", "Mbps").unwrap();
    assert_eq!(p.number.parse::<f64>().unwrap() / p.divisor as f64, 123.4);
    assert_eq!(p.unit, "Mbps");
}

#[test]
fn try_parse_needs_the_exact_tail() {
    assert_eq!(try_parse("12MB", "KB"), None);
    assert_eq!(try_parse("12mb", "MB"), None);
    assert_eq!(try_parse("12MB ", "MB"), None);
    assert_eq!(try_parse("MB", "12MB"), None);
    assert_eq!(try_parse("12", ""), Some(parsed("12", 1, "")));
}

#[test]
fn try_parse_needs_a_number() {
    assert_eq!(try_parse("MB", "MB"), None);
    assert_eq!(try_parse("12 MB", "MB"), None);
    assert_eq!(try_parse(" 12MB", "MB"), None);
    assert_eq!(try_parse("1,5MB", "MB"), None);
    assert_eq!(try_parse("abcMB", "MB"), None);
    assert_eq!(try_parse("-70dBm", "dBm"), Some(parsed("-70", 1, "dBm")));
    assert_eq!(try_parse("1e3B", "B"), Some(parsed("1e3", 1, "B")));
    assert_eq!(try_parse("infGB", "GB"), Some(parsed("inf", 1, "GB")));
}

#[test]
fn candidates_stand_in_their_order() {
    let units: Vec<&str> = (0..CANDIDATES).map(candidate).collect();
    assert_eq!(units, vec!["dB", "dBm", "GB", "MB", "KB", "Gbps", "Mbps", "Kbps", "B"]);
}

#[test]
fn kbps_becomes_mbps() {
    let p = parse_reading("2048Kbps").unwrap();
    assert_eq!(p, parsed("2048", 1024, "Mbps"));
    assert_eq!(p.number.parse::<f64>().unwrap() / p.divisor as f64, 2.0);
    assert_eq!(parse_reading("1.5Kbps"), Some(parsed("1.5", 1024, "Mbps")));
}

#[test]
fn parse_reading_takes_the_first_unit_that_fits() {
    assert_eq!(parse_reading("-12dB"), Some(parsed("-12", 1, "dB")));
    assert_eq!(parse_reading("-70dBm"), Some(parsed("-70", 1, "dBm")));
    assert_eq!(parse_reading("1.25GB"), Some(parsed("1.25", 1, "GB")));
    assert_eq!(parse_reading("300MB"), Some(parsed("300", 1, "MB")));
    assert_eq!(parse_reading("17KB"), Some(parsed("17", 1, "KB")));
    assert_eq!(parse_reading("1Gbps"), Some(parsed("1", 1, "Gbps")));
    assert_eq!(parse_reading("123.4Mbps"), Some(parsed("123.4", 1, "Mbps")));
    assert_eq!(parse_reading("512B"), Some(parsed("512", 1, "B")));
}

#[test]
fn parse_reading_gives_nothing_without_a_unit() {
    for raw in ["", "12", "11.0.1.2(H200SP3C9831)", "12 MB", "MB", "12Bps", "12bps", "5 GHz", "12TB"] {
        assert_eq!(parse_reading(raw), None, "{:?}", raw);
    }
}

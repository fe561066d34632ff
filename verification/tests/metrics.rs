use huawei_metrics::devices::{ConnectionType, Device, DeviceOverview, Frequency};
use huawei_metrics::fields::{FieldTable, Information};
use huawei_metrics::metrics::{
    count_devices, exposition, metric_kind, metric_of_field, nested_document, DeviceCounts, Metric,
    MetricKind, MetricValue, NAMESPACE,
};
use huawei_metrics::units::{parse_reading, Parsed};

fn device(mac: &str, connection: Option<ConnectionType>) -> Device {
    Device {
        connection,
        name: None,
        ips: Some(Vec::new()),
        uptime: None,
        leasetime: None,
        mac: mac.to_string(),
    }
}

fn overview() -> DeviceOverview {
    DeviceOverview {
        online: vec![
            device("1", Some(ConnectionType::Wifi(Frequency::W5GHz))),
            device("2", Some(ConnectionType::Other("Ethernet".to_string()))),
            device("3", Some(ConnectionType::Wifi(Frequency::W5GHz))),
        ],
        offline: vec![device("4", None), device("5", None)],
    }
}

fn record(label: &str, value: &str) -> Information {
    Information {
        label_id: format!("page.{}", label),
        label: label.to_string(),
        value_id: format!("id-{}", label),
        value: value.to_string(),
        parsed: parse_reading(value),
        hidden: false,
    }
}

fn gauge(name: &str, help: &str, count: u64) -> Metric {
    Metric {
        name: name.to_string(),
        help: help.to_string(),
        kind: MetricKind::Gauge,
        value: MetricValue::Count(count),
    }
}

#[test]
fn namespace_is_fixed() {
    assert_eq!(NAMESPACE, "huawei_metrics");
}

#[test]
fn units_map_to_kinds() {
    for unit in ["Mbps", "Kbps", "Bps", "dBm", "dB"] {
        assert_eq!(metric_kind(unit), MetricKind::Gauge, "{}", unit);
    }
    for unit in ["MB", "GB", "KB", "B"] {
        assert_eq!(metric_kind(unit), MetricKind::Counter, "{}", unit);
    }
    for unit in ["", "Gbps", "mbps", "MBPS", "b", "TB", "dbm", "MB ", " MB", "%", "Mbps\u{0}"] {
        assert_eq!(metric_kind(unit), MetricKind::Unsupported, "{:?}", unit);
    }
}

#[test]
fn counts_of_three_online_and_two_offline() {
    assert_eq!(
        count_devices(&overview()),
        DeviceCounts { online: 3, offline: 2, total: 5, wifi: 2, wifi_2ghz: 0, wifi_5ghz: 2 }
    );
}

#[test]
fn counts_tell_the_bands_apart() {
    let mut ov = overview();
    ov.online.push(device("6", Some(ConnectionType::Wifi(Frequency::W2_4GHz))));
    ov.online.push(device("7", None));
    ov.offline.push(device("8", Some(ConnectionType::Wifi(Frequency::W5GHz))));
    assert_eq!(
        count_devices(&ov),
        DeviceCounts { online: 5, offline: 3, total: 8, wifi: 3, wifi_2ghz: 1, wifi_5ghz: 2 }
    );
    let empty = DeviceOverview { online: Vec::new(), offline: Vec::new() };
    assert_eq!(
        count_devices(&empty),
        DeviceCounts { online: 0, offline: 0, total: 0, wifi: 0, wifi_2ghz: 0, wifi_5ghz: 0 }
    );
}

#[test]
fn a_field_with_a_rate_makes_a_gauge() {
    let m = metric_of_field("DownloadRate", &record("Download rate", "2048Kbps")).unwrap();
    assert_eq!(
        m,
        Metric {
            name: "downloadrate_mbps".to_string(),
            help: "Download rate".to_string(),
            kind: MetricKind::Gauge,
            value: MetricValue::Reading { number: "2048".to_string(), divisor: 1024 },
        }
    );
    let m = metric_of_field("RSSI", &record("Signal", "-70dBm")).unwrap();
    assert_eq!(m.name, "rssi_dbm");
    assert_eq!(m.kind, MetricKind::Gauge);
}

#[test]
fn a_field_with_an_amount_makes_a_counter() {
    let m = metric_of_field("TotalDownload", &record("Downloaded", "1.5GB")).unwrap();
    assert_eq!(
        m,
        Metric {
            name: "totaldownload_gb".to_string(),
            help: "Downloaded".to_string(),
            kind: MetricKind::Counter,
            value: MetricValue::Reading { number: "1.5".to_string(), divisor: 1 },
        }
    );
}

#[test]
fn fields_without_a_supported_reading_make_no_metric() {
    assert_eq!(metric_of_field("version", &record("Version", "11.0.1.2")), None);
    assert_eq!(metric_of_field("link", &record("Link", "1Gbps")), None);
    let mut odd = record("Odd", "1");
    odd.parsed = Some(Parsed { number: "1".to_string(), divisor: 1, unit: "furlong".to_string() });
    assert_eq!(metric_of_field("odd", &odd), None);
}

#[test]
fn the_exposition_starts_with_the_six_counts() {
    let mut fields = FieldTable::new();
    fields.insert("version".to_string(), record("Version", "11.0.1.2"));
    fields.insert("Up".to_string(), record("Upload", "10Mbps"));
    fields.insert("link".to_string(), record("Link", "1Gbps"));
    fields.insert("Down".to_string(), record("Download", "3MB"));
    let metrics = exposition(&fields, &overview());
    assert_eq!(metrics.len(), 8);
    assert_eq!(
        metrics[..6],
        [
            gauge("online_devices", "Number of online devices", 3),
            gauge("offline_devices", "Number of offline devices", 2),
            gauge("total_devices", "Number of total devices", 5),
            gauge("wifi_devices", "Number of wifi devices", 2),
            gauge("wifi_2ghz_devices", "Number of 2.4 GHz wifi devices", 0),
            gauge("wifi_5ghz_devices", "Number of 5 GHz wifi devices", 2),
        ]
    );
    assert_eq!(metrics[6].name, "up_mbps");
    assert_eq!(metrics[6].kind, MetricKind::Gauge);
    assert_eq!(metrics[7].name, "down_mb");
    assert_eq!(metrics[7].kind, MetricKind::Counter);
    let none = exposition(&FieldTable::new(), &overview());
    assert_eq!(none.len(), 6);
}

#[test]
fn the_document_holds_the_overview_and_the_fields() {
    let mut fields = FieldTable::new();
    fields.insert("version".to_string(), record("Version", "11.0.1.2"));
    let doc = nested_document(fields.clone(), overview());
    assert_eq!(doc.devices, Some(overview()));
    assert_eq!(doc.fields, fields);
}

#[test]
fn a_field_named_devices_takes_the_place_of_the_overview() {
    let mut fields = FieldTable::new();
    fields.insert("devices".to_string(), record("Devices", "3"));
    fields.insert("version".to_string(), record("Version", "11.0.1.2"));
    let doc = nested_document(fields.clone(), overview());
    assert_eq!(doc.devices, None);
    assert_eq!(doc.fields, fields);
}

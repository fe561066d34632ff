//! The two projections of what was read: a flat list of metrics and a
//! nested document.

use vstd::prelude::*;
use vstd::string::*;
use crate::devices::{ConnectionType, ConnectionView, DeviceOverview, DeviceOverviewView, DeviceView, Frequency};
use crate::fields::{has_key, FieldTable, Information, InformationView};
use crate::text::{lower_text, str_eq, to_ascii_lowercase};

verus! {

/// The prefix that every metric name gets when it is exposed.
pub const NAMESPACE: &'static str = "huawei_metrics";

/// What kind of metric a unit makes.
#[derive(Clone, Copy, Debug, PartialEq, Eq, Structural)]
pub enum MetricKind {
    /// A measurement of the moment, which may go down.
    Gauge,
    /// A total that only grows.
    Counter,
    /// A unit that makes no metric.
    Unsupported,
}

/// Rates and levels are gauges, amounts of data are counters, and every
/// other unit is unsupported.
pub open spec fn kind_of(unit: Seq<char>) -> MetricKind {
    if unit == "Mbps"@ || unit == "Kbps"@ || unit == "Bps"@ || unit == "dBm"@ || unit == "dB"@ {
        MetricKind::Gauge
    } else if unit == "MB"@ || unit == "GB"@ || unit == "KB"@ || unit == "B"@ {
        MetricKind::Counter
    } else {
        MetricKind::Unsupported
    }
}

/// The kind of metric that a unit makes.
pub fn metric_kind(unit: &str) -> (kind: MetricKind)
    ensures
        kind == kind_of(unit@),
{
    if str_eq(unit, "Mbps") || str_eq(unit, "Kbps") || str_eq(unit, "Bps") || str_eq(unit, "dBm")
        || str_eq(unit, "dB") {
        MetricKind::Gauge
    } else if str_eq(unit, "MB") || str_eq(unit, "GB") || str_eq(unit, "KB") || str_eq(unit, "B") {
        MetricKind::Counter
    } else {
        MetricKind::Unsupported
    }
}

/// Each of the five rate and level units makes a gauge, and each of the four
/// data units makes a counter: no unit of one list is taken for one of the
/// other.
pub proof fn lemma_documented_units()
    ensures
        kind_of("Mbps"@) == MetricKind::Gauge,
        kind_of("Kbps"@) == MetricKind::Gauge,
        kind_of("Bps"@) == MetricKind::Gauge,
        kind_of("dBm"@) == MetricKind::Gauge,
        kind_of("dB"@) == MetricKind::Gauge,
        kind_of("MB"@) == MetricKind::Counter,
        kind_of("GB"@) == MetricKind::Counter,
        kind_of("KB"@) == MetricKind::Counter,
        kind_of("B"@) == MetricKind::Counter,
{
    reveal_strlit("Mbps");
    reveal_strlit("Kbps");
    reveal_strlit("Bps");
    reveal_strlit("dBm");
    reveal_strlit("dB");
    reveal_strlit("MB");
    reveal_strlit("GB");
    reveal_strlit("KB");
    reveal_strlit("B");
    assert("Mbps"@.len() == 4 && "Kbps"@.len() == 4 && "Bps"@.len() == 3 && "dBm"@.len() == 3);
    assert("dB"@.len() == 2 && "dB"@[0] == 'd');
    assert("MB"@.len() == 2 && "MB"@[0] == 'M');
    assert("GB"@.len() == 2 && "GB"@[0] == 'G');
    assert("KB"@.len() == 2 && "KB"@[0] == 'K');
    assert("B"@.len() == 1);
    assert("Mbps"@[0] == 'M' && "Kbps"@[0] == 'K');
}

/// A unit that is neither a rate or level unit nor a data unit makes no metric.
pub proof fn lemma_other_units(unit: Seq<char>)
    requires
        unit != "Mbps"@,
        unit != "Kbps"@,
        unit != "Bps"@,
        unit != "dBm"@,
        unit != "dB"@,
        unit != "MB"@,
        unit != "GB"@,
        unit != "KB"@,
        unit != "B"@,
    ensures
        kind_of(unit) == MetricKind::Unsupported,
{
}

/// A device is on a wireless connection, of the given band if one is given.
pub open spec fn is_wifi(device: DeviceView, band: Option<Frequency>) -> bool {
    match device.connection {
        Some(ConnectionView::Wifi(f)) => band is None || band == Some(f),
        _ => false,
    }
}

/// The number of wireless devices among `devices`, of the given band if one
/// is given.
pub open spec fn count_wifi(devices: Seq<DeviceView>, band: Option<Frequency>) -> nat
    decreases devices.len(),
{
    if devices.len() == 0 {
        0
    } else {
        count_wifi(devices.drop_last(), band) + if is_wifi(devices.last(), band) {
            1nat
        } else {
            0nat
        }
    }
}

/// The six counts that are derived from an overview.
#[derive(Clone, Copy, Debug, PartialEq, Eq, Structural)]
pub struct DeviceCounts {
    pub online: u64,
    pub offline: u64,
    pub total: u64,
    pub wifi: u64,
    pub wifi_2ghz: u64,
    pub wifi_5ghz: u64,
}

/// The counts of an overview: the lengths of the two lists, their sum, and
/// the wireless devices of the online list, in all and by band.
pub open spec fn counts_of(overview: DeviceOverviewView) -> DeviceCounts {
    DeviceCounts {
        online: overview.online.len() as u64,
        offline: overview.offline.len() as u64,
        total: (overview.online.len() + overview.offline.len()) as u64,
        wifi: count_wifi(overview.online, None) as u64,
        wifi_2ghz: count_wifi(overview.online, Some(Frequency::W2_4GHz)) as u64,
        wifi_5ghz: count_wifi(overview.online, Some(Frequency::W5GHz)) as u64,
    }
}

/// There are no more wireless devices than devices.
pub proof fn lemma_count_wifi_bound(devices: Seq<DeviceView>, band: Option<Frequency>)
    ensures
        count_wifi(devices, band) <= devices.len(),
    decreases devices.len(),
{
    if devices.len() > 0 {
        lemma_count_wifi_bound(devices.drop_last(), band);
    }
}

/// Every wireless device is on exactly one of the two bands.
pub proof fn lemma_bands_partition(devices: Seq<DeviceView>)
    ensures
        count_wifi(devices, None) == count_wifi(devices, Some(Frequency::W2_4GHz)) + count_wifi(
            devices,
            Some(Frequency::W5GHz),
        ),
    decreases devices.len(),
{
    if devices.len() > 0 {
        lemma_bands_partition(devices.drop_last());
    }
}

/// Counts the devices of an overview.
pub fn count_devices(overview: &DeviceOverview) -> (counts: DeviceCounts)
    requires
        overview.online@.len() + overview.offline@.len() <= u64::MAX,
    ensures
        counts == counts_of(overview@),
        counts.online == overview.online@.len(),
        counts.offline == overview.offline@.len(),
        counts.total == counts.online + counts.offline,
        counts.wifi == count_wifi(overview@.online, None),
        counts.wifi_2ghz == count_wifi(overview@.online, Some(Frequency::W2_4GHz)),
        counts.wifi_5ghz == count_wifi(overview@.online, Some(Frequency::W5GHz)),
        counts.wifi == counts.wifi_2ghz + counts.wifi_5ghz,
        counts.wifi <= counts.online,
{
    let mut wifi: u64 = 0;
    let mut wifi_2ghz: u64 = 0;
    let mut wifi_5ghz: u64 = 0;
    let mut i: usize = 0;
    let ghost all = overview@.online;
    assert(all.subrange(0, 0) =~= Seq::<DeviceView>::empty());
    while i < overview.online.len()
        invariant
            i <= overview.online.len(),
            all == overview@.online,
            wifi == count_wifi(all.subrange(0, i as int), None),
            wifi_2ghz == count_wifi(all.subrange(0, i as int), Some(Frequency::W2_4GHz)),
            wifi_5ghz == count_wifi(all.subrange(0, i as int), Some(Frequency::W5GHz)),
        decreases overview.online.len() - i,
    {
        proof {
            let next = all.subrange(0, i + 1);
            assert(next.drop_last() =~= all.subrange(0, i as int));
            assert(next.last() == overview.online@[i as int]@);
            lemma_count_wifi_bound(next, None);
            lemma_count_wifi_bound(next, Some(Frequency::W2_4GHz));
            lemma_count_wifi_bound(next, Some(Frequency::W5GHz));
        }
        match &overview.online[i].connection {
            Some(ConnectionType::Wifi(Frequency::W2_4GHz)) => {
                wifi = wifi + 1;
                wifi_2ghz = wifi_2ghz + 1;
            },
            Some(ConnectionType::Wifi(Frequency::W5GHz)) => {
                wifi = wifi + 1;
                wifi_5ghz = wifi_5ghz + 1;
            },
            _ => {},
        }
        i = i + 1;
    }
    proof {
        assert(all.subrange(0, overview.online.len() as int) =~= all);
        lemma_bands_partition(all);
        lemma_count_wifi_bound(all, None);
    }
    let online = overview.online.len() as u64;
    let offline = overview.offline.len() as u64;
    DeviceCounts { online, offline, total: online + offline, wifi, wifi_2ghz, wifi_5ghz }
}

/// The value of a metric.
#[derive(Clone, Debug, PartialEq, Eq)]
pub enum MetricValue {
    /// A whole number.
    Count(u64),
    /// The number written in `number`, divided by `divisor`.
    Reading { number: String, divisor: u64 },
}

/// The mathematical content of a [`MetricValue`].
pub enum MetricValueView {
    Count(u64),
    Reading { number: Seq<char>, divisor: nat },
}

impl View for MetricValue {
    type V = MetricValueView;

    open spec fn view(&self) -> MetricValueView {
        match self {
            MetricValue::Count(n) => MetricValueView::Count(*n),
            MetricValue::Reading { number, divisor } => MetricValueView::Reading {
                number: number@,
                divisor: *divisor as nat,
            },
        }
    }
}

/// One metric: its name without the namespace, its help text, its kind,
/// which is never `Unsupported`, and its value.
#[derive(Clone, Debug, PartialEq, Eq)]
pub struct Metric {
    pub name: String,
    pub help: String,
    pub kind: MetricKind,
    pub value: MetricValue,
}

/// The mathematical content of a [`Metric`].
pub struct MetricView {
    pub name: Seq<char>,
    pub help: Seq<char>,
    pub kind: MetricKind,
    pub value: MetricValueView,
}

impl View for Metric {
    type V = MetricView;

    open spec fn view(&self) -> MetricView {
        MetricView { name: self.name@, help: self.help@, kind: self.kind, value: self.value@ }
    }
}

/// The views of a sequence of metrics.
pub open spec fn metrics_view(metrics: Seq<Metric>) -> Seq<MetricView> {
    Seq::new(metrics.len(), |i: int| metrics[i]@)
}

/// A gauge that holds a count.
pub open spec fn count_gauge(name: Seq<char>, help: Seq<char>, count: u64) -> MetricView {
    MetricView { name, help, kind: MetricKind::Gauge, value: MetricValueView::Count(count) }
}

/// The six gauges of the device counts, in their fixed order.
pub open spec fn fixed_metrics(counts: DeviceCounts) -> Seq<MetricView> {
    seq![
        count_gauge("online_devices"@, "Number of online devices"@, counts.online),
        count_gauge("offline_devices"@, "Number of offline devices"@, counts.offline),
        count_gauge("total_devices"@, "Number of total devices"@, counts.total),
        count_gauge("wifi_devices"@, "Number of wifi devices"@, counts.wifi),
        count_gauge("wifi_2ghz_devices"@, "Number of 2.4 GHz wifi devices"@, counts.wifi_2ghz),
        count_gauge("wifi_5ghz_devices"@, "Number of 5 GHz wifi devices"@, counts.wifi_5ghz),
    ]
}

/// The name of the metric of a field: the key and the unit in lower case,
/// with an underscore between them.
pub open spec fn metric_name(key: Seq<char>, unit: Seq<char>) -> Seq<char> {
    lower_text(key).push('_') + lower_text(unit)
}

/// The metric of a field: none if the field has no reading or if its unit is
/// unsupported; otherwise a gauge or a counter by the unit, with the label
/// as help and the reading as value.
pub open spec fn field_metric(key: Seq<char>, record: InformationView) -> Option<MetricView> {
    match record.parsed {
        None => None,
        Some(p) => if kind_of(p.unit) == MetricKind::Unsupported {
            None
        } else {
            Some(
                MetricView {
                    name: metric_name(key, p.unit),
                    help: record.label,
                    kind: kind_of(p.unit),
                    value: MetricValueView::Reading { number: p.number, divisor: p.divisor },
                },
            )
        },
    }
}

/// The metrics of the fields, in the order of the entries.
pub open spec fn field_metrics(entries: Seq<(Seq<char>, InformationView)>) -> Seq<MetricView>
    decreases entries.len(),
{
    if entries.len() == 0 {
        Seq::empty()
    } else {
        let before = field_metrics(entries.drop_last());
        match field_metric(entries.last().0, entries.last().1) {
            Some(m) => before.push(m),
            None => before,
        }
    }
}

/// The whole list: the six gauges of the counts, then the metrics of the fields.
pub open spec fn exposition_of(
    entries: Seq<(Seq<char>, InformationView)>,
    overview: DeviceOverviewView,
) -> Seq<MetricView> {
    fixed_metrics(counts_of(overview)) + field_metrics(entries)
}

/// The view of an optional metric.
pub open spec fn metric_opt_view(m: Option<Metric>) -> Option<MetricView> {
    match m {
        Some(m) => Some(m@),
        None => None,
    }
}

/// A gauge that holds a count.
fn gauge_of_count(name: &str, help: &str, count: u64) -> (m: Metric)
    ensures
        m@ == count_gauge(name@, help@, count),
{
    Metric {
        name: String::from_str(name),
        help: String::from_str(help),
        kind: MetricKind::Gauge,
        value: MetricValue::Count(count),
    }
}

/// The metric of a field, if it makes one.
pub fn metric_of_field(key: &str, record: &Information) -> (m: Option<Metric>)
    ensures
        metric_opt_view(m) == field_metric(key@, record@),
{
    match &record.parsed {
        None => None,
        Some(p) => {
            let kind = metric_kind(p.unit.as_str());
            match kind {
                MetricKind::Unsupported => None,
                _ => {
                    let mut name = to_ascii_lowercase(key);
                    name.push('_');
                    let unit = to_ascii_lowercase(p.unit.as_str());
                    name.append(unit.as_str());
                    Some(
                        Metric {
                            name,
                            help: record.label.clone(),
                            kind,
                            value: MetricValue::Reading {
                                number: p.number.clone(),
                                divisor: p.divisor,
                            },
                        },
                    )
                },
            }
        },
    }
}

/// The flat list of metrics: the six gauges of the device counts, always,
/// then one gauge or counter for each field that has a reading in a
/// supported unit, in the order of the table.
pub fn exposition(fields: &FieldTable, overview: &DeviceOverview) -> (metrics: Vec<Metric>)
    requires
        overview.online@.len() + overview.offline@.len() <= u64::MAX,
    ensures
        metrics_view(metrics@) == exposition_of(fields@, overview@),
{
    let counts = count_devices(overview);
    let mut metrics: Vec<Metric> = Vec::new();
    metrics.push(gauge_of_count("online_devices", "Number of online devices", counts.online));
    metrics.push(gauge_of_count("offline_devices", "Number of offline devices", counts.offline));
    metrics.push(gauge_of_count("total_devices", "Number of total devices", counts.total));
    metrics.push(gauge_of_count("wifi_devices", "Number of wifi devices", counts.wifi));
    metrics.push(
        gauge_of_count("wifi_2ghz_devices", "Number of 2.4 GHz wifi devices", counts.wifi_2ghz),
    );
    metrics.push(
        gauge_of_count("wifi_5ghz_devices", "Number of 5 GHz wifi devices", counts.wifi_5ghz),
    );
    let ghost fixed = fixed_metrics(counts);
    assert(metrics_view(metrics@) =~= fixed);
    assert(fields@.subrange(0, 0) =~= Seq::<(Seq<char>, InformationView)>::empty());
    let mut i: usize = 0;
    while i < fields.len()
        invariant
            i <= fields@.len(),
            metrics_view(metrics@) == fixed + field_metrics(fields@.subrange(0, i as int)),
        decreases fields@.len() - i,
    {
        proof {
            let next = fields@.subrange(0, i + 1);
            assert(next.drop_last() =~= fields@.subrange(0, i as int));
            assert(next.last() == fields@[i as int]);
        }
        let ghost before = metrics@;
        match metric_of_field(fields.key_at(i).as_str(), fields.record_at(i)) {
            Some(m) => {
                metrics.push(m);
                assert(metrics_view(metrics@) =~= metrics_view(before).push(m@));
                assert(metrics_view(metrics@) =~= fixed + field_metrics(
                    fields@.subrange(0, i + 1),
                ));
            },
            None => {},
        }
        i = i + 1;
    }
    assert(fields@.subrange(0, fields@.len() as int) =~= fields@);
    metrics
}

/// The nested document: the overview under the key "devices" and every
/// record under its own key. A record whose key is "devices" takes the
/// place of the overview, which is then absent.
#[derive(Clone, Debug, PartialEq, Eq)]
pub struct Document {
    pub devices: Option<DeviceOverview>,
    pub fields: FieldTable,
}

/// The view of an optional overview.
pub open spec fn overview_opt_view(o: Option<DeviceOverview>) -> Option<DeviceOverviewView> {
    match o {
        Some(o) => Some(o@),
        None => None,
    }
}

/// The keys of the entries.
pub open spec fn keys_of(entries: Seq<(Seq<char>, InformationView)>) -> Set<Seq<char>> {
    Set::new(|key: Seq<char>| has_key(entries, key))
}

impl Document {
    /// The keys at the top of the document: the keys of the records and "devices".
    pub open spec fn keys(&self) -> Set<Seq<char>> {
        keys_of(self.fields@).insert("devices"@)
    }

    /// Whether a record took the place of the overview.
    pub open spec fn collided(&self) -> bool {
        has_key(self.fields@, "devices"@)
    }
}

/// Merges the overview and the records into one document. The overview is
/// entered first, under "devices", and then every record under its key, so a
/// record with the key "devices" replaces the overview.
pub fn nested_document(fields: FieldTable, overview: DeviceOverview) -> (doc: Document)
    ensures
        doc.fields == fields,
        overview_opt_view(doc.devices) == (if has_key(fields@, "devices"@) {
            None
        } else {
            Some(overview@)
        }),
        doc.keys() == keys_of(fields@).insert("devices"@),
{
    match fields.position("devices") {
        Some(_) => Document { devices: None, fields },
        None => Document { devices: Some(overview), fields },
    }
}

/// Reading is repeatable: two tables and two overviews with the same
/// content give the same list of metrics and the same top-level keys,
/// whatever else differs between the two runs.
pub proof fn lemma_projection_is_repeatable(
    first: Document,
    second: Document,
    first_overview: DeviceOverview,
    second_overview: DeviceOverview,
)
    requires
        first.fields@ == second.fields@,
        first_overview@ == second_overview@,
    ensures
        exposition_of(first.fields@, first_overview@) == exposition_of(
            second.fields@,
            second_overview@,
        ),
        first.keys() == second.keys(),
        first.collided() == second.collided(),
{
}

} // verus!

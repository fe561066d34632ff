//! The rows of the device management page.

use vstd::prelude::*;
use vstd::string::*;
use crate::duration::{duration_of, MinuteCounter};
use crate::error::{ExtractError, Missing, Place};
use crate::reader::{answer, text_or, DeviceQuery, Reply, RowReader};
use crate::text::{has_substring, opt_view, str_eq, strings_view};

verus! {

/// The band of a wireless connection.
#[derive(Clone, Copy, Debug, PartialEq, Eq, Structural)]
pub enum Frequency {
    W2_4GHz,
    W5GHz,
}

/// How a device is connected.
#[derive(Clone, Debug, PartialEq, Eq)]
pub enum ConnectionType {
    Wifi(Frequency),
    Other(String),
}

/// The mathematical content of a [`ConnectionType`].
pub enum ConnectionView {
    Wifi(Frequency),
    Other(Seq<char>),
}

impl View for ConnectionType {
    type V = ConnectionView;

    open spec fn view(&self) -> ConnectionView {
        match self {
            ConnectionType::Wifi(f) => ConnectionView::Wifi(*f),
            ConnectionType::Other(s) => ConnectionView::Other(s@),
        }
    }
}

/// The view of an optional connection.
pub open spec fn connection_view(c: Option<ConnectionType>) -> Option<ConnectionView> {
    match c {
        Some(c) => Some(c@),
        None => None,
    }
}

/// One device of the page. Its hardware address is never empty. A device
/// that is offline has its hardware address and nothing else.
#[derive(Clone, Debug, PartialEq, Eq)]
pub struct Device {
    pub connection: Option<ConnectionType>,
    pub name: Option<String>,
    pub ips: Option<Vec<String>>,
    pub uptime: Option<MinuteCounter>,
    pub leasetime: Option<MinuteCounter>,
    pub mac: String,
}

/// The mathematical content of a [`Device`].
pub struct DeviceView {
    pub connection: Option<ConnectionView>,
    pub name: Option<Seq<char>>,
    pub ips: Option<Seq<Seq<char>>>,
    pub uptime: Option<MinuteCounter>,
    pub leasetime: Option<MinuteCounter>,
    pub mac: Seq<char>,
}

impl View for Device {
    type V = DeviceView;

    open spec fn view(&self) -> DeviceView {
        DeviceView {
            connection: connection_view(self.connection),
            name: opt_view(self.name),
            ips: match self.ips {
                Some(v) => Some(strings_view(v@)),
                None => None,
            },
            uptime: self.uptime,
            leasetime: self.leasetime,
            mac: self.mac@,
        }
    }
}

/// The views of a sequence of devices.
pub open spec fn devices_view(devices: Seq<Device>) -> Seq<DeviceView> {
    Seq::new(devices.len(), |i: int| devices[i]@)
}

/// The devices of the page, by the group in which their rows stand and in
/// the order of the rows.
#[derive(Clone, Debug, PartialEq, Eq)]
pub struct DeviceOverview {
    pub online: Vec<Device>,
    pub offline: Vec<Device>,
}

/// The mathematical content of a [`DeviceOverview`].
pub struct DeviceOverviewView {
    pub online: Seq<DeviceView>,
    pub offline: Seq<DeviceView>,
}

impl View for DeviceOverview {
    type V = DeviceOverviewView;

    open spec fn view(&self) -> DeviceOverviewView {
        DeviceOverviewView {
            online: devices_view(self.online@),
            offline: devices_view(self.offline@),
        }
    }
}

/// What the page holds for one address row of a device.
#[derive(Clone, Debug, PartialEq, Eq)]
pub struct AddressRow {
    /// The class attribute of the row.
    pub class: Option<String>,
    /// The text of the last span of the row.
    pub address: Option<String>,
}

/// The mathematical content of an [`AddressRow`].
pub struct AddressRowView {
    pub class: Option<Seq<char>>,
    pub address: Option<Seq<char>>,
}

impl View for AddressRow {
    type V = AddressRowView;

    open spec fn view(&self) -> AddressRowView {
        AddressRowView { class: opt_view(self.class), address: opt_view(self.address) }
    }
}

/// The views of a sequence of address rows.
pub open spec fn addresses_view(rows: Seq<AddressRow>) -> Seq<AddressRowView> {
    Seq::new(rows.len(), |i: int| rows[i]@)
}

/// What the page holds for one device row. A `None` stands for a node or
/// an attribute that is not there.
#[derive(Clone, Debug, PartialEq, Eq)]
pub struct DeviceRow {
    /// The hardware address attribute of the row. A device needs one that
    /// is not empty.
    pub mac: Option<String>,
    /// The class attribute of the element that shows the status.
    pub status: Option<String>,
    /// The name attribute of the element that carries the name: `None` if
    /// the element is not there, `Some(None)` if it has no such attribute.
    pub name: Option<Option<String>>,
    /// The text that describes the interface.
    pub interface: Option<String>,
    /// The address rows, in order.
    pub addresses: Vec<AddressRow>,
    /// The text of the uptime.
    pub uptime: Option<String>,
    /// The text of the lease countdown.
    pub lease: Option<String>,
}

/// The mathematical content of a [`DeviceRow`].
pub struct DeviceRowView {
    pub mac: Option<Seq<char>>,
    pub status: Option<Seq<char>>,
    pub name: Option<Option<Seq<char>>>,
    pub interface: Option<Seq<char>>,
    pub addresses: Seq<AddressRowView>,
    pub uptime: Option<Seq<char>>,
    pub lease: Option<Seq<char>>,
}

impl View for DeviceRow {
    type V = DeviceRowView;

    open spec fn view(&self) -> DeviceRowView {
        DeviceRowView {
            mac: opt_view(self.mac),
            status: opt_view(self.status),
            name: match self.name {
                Some(n) => Some(opt_view(n)),
                None => None,
            },
            interface: opt_view(self.interface),
            addresses: addresses_view(self.addresses@),
            uptime: opt_view(self.uptime),
            lease: opt_view(self.lease),
        }
    }
}

/// The views of a sequence of device rows.
pub open spec fn device_rows_view(rows: Seq<DeviceRow>) -> Seq<DeviceRowView> {
    Seq::new(rows.len(), |i: int| rows[i]@)
}

/// A status class marks a device as offline if it holds the offline marker.
pub open spec fn is_offline(status: Seq<char>) -> bool {
    has_substring("device_offline"@, status)
}

/// The connection that an interface text stands for: one of the two
/// wireless bands, nothing for the empty text, and the text itself otherwise.
pub open spec fn connection_of(interface: Seq<char>) -> Option<ConnectionView> {
    if interface == "5 GHz"@ {
        Some(ConnectionView::Wifi(Frequency::W5GHz))
    } else if interface == "2.4 GHz"@ {
        Some(ConnectionView::Wifi(Frequency::W2_4GHz))
    } else if interface.len() == 0 {
        None
    } else {
        Some(ConnectionView::Other(interface))
    }
}

/// An address row is left out if its class holds the hide marker, or if it
/// has no class.
pub open spec fn address_hidden(class: Option<Seq<char>>) -> bool {
    match class {
        Some(c) => has_substring("hide"@, c),
        None => true,
    }
}

/// The addresses of the rows that are not left out, in order; nothing if
/// one of these rows has no text.
pub open spec fn visible_addresses(rows: Seq<AddressRowView>) -> Option<Seq<Seq<char>>>
    decreases rows.len(),
{
    if rows.len() == 0 {
        Some(Seq::empty())
    } else {
        match visible_addresses(rows.drop_last()) {
            None => None,
            Some(before) => if address_hidden(rows.last().class) {
                Some(before)
            } else {
                match rows.last().address {
                    Some(a) => Some(before.push(a)),
                    None => None,
                }
            },
        }
    }
}

/// The counter that an optional text denotes.
pub open spec fn timer_of(text: Option<Seq<char>>, countdown: bool) -> Option<MinuteCounter> {
    match text {
        Some(t) => duration_of(t, countdown),
        None => None,
    }
}

/// A row has a hardware address if the attribute is there and is not empty.
pub open spec fn has_mac(row: DeviceRowView) -> bool {
    row.mac is Some && row.mac->0.len() > 0
}

/// The device that a row describes, or what the row lacks. A row whose
/// hardware address is absent or empty describes no device.
pub open spec fn device_of(row: DeviceRowView) -> Result<DeviceView, Missing> {
    if !has_mac(row) {
        Err(Missing::Mac)
    } else if row.status is None {
        Err(Missing::Status)
    } else if is_offline(row.status->0) {
        Ok(
            DeviceView {
                connection: None,
                name: None,
                ips: None,
                uptime: None,
                leasetime: None,
                mac: row.mac->0,
            },
        )
    } else if row.name is None {
        Err(Missing::Name)
    } else if row.interface is None {
        Err(Missing::Interface)
    } else if visible_addresses(row.addresses) is None {
        Err(Missing::Address)
    } else {
        Ok(
            DeviceView {
                connection: connection_of(row.interface->0),
                name: row.name->0,
                ips: Some(visible_addresses(row.addresses)->0),
                uptime: timer_of(row.uptime, false),
                leasetime: timer_of(row.lease, true),
                mac: row.mac->0,
            },
        )
    }
}

/// The connection that an interface text stands for.
pub fn classify_connection(interface: &str) -> (r: Option<ConnectionType>)
    ensures
        connection_view(r) == connection_of(interface@),
{
    if str_eq(interface, "5 GHz") {
        Some(ConnectionType::Wifi(Frequency::W5GHz))
    } else if str_eq(interface, "2.4 GHz") {
        Some(ConnectionType::Wifi(Frequency::W2_4GHz))
    } else if interface.unicode_len() == 0 {
        None
    } else {
        Some(ConnectionType::Other(String::from_str(interface)))
    }
}

/// The view of the outcome of reading one device row.
pub open spec fn device_result_view(r: Result<Device, Missing>) -> Result<DeviceView, Missing> {
    match r {
        Ok(device) => Ok(device@),
        Err(missing) => Err(missing),
    }
}

/// The answer for a text that may be absent.
fn reply_text(text: &Option<String>, absent: Reply) -> (r: Reply)
    ensures
        r@ == text_or(opt_view(*text), absent@),
{
    match text {
        Some(t) => Reply::Text(t.clone()),
        None => absent,
    }
}

/// The answer that a row gives to a question.
pub fn reply_of(row: &DeviceRow, query: DeviceQuery) -> (r: Reply)
    ensures
        r@ == answer(row@, query),
{
    match query {
        DeviceQuery::Mac => reply_text(&row.mac, Reply::NoAttribute),
        DeviceQuery::Status => reply_text(&row.status, Reply::NoNode),
        DeviceQuery::Name => match &row.name {
            Some(name) => reply_text(name, Reply::NoAttribute),
            None => Reply::NoNode,
        },
        DeviceQuery::Interface => reply_text(&row.interface, Reply::NoNode),
        DeviceQuery::AddressCount => Reply::Count(row.addresses.len()),
        DeviceQuery::AddressClass(i) => if i < row.addresses.len() {
            reply_text(&row.addresses[i].class, Reply::NoAttribute)
        } else {
            Reply::NoNode
        },
        DeviceQuery::AddressText(i) => if i < row.addresses.len() {
            reply_text(&row.addresses[i].address, Reply::NoNode)
        } else {
            Reply::NoNode
        },
        DeviceQuery::Uptime => reply_text(&row.uptime, Reply::NoNode),
        DeviceQuery::Lease => reply_text(&row.lease, Reply::NoNode),
    }
}

/// Every device has the hardware address of its row, which is not empty.
pub proof fn lemma_device_has_mac(row: DeviceRowView)
    ensures
        device_of(row) matches Ok(device) ==> row.mac == Some(device.mac) && device.mac.len() > 0,
        !has_mac(row) ==> device_of(row) == Err::<DeviceView, Missing>(Missing::Mac),
{
}

/// Reads one device row: puts the questions of a [`RowReader`] to the row
/// until none is pending. Gives the device that the row describes, or what
/// the row lacks. A device that comes back has the hardware address of the
/// row, which is not empty.
pub fn extract_device_data_row(row: &DeviceRow) -> (r: Result<Device, Missing>)
    ensures
        device_result_view(r) == device_of(row@),
        r matches Ok(device) ==> row@.mac == Some(device.mac@) && device.mac@.len() > 0,
        !has_mac(row@) ==> r == Err::<Device, Missing>(Missing::Mac),
{
    let mut reader = RowReader::new();
    loop
        invariant
            reader.tracks(row@),
        decreases reader.steps_left(),
    {
        match reader.pending() {
            Some(query) => {
                let reply = reply_of(row, query);
                match reader.feed(reply) {
                    Ok(next) => {
                        reader = next;
                    },
                    Err(missing) => {
                        return Err(missing);
                    },
                }
            },
            None => {
                let device = reader.into_device();
                return Ok(device.unwrap());
            },
        }
    }
}

/// The devices that the rows of one group describe, in order. The first row
/// that lacks something ends the reading.
pub open spec fn group_of(rows: Seq<DeviceRowView>, place: Place) -> Result<
    Seq<DeviceView>,
    ExtractError,
>
    decreases rows.len(),
{
    if rows.len() == 0 {
        Ok(Seq::empty())
    } else {
        match group_of(rows.drop_last(), place) {
            Err(e) => Err(e),
            Ok(devices) => match device_of(rows.last()) {
                Err(missing) => Err(
                    ExtractError { place, row: (rows.len() - 1) as usize, missing },
                ),
                Ok(device) => Ok(devices.push(device)),
            },
        }
    }
}

/// The overview that the rows of the two groups give: the online group is
/// read first, then the offline group.
pub open spec fn overview_of(online: Seq<DeviceRowView>, offline: Seq<DeviceRowView>) -> Result<
    DeviceOverviewView,
    ExtractError,
> {
    match group_of(online, Place::Online) {
        Err(e) => Err(e),
        Ok(on) => match group_of(offline, Place::Offline) {
            Err(e) => Err(e),
            Ok(off) => Ok(DeviceOverviewView { online: on, offline: off }),
        },
    }
}

/// Reading is repeatable: rows with the same content give the same overview
/// or the same error.
pub proof fn lemma_rows_decide_the_overview(
    online: Seq<DeviceRow>,
    offline: Seq<DeviceRow>,
    online_again: Seq<DeviceRow>,
    offline_again: Seq<DeviceRow>,
)
    requires
        device_rows_view(online) == device_rows_view(online_again),
        device_rows_view(offline) == device_rows_view(offline_again),
    ensures
        overview_of(device_rows_view(online), device_rows_view(offline)) == overview_of(
            device_rows_view(online_again),
            device_rows_view(offline_again),
        ),
{
}

/// Once a prefix of the rows has failed, the whole group fails in the same way.
pub proof fn lemma_group_error_stays(rows: Seq<DeviceRowView>, place: Place, n: int)
    requires
        0 <= n <= rows.len(),
        group_of(rows.subrange(0, n), place) is Err,
    ensures
        group_of(rows, place) == group_of(rows.subrange(0, n), place),
    decreases rows.len(),
{
    if n == rows.len() {
        assert(rows.subrange(0, n) =~= rows);
    } else {
        assert(rows.drop_last().subrange(0, n) =~= rows.subrange(0, n));
        lemma_group_error_stays(rows.drop_last(), place, n);
    }
}

/// Reads the rows of one group, in order.
pub fn extract_group(rows: &Vec<DeviceRow>, place: Place) -> (r: Result<Vec<Device>, ExtractError>)
    ensures
        match r {
            Ok(devices) => group_of(device_rows_view(rows@), place) == Ok::<_, ExtractError>(
                devices_view(devices@),
            ),
            Err(e) => group_of(device_rows_view(rows@), place) == Err::<Seq<DeviceView>, _>(e),
        },
{
    let mut devices: Vec<Device> = Vec::new();
    let mut i: usize = 0;
    assert(device_rows_view(rows@).subrange(0, 0) =~= Seq::<DeviceRowView>::empty());
    assert(devices_view(devices@) =~= Seq::<DeviceView>::empty());
    while i < rows.len()
        invariant
            i <= rows.len(),
            group_of(device_rows_view(rows@).subrange(0, i as int), place) == Ok::<
                _,
                ExtractError,
            >(devices_view(devices@)),
        decreases rows.len() - i,
    {
        proof {
            let all = device_rows_view(rows@);
            let next = all.subrange(0, i + 1);
            assert(next.drop_last() =~= all.subrange(0, i as int));
            assert(next.last() == rows@[i as int]@);
        }
        let ghost before = devices@;
        match extract_device_data_row(&rows[i]) {
            Ok(device) => {
                devices.push(device);
                assert(devices_view(devices@) =~= devices_view(before).push(device@));
            },
            Err(missing) => {
                proof {
                    lemma_group_error_stays(device_rows_view(rows@), place, i + 1);
                }
                return Err(ExtractError { place, row: i, missing });
            },
        }
        i = i + 1;
    }
    assert(device_rows_view(rows@).subrange(0, rows.len() as int) =~= device_rows_view(rows@));
    Ok(devices)
}

/// Reads the rows of the two groups into an overview. Each device stands in
/// the list of the group in which its row was found, in the order of the
/// rows. The first row that lacks a required node ends the reading with an
/// error that names it.
pub fn extract_devices(online: &Vec<DeviceRow>, offline: &Vec<DeviceRow>) -> (r: Result<
    DeviceOverview,
    ExtractError,
>)
    ensures
        match r {
            Ok(overview) => overview_of(device_rows_view(online@), device_rows_view(offline@))
                == Ok::<_, ExtractError>(overview@),
            Err(e) => overview_of(device_rows_view(online@), device_rows_view(offline@)) == Err::<
                DeviceOverviewView,
                _,
            >(e),
        },
{
    let on = match extract_group(online, Place::Online) {
        Ok(devices) => devices,
        Err(e) => {
            return Err(e);
        },
    };
    let off = match extract_group(offline, Place::Offline) {
        Ok(devices) => devices,
        Err(e) => {
            return Err(e);
        },
    };
    Ok(DeviceOverview { online: on, offline: off })
}

} // verus!

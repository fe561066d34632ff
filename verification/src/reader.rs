//! Reading a device row question by question.
//!
//! A [`RowReader`] decides which question is put to the page next and what
//! each answer means. Whoever holds the page puts the questions and hands
//! the answers back; the reader never touches the page itself.

use vstd::prelude::*;
use vstd::string::*;
use crate::devices::{address_hidden, classify_connection, connection_of, connection_view, device_of, is_offline, timer_of, visible_addresses, ConnectionType, Device, DeviceRowView, DeviceView, AddressRowView};
use crate::duration::MinuteCounter;
use crate::error::Missing;
use crate::text::{contains, opt_view, strings_view};

verus! {

/// A question about a device row.
#[derive(Clone, Copy, Debug, PartialEq, Eq, Structural)]
pub enum DeviceQuery {
    /// The hardware address attribute of the row, which must not be empty.
    Mac,
    /// The class attribute of the element that shows the status.
    Status,
    /// The name attribute of the element that carries the name.
    Name,
    /// The text that describes the interface.
    Interface,
    /// The number of address rows.
    AddressCount,
    /// The class attribute of the address row at this position.
    AddressClass(usize),
    /// The text of the last span of the address row at this position.
    AddressText(usize),
    /// The text of the uptime.
    Uptime,
    /// The text of the lease countdown.
    Lease,
}

/// An answer of the page.
#[derive(Clone, Debug, PartialEq, Eq)]
pub enum Reply {
    /// The node that was asked about is not there.
    NoNode,
    /// The node is there and has no such attribute.
    NoAttribute,
    /// The attribute or the text that was asked for.
    Text(String),
    /// The number that was asked for.
    Count(usize),
}

/// The mathematical content of a [`Reply`].
pub enum ReplyView {
    NoNode,
    NoAttribute,
    Text(Seq<char>),
    Count(nat),
}

impl View for Reply {
    type V = ReplyView;

    open spec fn view(&self) -> ReplyView {
        match self {
            Reply::NoNode => ReplyView::NoNode,
            Reply::NoAttribute => ReplyView::NoAttribute,
            Reply::Text(s) => ReplyView::Text(s@),
            Reply::Count(n) => ReplyView::Count(*n as nat),
        }
    }
}

/// The answer for a text that may be absent.
pub open spec fn text_or(text: Option<Seq<char>>, absent: ReplyView) -> ReplyView {
    match text {
        Some(t) => ReplyView::Text(t),
        None => absent,
    }
}

/// The answer that a row gives to a question.
pub open spec fn answer(row: DeviceRowView, query: DeviceQuery) -> ReplyView {
    match query {
        DeviceQuery::Mac => text_or(row.mac, ReplyView::NoAttribute),
        DeviceQuery::Status => text_or(row.status, ReplyView::NoNode),
        DeviceQuery::Name => match row.name {
            Some(name) => text_or(name, ReplyView::NoAttribute),
            None => ReplyView::NoNode,
        },
        DeviceQuery::Interface => text_or(row.interface, ReplyView::NoNode),
        DeviceQuery::AddressCount => ReplyView::Count(row.addresses.len()),
        DeviceQuery::AddressClass(i) => if i < row.addresses.len() {
            text_or(row.addresses[i as int].class, ReplyView::NoAttribute)
        } else {
            ReplyView::NoNode
        },
        DeviceQuery::AddressText(i) => if i < row.addresses.len() {
            text_or(row.addresses[i as int].address, ReplyView::NoNode)
        } else {
            ReplyView::NoNode
        },
        DeviceQuery::Uptime => text_or(row.uptime, ReplyView::NoNode),
        DeviceQuery::Lease => text_or(row.lease, ReplyView::NoNode),
    }
}

/// The question that a reader is at.
#[derive(Clone, Copy, Debug, PartialEq, Eq, Structural)]
enum Stage {
    Mac,
    Status,
    Name,
    Interface,
    AddressCount,
    AddressClass,
    AddressText,
    Uptime,
    Lease,
    Done,
}

/// The state of reading one device row: the question that comes next and
/// what the answers so far have given.
#[derive(Clone, Debug, PartialEq, Eq)]
pub struct RowReader {
    stage: Stage,
    index: usize,
    count: usize,
    online: bool,
    mac: String,
    name: Option<String>,
    connection: Option<ConnectionType>,
    ips: Vec<String>,
    uptime: Option<MinuteCounter>,
    leasetime: Option<MinuteCounter>,
}

/// Once the rows up to `n` hold a visible row without text, so do all the rows.
pub proof fn lemma_missing_address_stays(rows: Seq<AddressRowView>, n: int)
    requires
        0 <= n <= rows.len(),
        visible_addresses(rows.subrange(0, n)) is None,
    ensures
        visible_addresses(rows) is None,
    decreases rows.len(),
{
    if n == rows.len() {
        assert(rows.subrange(0, n) =~= rows);
    } else {
        assert(rows.drop_last().subrange(0, n) =~= rows.subrange(0, n));
        lemma_missing_address_stays(rows.drop_last(), n);
    }
}

/// The question about the address row at `index`, or about the uptime when
/// the address rows are through.
pub open spec fn address_or_uptime(row: DeviceRowView, index: int) -> DeviceQuery {
    if index < row.addresses.len() {
        DeviceQuery::AddressClass(index as usize)
    } else {
        DeviceQuery::Uptime
    }
}

/// The question that follows `query` when the row has answered it and the
/// reading goes on; nothing when the row is read. The questions come in the
/// order of the fields of a device. A device that is offline is asked nothing
/// after its status, and the text of an address row is asked for only if the
/// row is not left out.
pub open spec fn successor(row: DeviceRowView, query: DeviceQuery) -> Option<DeviceQuery> {
    match query {
        DeviceQuery::Mac => Some(DeviceQuery::Status),
        DeviceQuery::Status => if row.status is Some && is_offline(row.status->0) {
            None
        } else {
            Some(DeviceQuery::Name)
        },
        DeviceQuery::Name => Some(DeviceQuery::Interface),
        DeviceQuery::Interface => Some(DeviceQuery::AddressCount),
        DeviceQuery::AddressCount => Some(address_or_uptime(row, 0)),
        DeviceQuery::AddressClass(i) => if i < row.addresses.len() && !address_hidden(
            row.addresses[i as int].class,
        ) {
            Some(DeviceQuery::AddressText(i))
        } else {
            Some(address_or_uptime(row, i + 1))
        },
        DeviceQuery::AddressText(i) => Some(address_or_uptime(row, i + 1)),
        DeviceQuery::Uptime => Some(DeviceQuery::Lease),
        DeviceQuery::Lease => None,
    }
}

/// What an answer must lead to: for every row whose answers have led to
/// `before` and whose answer to the pending question is `reply`, the outcome
/// is either a reader that the row's answers lead to, at the question that
/// follows and nearer to its end, or the error that reading the row gives.
pub open spec fn follows(before: RowReader, reply: ReplyView, r: Result<RowReader, Missing>) -> bool {
    forall|row: DeviceRowView|
        before.pending_spec() is Some && #[trigger] before.tracks(row) && reply == answer(
            row,
            before.pending_spec()->0,
        ) ==> match r {
            Ok(next) => {
                &&& next.tracks(row)
                &&& next.pending_spec() == successor(row, before.pending_spec()->0)
                &&& next.steps_left() < before.steps_left()
            },
            Err(missing) => device_of(row) == Err::<DeviceView, Missing>(missing),
        }
}

impl RowReader {
    /// The question that comes next, or nothing when the row is read.
    pub closed spec fn pending_spec(&self) -> Option<DeviceQuery> {
        match self.stage {
            Stage::Mac => Some(DeviceQuery::Mac),
            Stage::Status => Some(DeviceQuery::Status),
            Stage::Name => Some(DeviceQuery::Name),
            Stage::Interface => Some(DeviceQuery::Interface),
            Stage::AddressCount => Some(DeviceQuery::AddressCount),
            Stage::AddressClass => Some(DeviceQuery::AddressClass(self.index)),
            Stage::AddressText => Some(DeviceQuery::AddressText(self.index)),
            Stage::Uptime => Some(DeviceQuery::Uptime),
            Stage::Lease => Some(DeviceQuery::Lease),
            Stage::Done => None,
        }
    }

    /// A bound on the number of questions that are still to come.
    pub closed spec fn steps_left(&self) -> nat {
        match self.stage {
            Stage::Mac => (2 * usize::MAX + 9) as nat,
            Stage::Status => (2 * usize::MAX + 8) as nat,
            Stage::Name => (2 * usize::MAX + 7) as nat,
            Stage::Interface => (2 * usize::MAX + 6) as nat,
            Stage::AddressCount => (2 * usize::MAX + 5) as nat,
            Stage::AddressClass => (2 * (self.count - self.index) + 3) as nat,
            Stage::AddressText => (2 * (self.count - self.index) + 2) as nat,
            Stage::Uptime => 2,
            Stage::Lease => 1,
            Stage::Done => 0,
        }
    }

    /// The device that the answers so far give, once the row is read.
    pub closed spec fn device_view(&self) -> DeviceView {
        if self.online {
            DeviceView {
                connection: connection_view(self.connection),
                name: opt_view(self.name),
                ips: Some(strings_view(self.ips@)),
                uptime: self.uptime,
                leasetime: self.leasetime,
                mac: self.mac@,
            }
        } else {
            DeviceView {
                connection: None,
                name: None,
                ips: None,
                uptime: None,
                leasetime: None,
                mac: self.mac@,
            }
        }
    }

    spec fn knows_status(&self, row: DeviceRowView) -> bool {
        &&& row.mac == Some(self.mac@)
        &&& self.mac@.len() > 0
        &&& row.status is Some
        &&& !is_offline(row.status->0)
        &&& self.online
    }

    spec fn knows_name(&self, row: DeviceRowView) -> bool {
        &&& self.knows_status(row)
        &&& row.name == Some(opt_view(self.name))
    }

    spec fn knows_interface(&self, row: DeviceRowView) -> bool {
        &&& self.knows_name(row)
        &&& row.interface is Some
        &&& connection_view(self.connection) == connection_of(row.interface->0)
    }

    spec fn knows_addresses_to(&self, row: DeviceRowView, n: int) -> bool {
        &&& self.knows_interface(row)
        &&& self.count == row.addresses.len()
        &&& 0 <= n <= self.count
        &&& visible_addresses(row.addresses.subrange(0, n)) == Some(strings_view(self.ips@))
    }

    /// The state is what the answers of `row` to the questions so far give.
    pub closed spec fn tracks(&self, row: DeviceRowView) -> bool {
        match self.stage {
            Stage::Mac => true,
            Stage::Status => row.mac == Some(self.mac@) && self.mac@.len() > 0,
            Stage::Name => self.knows_status(row),
            Stage::Interface => self.knows_name(row),
            Stage::AddressCount => self.knows_interface(row) && self.ips@.len() == 0,
            Stage::AddressClass => self.knows_addresses_to(row, self.index as int) && self.index
                < self.count,
            Stage::AddressText => self.knows_addresses_to(row, self.index as int) && self.index
                < self.count && !address_hidden(row.addresses[self.index as int].class),
            Stage::Uptime => self.knows_addresses_to(row, self.count as int),
            Stage::Lease => self.knows_addresses_to(row, self.count as int) && self.uptime
                == timer_of(row.uptime, false),
            Stage::Done => device_of(row) == Ok::<DeviceView, Missing>(self.device_view()),
        }
    }

    /// A reader at the first question of a row.
    pub fn new() -> (r: RowReader)
        ensures
            r.pending_spec() == Some(DeviceQuery::Mac),
            forall|row: DeviceRowView| #[trigger] r.tracks(row),
    {
        RowReader {
            stage: Stage::Mac,
            index: 0,
            count: 0,
            online: false,
            mac: String::new(),
            name: None,
            connection: None,
            ips: Vec::new(),
            uptime: None,
            leasetime: None,
        }
    }

    /// The question that comes next, or nothing when the row is read.
    pub fn pending(&self) -> (q: Option<DeviceQuery>)
        ensures
            q == self.pending_spec(),
    {
        match self.stage {
            Stage::Mac => Some(DeviceQuery::Mac),
            Stage::Status => Some(DeviceQuery::Status),
            Stage::Name => Some(DeviceQuery::Name),
            Stage::Interface => Some(DeviceQuery::Interface),
            Stage::AddressCount => Some(DeviceQuery::AddressCount),
            Stage::AddressClass => Some(DeviceQuery::AddressClass(self.index)),
            Stage::AddressText => Some(DeviceQuery::AddressText(self.index)),
            Stage::Uptime => Some(DeviceQuery::Uptime),
            Stage::Lease => Some(DeviceQuery::Lease),
            Stage::Done => None,
        }
    }

    /// The reader after the address row at `index`.
    fn after_address(self) -> (next: RowReader)
        requires
            self.index < self.count,
        ensures
            next.index == self.index + 1,
            next.stage == (if self.index + 1 == self.count {
                Stage::Uptime
            } else {
                Stage::AddressClass
            }),
            next.count == self.count,
            next.online == self.online,
            next.mac == self.mac,
            next.name == self.name,
            next.connection == self.connection,
            next.ips == self.ips,
            next.uptime == self.uptime,
            next.leasetime == self.leasetime,
    {
        let mut next = self;
        next.index = next.index + 1;
        next.stage = if next.index == next.count {
            Stage::Uptime
        } else {
            Stage::AddressClass
        };
        next
    }

    fn on_mac(self, reply: Reply) -> (r: Result<RowReader, Missing>)
        requires
            self.stage == Stage::Mac,
        ensures
            follows(self, reply@, r),
    {
        let mut next = self;
        match reply {
            Reply::Text(s) => {
                if s.as_str().is_empty() {
                    return Err(Missing::Mac);
                }
                next.mac = s;
                next.stage = Stage::Status;
                Ok(next)
            },
            _ => Err(Missing::Mac),
        }
    }

    fn on_status(self, reply: Reply) -> (r: Result<RowReader, Missing>)
        requires
            self.stage == Stage::Status,
        ensures
            follows(self, reply@, r),
    {
        let mut next = self;
        match reply {
            Reply::Text(s) => {
                if contains(s.as_str(), "device_offline") {
                    next.online = false;
                    next.stage = Stage::Done;
                } else {
                    next.online = true;
                    next.stage = Stage::Name;
                }
                Ok(next)
            },
            _ => Err(Missing::Status),
        }
    }

    fn on_name(self, reply: Reply) -> (r: Result<RowReader, Missing>)
        requires
            self.stage == Stage::Name,
        ensures
            follows(self, reply@, r),
    {
        let mut next = self;
        match reply {
            Reply::Text(s) => {
                next.name = Some(s);
                next.stage = Stage::Interface;
                Ok(next)
            },
            Reply::NoAttribute => {
                next.name = None;
                next.stage = Stage::Interface;
                Ok(next)
            },
            _ => Err(Missing::Name),
        }
    }

    fn on_interface(self, reply: Reply) -> (r: Result<RowReader, Missing>)
        requires
            self.stage == Stage::Interface,
        ensures
            follows(self, reply@, r),
    {
        let mut next = self;
        match reply {
            Reply::Text(s) => {
                next.connection = classify_connection(s.as_str());
                next.ips = Vec::new();
                next.stage = Stage::AddressCount;
                Ok(next)
            },
            _ => Err(Missing::Interface),
        }
    }

    fn on_address_count(self, reply: Reply) -> (r: Result<RowReader, Missing>)
        requires
            self.stage == Stage::AddressCount,
        ensures
            follows(self, reply@, r),
    {
        let mut next = self;
        match reply {
            Reply::Count(n) => {
                next.count = n;
                next.index = 0;
                next.stage = if n == 0 {
                    Stage::Uptime
                } else {
                    Stage::AddressClass
                };
                assert forall|row: DeviceRowView| #[trigger]
                    self.tracks(row) && reply@ == answer(row, DeviceQuery::AddressCount) implies next.tracks(
                    row,
                ) by {
                    assert(row.addresses.subrange(0, 0) =~= Seq::<AddressRowView>::empty());
                    assert(strings_view(next.ips@) =~= Seq::<Seq<char>>::empty());
                }
                Ok(next)
            },
            _ => Err(Missing::Address),
        }
    }

    fn on_address_class(self, reply: Reply) -> (r: Result<RowReader, Missing>)
        requires
            self.stage == Stage::AddressClass,
        ensures
            follows(self, reply@, r),
    {
        let mut next = self;
        let hidden = match reply {
            Reply::Text(class) => contains(class.as_str(), "hide"),
            _ => true,
        };
        if next.index >= next.count {
            next.stage = Stage::Uptime;
            return Ok(next);
        }
        if hidden {
            let after = next.after_address();
            assert forall|row: DeviceRowView| #[trigger]
                self.tracks(row) && reply@ == answer(
                    row,
                    DeviceQuery::AddressClass(self.index),
                ) implies after.tracks(row) by {
                let i = self.index as int;
                let rows = row.addresses;
                assert(rows.subrange(0, i + 1).drop_last() =~= rows.subrange(0, i));
                assert(rows.subrange(0, i + 1).last() == rows[i]);
                assert(address_hidden(rows[i].class));
            }
            Ok(after)
        } else {
            next.stage = Stage::AddressText;
            Ok(next)
        }
    }

    fn on_address_text(self, reply: Reply) -> (r: Result<RowReader, Missing>)
        requires
            self.stage == Stage::AddressText,
        ensures
            follows(self, reply@, r),
    {
        let mut next = self;
        if next.index >= next.count {
            next.stage = Stage::Uptime;
            return Ok(next);
        }
        match reply {
            Reply::Text(address) => {
                let ghost before = next.ips@;
                next.ips.push(address);
                let after = next.after_address();
                assert forall|row: DeviceRowView| #[trigger]
                    self.tracks(row) && reply@ == answer(
                        row,
                        DeviceQuery::AddressText(self.index),
                    ) implies after.tracks(row) by {
                    let i = self.index as int;
                    let rows = row.addresses;
                    assert(rows.subrange(0, i + 1).drop_last() =~= rows.subrange(0, i));
                    assert(rows.subrange(0, i + 1).last() == rows[i]);
                    assert(strings_view(after.ips@) =~= strings_view(before).push(address@));
                }
                Ok(after)
            },
            _ => {
                assert forall|row: DeviceRowView| #[trigger]
                    self.tracks(row) && reply@ == answer(
                        row,
                        DeviceQuery::AddressText(self.index),
                    ) implies device_of(row) == Err::<DeviceView, Missing>(Missing::Address) by {
                    let i = self.index as int;
                    let rows = row.addresses;
                    assert(rows.subrange(0, i + 1).drop_last() =~= rows.subrange(0, i));
                    assert(rows.subrange(0, i + 1).last() == rows[i]);
                    lemma_missing_address_stays(rows, i + 1);
                }
                Err(Missing::Address)
            },
        }
    }

    fn on_uptime(self, reply: Reply) -> (r: Result<RowReader, Missing>)
        requires
            self.stage == Stage::Uptime,
        ensures
            follows(self, reply@, r),
    {
        let mut next = self;
        next.uptime = match reply {
            Reply::Text(text) => MinuteCounter::try_from_str(text.as_str(), false),
            _ => None,
        };
        next.stage = Stage::Lease;
        Ok(next)
    }

    fn on_lease(self, reply: Reply) -> (r: Result<RowReader, Missing>)
        requires
            self.stage == Stage::Lease,
        ensures
            follows(self, reply@, r),
    {
        let mut next = self;
        next.leasetime = match reply {
            Reply::Text(text) => MinuteCounter::try_from_str(text.as_str(), true),
            _ => None,
        };
        next.stage = Stage::Done;
        assert forall|row: DeviceRowView| #[trigger]
            self.tracks(row) && reply@ == answer(row, DeviceQuery::Lease) implies next.tracks(
            row,
        ) by {
            assert(row.addresses.subrange(0, self.count as int) =~= row.addresses);
        }
        Ok(next)
    }

    /// Takes the answer to the pending question. Gives the reader at the
    /// next question, or what the row lacks. When no question is pending the
    /// reader comes back as it is.
    pub fn feed(self, reply: Reply) -> (r: Result<RowReader, Missing>)
        ensures
            self.pending_spec() is None ==> r == Ok::<RowReader, Missing>(self),
            follows(self, reply@, r),
    {
        match self.stage {
            Stage::Mac => self.on_mac(reply),
            Stage::Status => self.on_status(reply),
            Stage::Name => self.on_name(reply),
            Stage::Interface => self.on_interface(reply),
            Stage::AddressCount => self.on_address_count(reply),
            Stage::AddressClass => self.on_address_class(reply),
            Stage::AddressText => self.on_address_text(reply),
            Stage::Uptime => self.on_uptime(reply),
            Stage::Lease => self.on_lease(reply),
            Stage::Done => Ok(self),
        }
    }

    /// The device, once the row is read; nothing while a question is pending.
    pub fn into_device(self) -> (r: Option<Device>)
        ensures
            r is Some <==> self.pending_spec() is None,
            r matches Some(device) ==> device@ == self.device_view(),
            forall|row: DeviceRowView|
                self.pending_spec() is None && #[trigger] self.tracks(row) ==> r is Some
                    && device_of(row) == Ok::<DeviceView, Missing>(r->0@),
    {
        match self.stage {
            Stage::Done => {
                if self.online {
                    Some(
                        Device {
                            connection: self.connection,
                            name: self.name,
                            ips: Some(self.ips),
                            uptime: self.uptime,
                            leasetime: self.leasetime,
                            mac: self.mac,
                        },
                    )
                } else {
                    Some(
                        Device {
                            connection: None,
                            name: None,
                            ips: None,
                            uptime: None,
                            leasetime: None,
                            mac: self.mac,
                        },
                    )
                }
            },
            _ => None,
        }
    }
}

} // verus!

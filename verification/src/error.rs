//! The ways in which a page can fail to have the expected shape.

use vstd::prelude::*;
use vstd::string::*;
use crate::decimal::{decimal_text, render_u64};

verus! {

/// The node or attribute that a row lacks.
#[derive(Clone, Copy, Debug, PartialEq, Eq, Structural)]
pub enum Missing {
    /// The identifier of the label.
    LabelId,
    /// The text of the label.
    Label,
    /// The identifier of the value.
    ValueId,
    /// The separator between the namespace and the key in a label's identifier.
    Separator,
    /// The hardware address of a device: the attribute is absent or empty.
    Mac,
    /// The class of the element that shows whether a device is online.
    Status,
    /// The element that carries the name of a device.
    Name,
    /// The text that describes the interface of a device.
    Interface,
    /// The text of a visible address.
    Address,
}

/// The part of the pages in which a row stands.
#[derive(Clone, Copy, Debug, PartialEq, Eq, Structural)]
pub enum Place {
    /// The rows of the device information page.
    Fields,
    /// The group of online devices.
    Online,
    /// The group of offline devices.
    Offline,
}

/// A structural failure: the row at position `row` of `place` lacks `missing`.
#[derive(Clone, Copy, Debug, PartialEq, Eq, Structural)]
pub struct ExtractError {
    pub place: Place,
    pub row: usize,
    pub missing: Missing,
}

/// The words for what a row lacks.
pub open spec fn missing_text(missing: Missing) -> Seq<char> {
    match missing {
        Missing::LabelId => "the identifier of the label"@,
        Missing::Label => "the text of the label"@,
        Missing::ValueId => "the identifier of the value"@,
        Missing::Separator => "a full stop in the identifier of the label"@,
        Missing::Mac => "the hardware address"@,
        Missing::Status => "the status"@,
        Missing::Name => "the element of the name"@,
        Missing::Interface => "the interface"@,
        Missing::Address => "the text of an address"@,
    }
}

/// The words for a part of the pages.
pub open spec fn place_text(place: Place) -> Seq<char> {
    match place {
        Place::Fields => "device information"@,
        Place::Online => "online devices"@,
        Place::Offline => "offline devices"@,
    }
}

/// The message of a failure: the place, the position of the row counted
/// from zero, and what the row lacks.
pub open spec fn message_of(e: ExtractError) -> Seq<char> {
    place_text(e.place) + ", row "@ + decimal_text(e.row as nat) + ": missing "@ + missing_text(
        e.missing,
    )
}

impl Missing {
    /// The words for what a row lacks.
    pub fn describe(&self) -> (r: &'static str)
        ensures
            r@ == missing_text(*self),
    {
        match self {
            Missing::LabelId => "the identifier of the label",
            Missing::Label => "the text of the label",
            Missing::ValueId => "the identifier of the value",
            Missing::Separator => "a full stop in the identifier of the label",
            Missing::Mac => "the hardware address",
            Missing::Status => "the status",
            Missing::Name => "the element of the name",
            Missing::Interface => "the interface",
            Missing::Address => "the text of an address",
        }
    }
}

impl Place {
    /// The words for a part of the pages.
    pub fn describe(&self) -> (r: &'static str)
        ensures
            r@ == place_text(*self),
    {
        match self {
            Place::Fields => "device information",
            Place::Online => "online devices",
            Place::Offline => "offline devices",
        }
    }
}

impl ExtractError {
    /// One line that names the row and what it lacks.
    pub fn message(&self) -> (r: String)
        ensures
            r@ == message_of(*self),
    {
        let mut r = String::from_str(self.place.describe());
        r.append(", row ");
        let row = render_u64(self.row as u64);
        r.append(row.as_str());
        r.append(": missing ");
        r.append(self.missing.describe());
        r
    }
}

} // verus!

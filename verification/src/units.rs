//! Readings: a number followed by a unit, such as "123.4Mbps".

use vstd::prelude::*;
use vstd::string::*;
use crate::number::{is_float, is_float_text};
use crate::text::{ends_with, is_suffix, str_eq, from_chars, to_chars};

verus! {

/// A reading taken apart. Its magnitude is the number written in `number`
/// divided by `divisor`; `unit` is the unit that the magnitude is in.
#[derive(Clone, Debug, PartialEq, Eq)]
pub struct Parsed {
    pub number: String,
    pub divisor: u64,
    pub unit: String,
}

/// The mathematical content of a [`Parsed`].
pub struct ParsedView {
    pub number: Seq<char>,
    pub divisor: nat,
    pub unit: Seq<char>,
}

impl View for Parsed {
    type V = ParsedView;

    open spec fn view(&self) -> ParsedView {
        ParsedView { number: self.number@, divisor: self.divisor as nat, unit: self.unit@ }
    }
}

/// The view of an optional reading.
pub open spec fn parsed_view(p: Option<Parsed>) -> Option<ParsedView> {
    match p {
        Some(p) => Some(p@),
        None => None,
    }
}

/// What `value` reads as in `unit`: `value` must end with `unit`, and what
/// stands before it must be a number.
pub open spec fn parse_with_unit(value: Seq<char>, unit: Seq<char>) -> Option<ParsedView> {
    if is_suffix(unit, value) && is_float_text(value.subrange(0, value.len() - unit.len())) {
        Some(ParsedView { number: value.subrange(0, value.len() - unit.len()), divisor: 1, unit })
    } else {
        None
    }
}

/// The units that a raw value is probed for, in this order. A unit that is
/// the tail of another one comes after it.
pub open spec fn unit_candidates() -> Seq<Seq<char>> {
    seq!["dB"@, "dBm"@, "GB"@, "MB"@, "KB"@, "Gbps"@, "Mbps"@, "Kbps"@, "B"@]
}

/// The reading of `value` in the first of `units[from..]` that fits.
pub open spec fn first_match(value: Seq<char>, units: Seq<Seq<char>>, from: int) -> Option<
    ParsedView,
>
    decreases units.len() - from,
{
    if from < 0 || from >= units.len() {
        None
    } else {
        match parse_with_unit(value, units[from]) {
            Some(p) => Some(p),
            None => first_match(value, units, from + 1),
        }
    }
}

/// Kilobits per second are kept as megabits per second: the divisor grows
/// by 1024 and the unit is renamed. Other readings stay.
pub open spec fn normalise(p: ParsedView) -> ParsedView {
    if p.unit == "Kbps"@ {
        ParsedView { number: p.number, divisor: p.divisor * 1024, unit: "Mbps"@ }
    } else {
        p
    }
}

/// The reading of a raw value: the first candidate unit that fits, normalised.
pub open spec fn reading_of(value: Seq<char>) -> Option<ParsedView> {
    match first_match(value, unit_candidates(), 0) {
        Some(p) => Some(normalise(p)),
        None => None,
    }
}

/// Reads `value` in `unit`. Succeeds if and only if `value` ends with `unit`
/// and the rest is a number.
pub fn try_parse(value: &str, unit: &str) -> (r: Option<Parsed>)
    ensures
        parsed_view(r) == parse_with_unit(value@, unit@),
{
    if !ends_with(value, unit) {
        return None;
    }
    let v = to_chars(value);
    let u = to_chars(unit);
    let number = from_chars(&v, 0, v.len() - u.len());
    if is_float(number.as_str()) {
        Some(Parsed { number, divisor: 1, unit: String::from_str(unit) })
    } else {
        None
    }
}

/// The number of candidate units.
pub const CANDIDATES: usize = 9;

/// The candidate unit at position `i`.
pub fn candidate(i: usize) -> (u: &'static str)
    requires
        i < CANDIDATES,
    ensures
        u@ == unit_candidates()[i as int],
{
    if i == 0 {
        "dB"
    } else if i == 1 {
        "dBm"
    } else if i == 2 {
        "GB"
    } else if i == 3 {
        "MB"
    } else if i == 4 {
        "KB"
    } else if i == 5 {
        "Gbps"
    } else if i == 6 {
        "Mbps"
    } else if i == 7 {
        "Kbps"
    } else {
        "B"
    }
}

/// Reads a raw value: probes the candidate units in order, takes the first
/// that fits, and keeps kilobits per second as megabits per second.
pub fn parse_reading(value: &str) -> (r: Option<Parsed>)
    ensures
        parsed_view(r) == reading_of(value@),
{
    let mut i: usize = 0;
    while i < CANDIDATES
        invariant
            i <= CANDIDATES,
            unit_candidates().len() == CANDIDATES,
            first_match(value@, unit_candidates(), 0) == first_match(
                value@,
                unit_candidates(),
                i as int,
            ),
        decreases CANDIDATES - i,
    {
        match try_parse(value, candidate(i)) {
            Some(p) => {
                if str_eq(p.unit.as_str(), "Kbps") {
                    assert(p.divisor == 1);
                    return Some(
                        Parsed { number: p.number, divisor: 1024, unit: String::from_str("Mbps") },
                    );
                }
                return Some(p);
            },
            None => {},
        }
        i = i + 1;
    }
    None
}

/// A number followed by "Kbps" reads as that number over 1024, in "Mbps".
pub proof fn lemma_kbps_becomes_mbps(number: Seq<char>)
    requires
        is_float_text(number),
    ensures
        reading_of(number + "Kbps"@) == Some(
            ParsedView { number, divisor: 1024, unit: "Mbps"@ },
        ),
{
    reveal_strlit("dB");
    reveal_strlit("dBm");
    reveal_strlit("GB");
    reveal_strlit("MB");
    reveal_strlit("KB");
    reveal_strlit("Gbps");
    reveal_strlit("Mbps");
    reveal_strlit("Kbps");
    let value = number + "Kbps"@;
    let units = unit_candidates();
    let n = value.len() as int;
    assert(value[n - 1] == 's');
    assert(value[n - 4] == 'K');
    assert(value.subrange(n - 4, n) =~= "Kbps"@);
    assert(value.subrange(0, n - 4) =~= number);
    assert forall|i: int| 0 <= i < 7 implies parse_with_unit(value, #[trigger] units[i]) is None by {
        let u = units[i];
        if is_suffix(u, value) {
            let tail = value.subrange(n - u.len(), n);
            assert(tail[u.len() - 1] == value[n - 1]);
            if i == 5 || i == 6 {
                assert(tail[0] == value[n - 4]);
            }
        }
    }
    reveal_with_fuel(first_match, 9);
}

} // verus!

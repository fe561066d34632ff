//! Durations written as "<days> day <hours> hour <minutes> minute", held as
//! a count of whole minutes.

use vstd::prelude::*;
use vstd::string::*;
use crate::decimal::{decimal_text, lemma_decimal_text_value, parse_decimal, parse_u64, render_u64};
use crate::text::to_chars;

verus! {

/// The pattern that finds a duration in a text. Its three named groups are
/// the day, hour and minute counts.
pub const DURATION_PATTERN: &'static str =
    "(?P<day>\\d+) day (?P<hour>\\d+) hour (?P<minute>\\d+) minute";

/// A duration in whole minutes, counting up (an uptime) or down (a lease).
#[derive(Clone, Copy, Debug, PartialEq, Eq, Structural)]
pub struct MinuteCounter {
    pub countdown: bool,
    pub minutes: u64,
}

/// What the regex crate finds for `pattern` in `text`, if the pattern
/// compiles, matches and the groups named `first`, `second` and `third` all
/// take part in the leftmost match: the part of `text` that stands before
/// the first group, and then the substrings that the three groups capture.
pub uninterp spec fn named_captures(
    pattern: Seq<char>,
    text: Seq<char>,
    first: Seq<char>,
    second: Seq<char>,
    third: Seq<char>,
) -> Option<(Seq<char>, Seq<char>, Seq<char>, Seq<char>)>;

/// What a search found, as sequences of characters.
pub open spec fn captures_view(found: Option<(String, String, String, String)>) -> Option<
    (Seq<char>, Seq<char>, Seq<char>, Seq<char>),
> {
    match found {
        Some((before, a, b, c)) => Some((before@, a@, b@, c@)),
        None => None,
    }
}

/// Compiles `pattern` with `regex::Regex::new`, searches `text` with
/// `Regex::captures`, and reads the three named groups with `Captures::name`
/// and `Match::as_str`; the part of `text` before the first group ends at
/// the offset that `Match::start` gives. The contract only names the
/// outcome: it is a function of the five arguments. Nothing is claimed
/// about which strings come back.
#[verifier::external_body]
fn capture_three(pattern: &str, text: &str, first: &str, second: &str, third: &str) -> (found:
    Option<(String, String, String, String)>)
    ensures
        captures_view(found) == named_captures(pattern@, text@, first@, second@, third@),
{
    let re = regex::Regex::new(pattern).ok()?;
    let cap = re.captures(text)?;
    let head = cap.name(first)?;
    Some(
        (
            text[..head.start()].to_owned(),
            head.as_str().to_owned(),
            cap.name(second)?.as_str().to_owned(),
            cap.name(third)?.as_str().to_owned(),
        ),
    )
}

/// The text ends in a point or in a minus sign: digits that follow it are
/// the tail of a fraction or of a negative number, not a number of their own.
pub open spec fn cuts_a_number(before: Seq<char>) -> bool {
    before.len() > 0 && (before.last() == '.' || before.last() == '-')
}

/// Minutes in `d` days, `h` hours and `m` minutes.
pub open spec fn total_minutes(d: nat, h: nat, m: nat) -> nat {
    d * 1440 + h * 60 + m
}

/// The counter that three captured numerals denote: each must be a run of
/// ASCII digits that fits a `u64`, and so must the total.
pub open spec fn counter_from_groups(
    day: Seq<char>,
    hour: Seq<char>,
    minute: Seq<char>,
    countdown: bool,
) -> Option<MinuteCounter> {
    match (parse_decimal(day), parse_decimal(hour), parse_decimal(minute)) {
        (Some(d), Some(h), Some(m)) => if total_minutes(d as nat, h as nat, m as nat) <= u64::MAX {
            Some(
                MinuteCounter {
                    countdown,
                    minutes: total_minutes(d as nat, h as nat, m as nat) as u64,
                },
            )
        } else {
            None
        },
        _ => None,
    }
}

/// The counter that the outcome of a search denotes: nothing if nothing was
/// found, nothing if the day numeral that was found is cut out of a fraction
/// or of a negative number, and otherwise what the three numerals denote.
pub open spec fn counter_from_captures(
    found: Option<(Seq<char>, Seq<char>, Seq<char>, Seq<char>)>,
    countdown: bool,
) -> Option<MinuteCounter> {
    match found {
        Some((before, day, hour, minute)) => if cuts_a_number(before) {
            None
        } else {
            counter_from_groups(day, hour, minute, countdown)
        },
        None => None,
    }
}

/// The counter that a text denotes: the pattern is searched in the text and
/// the counter is read from the three groups of what was found.
pub open spec fn duration_of(text: Seq<char>, countdown: bool) -> Option<MinuteCounter> {
    counter_from_captures(
        named_captures(DURATION_PATTERN@, text, "day"@, "hour"@, "minute"@),
        countdown,
    )
}

/// The duration phrase around three numerals.
pub open spec fn phrase(day: Seq<char>, hour: Seq<char>, minute: Seq<char>) -> Seq<char> {
    day + " day "@ + hour + " hour "@ + minute + " minute"@
}

/// The canonical phrase of a minute count: days, then hours below 24, then
/// minutes below 60.
pub open spec fn phrase_of_minutes(minutes: nat) -> Seq<char> {
    phrase(
        decimal_text(minutes / 1440),
        decimal_text((minutes % 1440) / 60),
        decimal_text(minutes % 60),
    )
}

impl MinuteCounter {
    /// The counter written in three numerals, or nothing if one of them is
    /// not an unsigned decimal number or the total does not fit.
    pub fn from_groups(day: &str, hour: &str, minute: &str, countdown: bool) -> (r: Option<
        MinuteCounter,
    >)
        ensures
            r == counter_from_groups(day@, hour@, minute@, countdown),
    {
        let d = match parse_u64(day) {
            Some(d) => d,
            None => {
                return None;
            },
        };
        let h = match parse_u64(hour) {
            Some(h) => h,
            None => {
                return None;
            },
        };
        let m = match parse_u64(minute) {
            Some(m) => m,
            None => {
                return None;
            },
        };
        let days = match d.checked_mul(1440) {
            Some(x) => x,
            None => {
                return None;
            },
        };
        let hours = match h.checked_mul(60) {
            Some(x) => x,
            None => {
                return None;
            },
        };
        let sum = match days.checked_add(hours) {
            Some(x) => x,
            None => {
                return None;
            },
        };
        match sum.checked_add(m) {
            Some(minutes) => Some(MinuteCounter { countdown, minutes }),
            None => None,
        }
    }

    /// The counter that the outcome of a search for the duration pattern
    /// denotes. The outcome holds the text before the day numeral and the
    /// three numerals. A day numeral that stands directly behind a point or
    /// a minus sign gives nothing: days are whole and not negative.
    pub fn from_captures(found: Option<(String, String, String, String)>, countdown: bool) -> (r:
        Option<MinuteCounter>)
        ensures
            r == counter_from_captures(captures_view(found), countdown),
            found matches Some(f) && cuts_a_number(f.0@) ==> r is None,
    {
        match found {
            Some((before, day, hour, minute)) => {
                let head = to_chars(before.as_str());
                if head.len() > 0 && (head[head.len() - 1] == '.' || head[head.len() - 1] == '-') {
                    return None;
                }
                MinuteCounter::from_groups(day.as_str(), hour.as_str(), minute.as_str(), countdown)
            },
            None => None,
        }
    }

    /// Finds the duration pattern in `text` and reads the counter from its
    /// three groups. Returns nothing if the pattern is absent, if the day
    /// numeral stands directly behind a point or a minus sign, or if a group
    /// is not a number that fits.
    pub fn try_from_str(text: &str, countdown: bool) -> (r: Option<MinuteCounter>)
        ensures
            r == duration_of(text@, countdown),
    {
        let found = capture_three(DURATION_PATTERN, text, "day", "hour", "minute");
        MinuteCounter::from_captures(found, countdown)
    }

    /// The canonical phrase of the counter.
    pub fn interface_repr(&self) -> (r: String)
        ensures
            r@ == phrase_of_minutes(self.minutes as nat),
    {
        let mut r = render_u64(self.minutes / 1440);
        r.append(" day ");
        let hours = render_u64((self.minutes % 1440) / 60);
        r.append(hours.as_str());
        r.append(" hour ");
        let minutes = render_u64(self.minutes % 60);
        r.append(minutes.as_str());
        r.append(" minute");
        r
    }
}

/// Round trip: numerals in canonical form, with hours below 24 and minutes
/// below 60, denote a counter whose phrase holds the same three numerals.
/// So does a search that found them at the start of the text.
pub proof fn lemma_round_trip(d: nat, h: nat, m: nat, countdown: bool)
    requires
        h < 24,
        m < 60,
        total_minutes(d, h, m) <= u64::MAX,
    ensures
        counter_from_groups(decimal_text(d), decimal_text(h), decimal_text(m), countdown) == Some(
            MinuteCounter { countdown, minutes: total_minutes(d, h, m) as u64 },
        ),
        counter_from_captures(
            Some((Seq::empty(), decimal_text(d), decimal_text(h), decimal_text(m))),
            countdown,
        ) == Some(MinuteCounter { countdown, minutes: total_minutes(d, h, m) as u64 }),
        phrase_of_minutes(total_minutes(d, h, m)) == phrase(
            decimal_text(d),
            decimal_text(h),
            decimal_text(m),
        ),
{
    lemma_decimal_text_value(d);
    lemma_decimal_text_value(h);
    lemma_decimal_text_value(m);
    let t = total_minutes(d, h, m);
    assert(t / 1440 == d);
    assert((t % 1440) / 60 == h);
    assert(t % 60 == m);
}

/// Normalisation: whatever three numerals were read, the phrase of the
/// counter denotes the same counter again.
pub proof fn lemma_phrase_is_canonical(minutes: u64, countdown: bool)
    ensures
        counter_from_groups(
            decimal_text(minutes as nat / 1440),
            decimal_text((minutes as nat % 1440) / 60),
            decimal_text(minutes as nat % 60),
            countdown,
        ) == Some(MinuteCounter { countdown, minutes }),
{
    let n = minutes as nat;
    lemma_decimal_text_value(n / 1440);
    lemma_decimal_text_value((n % 1440) / 60);
    lemma_decimal_text_value(n % 60);
    assert(total_minutes(n / 1440, (n % 1440) / 60, n % 60) == n);
}

} // verus!

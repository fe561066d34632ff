//! The grammar of a decimal number with an optional fraction and exponent:
//!
//! ```text
//! Float  ::= Sign? ( 'inf' | 'infinity' | 'nan' | Number )
//! Number ::= ( Digit+ | Digit+ '.' Digit* | Digit* '.' Digit+ ) Exp?
//! Exp    ::= 'e' Sign? Digit+
//! Sign   ::= [+-]
//! Digit  ::= [0-9]
//! ```
//!
//! Letters match in either case. No white space is allowed anywhere.

use vstd::prelude::*;
use crate::decimal::is_digit;
use crate::text::{from_chars, lower_text, str_eq, to_ascii_lowercase, to_chars};

verus! {

/// A plus or a minus sign.
pub open spec fn is_sign(c: char) -> bool {
    c == '+' || c == '-'
}

/// The first index at or after `from` at which `s` holds no digit.
pub open spec fn digits_end(s: Seq<char>, from: int) -> int
    decreases s.len() - from,
{
    if 0 <= from < s.len() && is_digit(s[from]) {
        digits_end(s, from + 1)
    } else {
        from
    }
}

/// `s[at..]` is an exponent: the letter e, an optional sign, one digit or more.
pub open spec fn is_exponent_from(s: Seq<char>, at: int) -> bool {
    &&& 0 <= at < s.len()
    &&& (s[at] == 'e' || s[at] == 'E')
    &&& {
        let c = if at + 1 < s.len() && is_sign(s[at + 1]) {
            at + 2
        } else {
            at + 1
        };
        c < digits_end(s, c) && digits_end(s, c) == s.len()
    }
}

/// `s[from..]` is a number: digits with at most one point among them, one
/// digit at least, and an optional exponent.
pub open spec fn is_number_from(s: Seq<char>, from: int) -> bool {
    let a = digits_end(s, from);
    if a < s.len() && s[a] == '.' {
        let b = digits_end(s, a + 1);
        (a - from) + (b - (a + 1)) >= 1 && (b == s.len() || is_exponent_from(s, b))
    } else {
        a - from >= 1 && (a == s.len() || is_exponent_from(s, a))
    }
}

/// One of the words for an infinity or for "not a number", in any case.
pub open spec fn is_special(s: Seq<char>) -> bool {
    lower_text(s) == "inf"@ || lower_text(s) == "infinity"@ || lower_text(s) == "nan"@
}

/// The number of characters that a leading sign takes: one or none.
pub open spec fn sign_len(s: Seq<char>) -> int {
    if s.len() > 0 && is_sign(s[0]) {
        1
    } else {
        0
    }
}

/// `s` is written in the grammar of this module.
pub open spec fn is_float_text(s: Seq<char>) -> bool {
    is_special(s.subrange(sign_len(s), s.len() as int)) || is_number_from(s, sign_len(s))
}

/// The first index at or after `from` at which `v` holds no digit.
fn scan_digits(v: &Vec<char>, from: usize) -> (end: usize)
    requires
        from <= v.len(),
    ensures
        end == digits_end(v@, from as int),
        from <= end <= v.len(),
{
    let mut i: usize = from;
    while i < v.len() && v[i] >= '0' && v[i] <= '9'
        invariant
            from <= i <= v.len(),
            digits_end(v@, from as int) == digits_end(v@, i as int),
        decreases v.len() - i,
    {
        i = i + 1;
    }
    i
}

/// Whether `v[at..]` is an exponent.
fn exponent_at(v: &Vec<char>, at: usize) -> (r: bool)
    requires
        at <= v.len(),
    ensures
        r == is_exponent_from(v@, at as int),
{
    if at >= v.len() {
        return false;
    }
    if !(v[at] == 'e' || v[at] == 'E') {
        return false;
    }
    let c: usize = if at + 1 < v.len() && (v[at + 1] == '+' || v[at + 1] == '-') {
        at + 2
    } else {
        at + 1
    };
    let end = scan_digits(v, c);
    c < end && end == v.len()
}

/// Whether `v[from..]` is a number.
fn number_at(v: &Vec<char>, from: usize) -> (r: bool)
    requires
        from <= v.len(),
    ensures
        r == is_number_from(v@, from as int),
{
    let a = scan_digits(v, from);
    if a < v.len() && v[a] == '.' {
        let b = scan_digits(v, a + 1);
        (a - from) + (b - (a + 1)) >= 1 && (b == v.len() || exponent_at(v, b))
    } else {
        a - from >= 1 && (a == v.len() || exponent_at(v, a))
    }
}

/// Whether `s` is written in the grammar of this module.
pub fn is_float(s: &str) -> (r: bool)
    ensures
        r == is_float_text(s@),
{
    let v = to_chars(s);
    let start: usize = if v.len() > 0 && (v[0] == '+' || v[0] == '-') {
        1
    } else {
        0
    };
    let body = from_chars(&v, start, v.len());
    let low = to_ascii_lowercase(body.as_str());
    if str_eq(low.as_str(), "inf") || str_eq(low.as_str(), "infinity") || str_eq(
        low.as_str(),
        "nan",
    ) {
        return true;
    }
    number_at(&v, start)
}

} // verus!

//! Timestamps.
//!
//! Instants are Unix timestamps in seconds. Parsing a minute-precision
//! timestamp string and naming a calendar hour both go through chrono;
//! the clock-face label of an instant (hours and minutes of its UTC day)
//! is plain modular arithmetic and is computed and verified here.

use vstd::prelude::*;

verus! {

use vstd::arithmetic::div_mod::lemma_fundamental_div_mod;
use crate::text::fmt_two_digits;
use crate::text::two_digits;

/// The instant a minute-precision timestamp string denotes, in Unix
/// seconds, where the string parses; the result depends on the characters
/// alone.
pub uninterp spec fn parse_instant(s: Seq<char>) -> Option<i64>;

/// The calendar-hour key of an instant, rendered as a date, a space, and a
/// zero-minute clock time; the result depends on the instant alone.
pub uninterp spec fn hour_label_of(t: i64) -> Seq<char>;

/// Parses a minute-precision timestamp such as a reading's start time.
///
/// Relies on chrono's `DateTime::parse_from_str` with a fixed
/// year-month-day, hour-minute, offset format: parsing has no side effects
/// and its result is a function of the input string alone.
#[verifier::external_body]
pub fn parse_point_time(s: &str) -> (r: Option<i64>)
    ensures
        r == parse_instant(s@),
{
    match chrono::DateTime::parse_from_str(s, "%Y-%m-%dT%H:%M%#z") {
        Ok(d) => Some(d.timestamp()),
        Err(_) => None,
    }
}

/// Renders the calendar hour an instant falls in, as its hour key.
///
/// Relies on chrono's `DateTime::from_timestamp` and its formatter: for a
/// representable timestamp the rendered key depends on the timestamp alone,
/// and out-of-range timestamps give the empty string.
#[verifier::external_body]
pub fn hour_key(t: i64) -> (r: String)
    ensures
        r@ == hour_label_of(t),
{
    match chrono::DateTime::from_timestamp(t, 0) {
        Some(d) => d.format("%Y-%m-%d %H:00").to_string(),
        None => String::new(),
    }
}

/// The clock-face label of an instant: the hour and minute of its UTC day,
/// each as two digits, separated by a colon.
pub open spec fn hhmm(t: int) -> Seq<char> {
    let m = (t / 60) % 1440;
    two_digits(m / 60) + seq![':'] + two_digits(m % 60)
}

/// Renders the clock-face label of an instant.
pub fn fmt_hhmm(t: i64) -> (r: String)
    requires
        t >= 0,
    ensures
        r@ == hhmm(t as int),
{
    let tu = t as u64;
    let m = (tu / 60) % 1440;
    proof {
        lemma_fundamental_div_mod(m as int, 60);
    }
    let mut r = fmt_two_digits(m / 60);
    r.append(":");
    let tail = fmt_two_digits(m % 60);
    r.append(tail.as_str());
    proof {
        reveal_strlit(":");
        assert(":"@ =~= seq![':']);
        assert(r@ =~= hhmm(t as int));
    }
    r
}

} // verus!

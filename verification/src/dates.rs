//! Trusted boundary to the calendar: due-date validation and the clock.
//! Everything else about dates in this crate is plain string data.

use vstd::prelude::*;

verus! {

/// Whether a string is a calendar date in the form the tracker accepts
/// (`YYYY-MM-DD`, an existing date).
pub uninterp spec fn valid_due_date(s: Seq<char>) -> bool;

/// Relies on chrono::NaiveDate::parse_from_str with the "%Y-%m-%d" format:
/// whether the parse succeeds depends on the characters of `s` alone.
#[verifier::external_body]
pub(crate) fn is_valid_due_date(s: &str) -> (r: bool)
    ensures
        r == valid_due_date(s@),
{
    chrono::NaiveDate::parse_from_str(s, "%Y-%m-%d").is_ok()
}

/// Relies on chrono::Local::now: the current local time, rendered to
/// minute precision. Nothing can be promised of a clock reading.
#[verifier::external_body]
pub(crate) fn now_stamp() -> String {
    chrono::Local::now().format("%Y-%m-%d %H:%M").to_string()
}

/// Relies on chrono::Local::now: the current local calendar date as
/// `YYYY-MM-DD`. Nothing can be promised of a clock reading.
#[verifier::external_body]
pub(crate) fn today_stamp() -> String {
    chrono::Local::now().format("%Y-%m-%d").to_string()
}

} // verus!

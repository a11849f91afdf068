//! Reading dates as the store writes them.
use vstd::prelude::*;

use crate::structs::Timestamp;

verus! {

/// Seconds since the Unix epoch of the date and time that `text` writes in
/// the strftime format `fmt`, read as UTC; `None` where the text does not fit
/// the format.
pub uninterp spec fn parsed_seconds(text: Seq<char>, fmt: Seq<char>) -> Option<i64>;

/// Relies on chrono's `NaiveDateTime::parse_from_str`, taken as UTC by
/// `and_utc().timestamp()`: the result depends on the text and the format
/// alone.
#[verifier::external_body]
fn parse_with_format(text: &str, fmt: &str) -> (r: Option<i64>)
    ensures
        r == parsed_seconds(text@, fmt@),
{
    match chrono::NaiveDateTime::parse_from_str(text, fmt) {
        Ok(d) => Some(d.and_utc().timestamp()),
        Err(_) => None,
    }
}

/// The format in which the store writes dates: `2024-05-01 13:45:00`.
pub const DATETIME_FORMAT: &'static str = "%Y-%m-%d %H:%M:%S";

/// The instant that `text`, written in `DATETIME_FORMAT`, stands for, if it
/// is a valid date and time.
pub fn parse_datetime(text: &str) -> (r: Option<Timestamp>)
    ensures
        r == match parsed_seconds(text@, DATETIME_FORMAT@) {
            Some(s) => Some(Timestamp { seconds: s }),
            None => None,
        },
{
    match parse_with_format(text, DATETIME_FORMAT) {
        Some(s) => Some(Timestamp { seconds: s }),
        None => None,
    }
}

} // verus!

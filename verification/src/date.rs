//! Calendar dates of commit times.

use vstd::prelude::*;

verus! {

/// The calendar date, in UTC, of the moment `seconds` after the epoch,
/// written as year, month and day with hyphens between them; `None` where
/// the calendar in use cannot represent the moment.
pub uninterp spec fn date_text(seconds: int) -> Option<Seq<char>>;

/// Formats a commit time as a date.
///
/// Trusted: the body asks `chrono::DateTime::from_timestamp` for the moment
/// (with no nanoseconds), takes its date with `date_naive` and formats it
/// with `NaiveDate::format` and the pattern `%Y-%m-%d`. The contract claims
/// only that the outcome is a function of the argument: `None` exactly where
/// `from_timestamp` reports the seconds as out of range, else the text that
/// chrono writes for that date.
#[verifier::external_body]
pub(crate) fn format_date(timestamp: i64) -> (date: Option<String>)
    ensures
        date.deep_view() == date_text(timestamp as int),
{
    Some(chrono::DateTime::from_timestamp(timestamp, 0)?.date_naive().format("%Y-%m-%d").to_string())
}

} // verus!

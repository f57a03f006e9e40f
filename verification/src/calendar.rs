//! Reading dates and times out of text, which is `chrono`'s work.
//!
//! Nothing here is proved: each function below hands a text to `chrono` and
//! turns what comes back into integers. What `chrono` reads from a text
//! under a format takes its whole parser to say, so each reading has a name
//! and nothing more is claimed of it than that the same text and format
//! always give the same reading.

use vstd::prelude::*;

verus! {

/// What `chrono::DateTime::parse_from_rfc3339` reads from `text`: the instant
/// as whole seconds since 1970-01-01T00:00:00Z (`DateTime::timestamp`) and
/// the nanoseconds into that second (`DateTime::timestamp_subsec_nanos`), or
/// nothing where it rejects `text`.
pub uninterp spec fn rfc3339_instant(text: Seq<char>) -> Option<(i64, u32)>;

/// What `chrono::DateTime::parse_from_str` reads from `text` under `format`:
/// the instant as seconds and nanoseconds since the epoch, or nothing. It
/// reads nothing unless the format makes the text say how far it is from
/// UTC.
pub uninterp spec fn zoned_instant(text: Seq<char>, format: Seq<char>) -> Option<(i64, u32)>;

/// What `chrono::NaiveDateTime::parse_from_str` reads from `text` under
/// `format`, taken as a time of day in UTC (`NaiveDateTime::and_utc`): the
/// instant as seconds and nanoseconds since the epoch, or nothing.
pub uninterp spec fn naive_instant(text: Seq<char>, format: Seq<char>) -> Option<(i64, u32)>;

/// What `chrono::NaiveDate::parse_from_str` reads from `text` under
/// `format`: the day as a count of days since 1970-01-01
/// (`NaiveDate::to_epoch_days`), or nothing.
pub uninterp spec fn calendar_day(text: Seq<char>, format: Seq<char>) -> Option<i32>;

/// Calls `chrono::DateTime::parse_from_rfc3339` on `text` and takes the
/// result apart with `timestamp` and `timestamp_subsec_nanos`. Trusted to
/// return the reading that `rfc3339_instant` names.
#[verifier::external_body]
pub(crate) fn read_rfc3339(text: &str) -> (reading: Option<(i64, u32)>)
    ensures
        reading == rfc3339_instant(text@),
{
    match chrono::DateTime::parse_from_rfc3339(text) {
        Ok(t) => Some((t.timestamp(), t.timestamp_subsec_nanos())),
        Err(_) => None,
    }
}

/// Calls `chrono::DateTime::parse_from_str` on `text` and `format` and takes
/// the result apart with `timestamp` and `timestamp_subsec_nanos`. Trusted
/// to return the reading that `zoned_instant` names.
#[verifier::external_body]
pub(crate) fn read_zoned(text: &str, format: &str) -> (reading: Option<(i64, u32)>)
    ensures
        reading == zoned_instant(text@, format@),
{
    match chrono::DateTime::parse_from_str(text, format) {
        Ok(t) => Some((t.timestamp(), t.timestamp_subsec_nanos())),
        Err(_) => None,
    }
}

/// Calls `chrono::NaiveDateTime::parse_from_str` on `text` and `format`,
/// places the result in UTC with `and_utc` and takes it apart with
/// `timestamp` and `timestamp_subsec_nanos`. Trusted to return the reading
/// that `naive_instant` names.
#[verifier::external_body]
pub(crate) fn read_naive(text: &str, format: &str) -> (reading: Option<(i64, u32)>)
    ensures
        reading == naive_instant(text@, format@),
{
    match chrono::NaiveDateTime::parse_from_str(text, format) {
        Ok(t) => Some((t.and_utc().timestamp(), t.and_utc().timestamp_subsec_nanos())),
        Err(_) => None,
    }
}

/// Calls `chrono::NaiveDate::parse_from_str` on `text` and `format` and
/// counts the result's days with `to_epoch_days`. Trusted to return the
/// reading that `calendar_day` names.
#[verifier::external_body]
pub(crate) fn read_day(text: &str, format: &str) -> (reading: Option<i32>)
    ensures
        reading == calendar_day(text@, format@),
{
    match chrono::NaiveDate::parse_from_str(text, format) {
        Ok(d) => Some(d.to_epoch_days()),
        Err(_) => None,
    }
}

} // verus!

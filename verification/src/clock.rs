//! The wall clock and the calendar, both taken from `chrono`.

use vstd::prelude::*;

verus! {

/// What `chrono` prints for the instant `secs` seconds after the Unix epoch,
/// in UTC, under a format pattern; `None` where `chrono` cannot represent
/// the instant.
pub uninterp spec fn utc_text(secs: i64, pattern: Seq<char>) -> Option<Seq<char>>;

/// The four-digit-year pattern.
pub open spec fn year_pattern() -> Seq<char> {
    "%Y"@
}

/// The two-digit-month pattern.
pub open spec fn month_pattern() -> Seq<char> {
    "%m"@
}

/// Calls `chrono::Utc::now` and `DateTime::timestamp`: the current time in
/// whole seconds since the Unix epoch. Nothing is promised of the value.
#[verifier::external_body]
pub(crate) fn unix_now() -> (r: i64) {
    chrono::Utc::now().timestamp()
}

/// Calls `chrono::DateTime::from_timestamp` and `DateTime::format`. The
/// pattern is limited to the two that this library uses, both of which
/// `chrono` accepts. The contract only names the result, which depends on
/// the arguments alone: UTC has no daylight saving and no locale.
#[verifier::external_body]
pub(crate) fn format_utc(secs: i64, pattern: &str) -> (r: Option<String>)
    requires
        pattern@ == year_pattern() || pattern@ == month_pattern(),
    ensures
        match r {
            Some(s) => utc_text(secs, pattern@) == Some(s@),
            None => utc_text(secs, pattern@) is None,
        },
{
    chrono::DateTime::from_timestamp(secs, 0).map(|d| d.format(pattern).to_string())
}

} // verus!

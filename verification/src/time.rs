//! Instants, held as nanoseconds since the Unix epoch, read with jiff.

use vstd::prelude::*;

verus! {

/// The instant that jiff's `Timestamp` parser reads from `s`, in nanoseconds
/// since the Unix epoch, or `None` where jiff rejects `s`.
pub uninterp spec fn jiff_timestamp(s: Seq<char>) -> Option<i128>;

/// jiff's `str::parse::<Timestamp>` followed by `Timestamp::as_nanosecond`.
/// The accepted formats take pages to state, so the result is named
/// `jiff_timestamp`.
#[verifier::external_body]
fn parse_timestamp(s: &str) -> (r: Option<i128>)
    ensures
        r == jiff_timestamp(s@),
{
    match s.parse::<jiff::Timestamp>() {
        Ok(t) => Some(t.as_nanosecond()),
        Err(_) => None,
    }
}

/// The instant `s` denotes; the Unix epoch where it denotes none.
pub open spec fn ts_value(s: Seq<char>) -> i128 {
    match jiff_timestamp(s) {
        Some(t) => t,
        None => 0,
    }
}

/// Reads an instant; an unreadable one becomes the Unix epoch.
pub fn parse_ts(s: &str) -> (r: i128)
    ensures
        r == ts_value(s@),
{
    instant_or_epoch(parse_timestamp(s))
}

/// A parsed instant, or the Unix epoch where parsing failed.
pub fn instant_or_epoch(parsed: Option<i128>) -> (r: i128)
    ensures
        r == match parsed {
            Some(t) => t,
            None => 0,
        },
{
    match parsed {
        Some(t) => t,
        None => 0,
    }
}

/// The current time, read from std's `SystemTime::now` and converted by
/// jiff's `Timestamp::try_from`, in nanoseconds since the Unix epoch; `None`
/// where jiff refuses the system time (a clock set outside the years it
/// covers). Nothing more is stated of the result: it is the clock.
#[verifier::external_body]
pub(crate) fn now_nanos() -> Option<i128> {
    jiff::Timestamp::try_from(std::time::SystemTime::now()).ok().map(|t| t.as_nanosecond())
}

/// Whole seconds of an instant, the fraction cut off toward zero, as jiff's
/// `Timestamp::as_second`.
pub open spec fn whole_seconds(n: int) -> int {
    if n >= 0 {
        n / 1_000_000_000
    } else {
        -((-n) / 1_000_000_000)
    }
}

pub fn as_second(n: i128) -> (r: i128)
    ensures
        r == whole_seconds(n as int),
{
    if n >= 0 {
        n / 1_000_000_000
    } else if n == i128::MIN {
        -((-(n + 1_000_000_000)) / 1_000_000_000) - 1
    } else {
        -((-n) / 1_000_000_000)
    }
}

} // verus!

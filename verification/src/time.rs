//! Instants and look-back windows.
//!
//! An instant is a count of microseconds since 1970-01-01T00:00:00 UTC, held
//! in an `i64`. Text is turned into instants by chrono; everything else is
//! integer arithmetic.

use vstd::prelude::*;

verus! {

/// Microseconds in a second.
pub const MICROS_PER_SECOND: i64 = 1_000_000;

/// Microseconds in an hour.
pub const MICROS_PER_HOUR: i64 = 3_600_000_000;

/// Microseconds in a day of 24 hours.
pub const MICROS_PER_DAY: i64 = 86_400_000_000;

/// From midnight to the last whole second of the same day, 23:59:59.
pub const LAST_SECOND_OF_DAY: i64 = 86_399_000_000;

/// The longest look-back any window uses: 90 days.
pub const LONGEST_LOOKBACK: i64 = 7_776_000_000_000;

/// A look-back window of the trend engine.
#[derive(Clone, Copy, Debug, PartialEq, Eq, Structural)]
pub enum Period {
    Day,
    Week,
    Month,
    Quarter,
}

impl Period {
    /// The length of the window in microseconds: 24 hours, 7, 30 or 90 days.
    pub open spec fn span(self) -> int {
        match self {
            Period::Day => 24 * MICROS_PER_HOUR,
            Period::Week => 7 * MICROS_PER_DAY,
            Period::Month => 30 * MICROS_PER_DAY,
            Period::Quarter => 90 * MICROS_PER_DAY,
        }
    }

    /// The length of the window in microseconds.
    pub fn micros(self) -> (r: i64)
        ensures
            r == self.span(),
            0 < r <= LONGEST_LOOKBACK,
    {
        match self {
            Period::Day => 24 * MICROS_PER_HOUR,
            Period::Week => 7 * MICROS_PER_DAY,
            Period::Month => 30 * MICROS_PER_DAY,
            Period::Quarter => 90 * MICROS_PER_DAY,
        }
    }

    /// The window that a period token names: `24h`, `7d`, `30d` or `90d`.
    pub open spec fn of_token(token: Seq<char>) -> Option<Period> {
        if token == "24h"@ {
            Some(Period::Day)
        } else if token == "7d"@ {
            Some(Period::Week)
        } else if token == "30d"@ {
            Some(Period::Month)
        } else if token == "90d"@ {
            Some(Period::Quarter)
        } else {
            None
        }
    }

    /// Reads a period token.
    pub fn parse(token: &str) -> (r: Option<Period>)
        ensures
            r == Period::of_token(token@),
    {
        if crate::text::same_key(token, "24h") {
            Some(Period::Day)
        } else if crate::text::same_key(token, "7d") {
            Some(Period::Week)
        } else if crate::text::same_key(token, "30d") {
            Some(Period::Month)
        } else if crate::text::same_key(token, "90d") {
            Some(Period::Quarter)
        } else {
            None
        }
    }
}

/// The instant `span` microseconds before `now`.
pub fn window_start(now: i64, span: i64) -> (since: i64)
    requires
        0 <= span,
        now - span >= i64::MIN,
    ensures
        since == now - span,
{
    now - span
}

/// The cutoff of a retention horizon: the instant `days` whole days before
/// `now`. It may lie outside the range of instants that an `i64` holds.
pub fn retention_cutoff(now: i64, days: i64) -> (cutoff: i128)
    ensures
        cutoff == now - days * MICROS_PER_DAY,
{
    let wide_days: i128 = days as i128;
    let wide_now: i128 = now as i128;
    let day: i128 = MICROS_PER_DAY as i128;
    assert(-0x8000_0000_0000_0000 * 86_400_000_000 <= wide_days * day <= 0x8000_0000_0000_0000
        * 86_400_000_000) by (nonlinear_arith)
        requires
            -0x8000_0000_0000_0000 <= wide_days <= 0x8000_0000_0000_0000,
            day == 86_400_000_000,
    ;
    wide_now - wide_days * day
}

/// What chrono's RFC 3339 parser makes of a text: the instant it denotes, in
/// microseconds since the epoch, or `None` where the parser rejects the text.
pub uninterp spec fn rfc3339_micros(text: Seq<char>) -> Option<i64>;

/// What chrono's date parser makes of a text under the format `%Y-%m-%d`:
/// midnight UTC at the start of that day, in microseconds since the epoch, or
/// `None` where the parser rejects the text.
pub uninterp spec fn date_midnight_micros(text: Seq<char>) -> Option<i64>;

/// Calls `chrono::DateTime::parse_from_rfc3339` and reads the result with
/// `timestamp_micros`. Believed: the outcome depends on the text alone.
#[verifier::external_body]
pub(crate) fn parse_rfc3339(text: &str) -> (r: Option<i64>)
    ensures
        r == rfc3339_micros(text@),
{
    match chrono::DateTime::parse_from_rfc3339(text) {
        Ok(instant) => Some(instant.timestamp_micros()),
        Err(_) => None,
    }
}

/// Calls `chrono::NaiveDate::parse_from_str` with the format `%Y-%m-%d` and
/// reads midnight UTC of the parsed day with `timestamp_micros`. Believed: the
/// outcome depends on the text alone.
#[verifier::external_body]
pub(crate) fn parse_date(text: &str) -> (r: Option<i64>)
    ensures
        r == date_midnight_micros(text@),
{
    match chrono::NaiveDate::parse_from_str(text, "%Y-%m-%d") {
        Ok(day) => Some(day.and_time(chrono::NaiveTime::MIN).and_utc().timestamp_micros()),
        Err(_) => None,
    }
}

/// Calls `chrono::Utc::now` and reads the result with `timestamp_micros`.
/// Believed: the clock does not return an instant before the epoch (chrono
/// panics on such a system time instead of returning).
#[verifier::external_body]
pub(crate) fn clock_micros() -> (now: i64)
    ensures
        now >= 0,
{
    chrono::Utc::now().timestamp_micros()
}

} // verus!

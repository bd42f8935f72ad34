//! The wall clock, read through the `chrono` crate and decomposed into the
//! seven two-digit fields that identifier allocation concatenates, ordered
//! from finest to coarsest granularity.

use vstd::prelude::*;
use chrono::{Datelike, Timelike, Utc};

verus! {

/// One instant, reduced to the seven fields that allocation draws on,
/// finest first. Each holds at most two decimal digits.
pub struct TimeFields {
    /// Hundredths of a second, 0..100.
    pub centis: u8,
    /// Second of the minute, 0..60.
    pub second: u8,
    /// Minute of the hour, 0..60.
    pub minute: u8,
    /// Hour of the day, 0..24.
    pub hour: u8,
    /// Day of the month, 1..=31.
    pub day: u8,
    /// Month of the year, 1..=12.
    pub month: u8,
    /// Year of the century, 0..100.
    pub year: u8,
}

impl TimeFields {
    /// Every field fits in two decimal digits, so the concatenated key of
    /// all seven fits in a `u64`.
    pub open spec fn valid(&self) -> bool {
        &&& self.centis < 100
        &&& self.second < 100
        &&& self.minute < 100
        &&& self.hour < 100
        &&& self.day < 100
        &&& self.month < 100
        &&& self.year < 100
    }
}

/// Relies on `chrono::Utc::now` and the `Datelike`/`Timelike` accessors
/// of `chrono::DateTime<Utc>`, all applied to one instant: `nanosecond`
/// counts from the whole non-leap second and stays below 2,000,000,000
/// (1,000,000,000 and above marks a leap second); `second` and `minute`
/// range over 0..=59, `hour` over 0..=23, `day` over 1..=31, `month` over
/// 1..=12; `year` is the calendar year and may be negative, with nothing
/// further promised of it.
#[verifier::external_body]
fn now_parts() -> (r: (u32, u32, u32, u32, u32, u32, i32))
    ensures
        r.0 < 2_000_000_000,
        r.1 < 60,
        r.2 < 60,
        r.3 < 24,
        1 <= r.4 <= 31,
        1 <= r.5 <= 12,
{
    let dt = Utc::now();
    (dt.nanosecond(), dt.second(), dt.minute(), dt.hour(), dt.day(), dt.month(), dt.year())
}

/// Reads the current instant and decomposes it into the seven allocation
/// fields: hundredths of the second within the second (leap seconds fold
/// back into 0..100), then second, minute, hour, day, month, and the year
/// reduced to its two trailing digits.
pub fn now_fields() -> (t: TimeFields)
    ensures
        t.valid(),
{
    let (nanos, second, minute, hour, day, month, year_full) = now_parts();
    let frac = if nanos >= 1_000_000_000 {
        nanos - 1_000_000_000
    } else {
        nanos
    };
    let year = if year_full >= 0 {
        ((year_full as u32) % 100) as u8
    } else {
        let below = (-(year_full as i64)) as u64;
        ((100 - (below % 100)) % 100) as u8
    };
    TimeFields {
        centis: (frac / 10_000_000) as u8,
        second: second as u8,
        minute: minute as u8,
        hour: hour as u8,
        day: day as u8,
        month: month as u8,
        year,
    }
}

} // verus!

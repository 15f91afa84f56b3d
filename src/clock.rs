//! Points in time, and what chrono computes about them: local wall-clock
//! time to UTC, the local offset at an instant, and strftime-style rendering.

use chrono::TimeZone;
use std::fmt::Write;
use vstd::prelude::*;

use crate::paths::text_of;

verus! {

/// A point in time, as whole seconds since 1970-01-01T00:00:00 UTC.
#[derive(Clone, Copy, Debug, PartialEq, Eq, Structural)]
pub struct UtcTime {
    pub seconds: i64,
}

/// A wall-clock time in the local time zone, as written in a file name.
#[derive(Clone, Copy, Debug, PartialEq, Eq, Structural)]
pub struct LocalFields {
    pub year: i32,
    pub month: u32,
    pub day: u32,
    pub hour: u32,
    pub minute: u32,
    pub second: u32,
}

/// What chrono writes for `template` at the instant `seconds`, shown in UTC.
pub uninterp spec fn utc_rendering(template: Seq<char>, seconds: int) -> Option<Seq<char>>;

/// What chrono writes for `template` at the instant `seconds`, shown at a
/// fixed offset of `offset` seconds east of UTC.
pub uninterp spec fn offset_rendering(template: Seq<char>, seconds: int, offset: int) -> Option<
    Seq<char>,
>;

/// Relies on chrono's `Local::with_ymd_and_hms` (with `single`) and
/// `DateTime::timestamp`: the instant of a local wall-clock time, when the
/// time is valid and not ambiguous in the machine's time zone. chrono builds
/// the time with `NaiveDate::from_ymd_opt` and `and_hms_opt`, which refuse
/// fields out of range.
#[verifier::external_body]
pub(crate) fn local_to_utc(t: LocalFields) -> (r: Option<UtcTime>)
    ensures
        r is Some ==> 1 <= t.month <= 12 && 1 <= t.day <= 31 && t.hour < 24 && t.minute < 60
            && t.second < 60,
{
    chrono::Local.with_ymd_and_hms(t.year, t.month, t.day, t.hour, t.minute, t.second)
        .single()
        .map(|dt| UtcTime { seconds: dt.timestamp() })
}

/// Relies on chrono's `FixedOffset::local_minus_utc` of `Local`'s offset at
/// an instant (built with `DateTime::from_timestamp`): the machine's UTC
/// offset then, in seconds.
#[verifier::external_body]
pub(crate) fn local_offset_at(t: UtcTime) -> (r: Option<i32>)
{
    chrono::DateTime::from_timestamp(t.seconds, 0)
        .map(|dt| dt.with_timezone(&chrono::Local).offset().local_minus_utc())
}

/// Relies on chrono's `DateTime::<Utc>::format` (the instant built with
/// `DateTime::from_timestamp`): the strftime-style rendering of the instant
/// in UTC, or `None` where the template holds an invalid specifier.
#[verifier::external_body]
pub(crate) fn render_utc(template: &str, t: UtcTime) -> (r: Option<String>)
    ensures
        text_of(r) == utc_rendering(template@, t.seconds as int),
{
    let dt = chrono::DateTime::from_timestamp(t.seconds, 0)?;
    let mut out = String::new();
    write!(out, "{}", dt.format(template)).ok()?;
    Some(out)
}

/// Relies on chrono's `DateTime::<FixedOffset>::format` (the offset built
/// with `FixedOffset::east_opt`, the instant with `DateTime::from_timestamp`
/// and `with_timezone`): the strftime-style rendering of the instant at that
/// offset, or `None` where the template holds an invalid specifier.
#[verifier::external_body]
pub(crate) fn render_at_offset(template: &str, t: UtcTime, offset: i32) -> (r: Option<String>)
    ensures
        text_of(r) == offset_rendering(template@, t.seconds as int, offset as int),
{
    let tz = chrono::FixedOffset::east_opt(offset)?;
    let dt = chrono::DateTime::from_timestamp(t.seconds, 0)?.with_timezone(&tz);
    let mut out = String::new();
    write!(out, "{}", dt.format(template)).ok()?;
    Some(out)
}

} // verus!

use crate::calendar::{seconds_in_range, CalendarDateTime, NANOS_PER_SECOND};
use crate::epoch::Epoch;
use chrono::{Datelike, Timelike};
use vstd::prelude::*;

verus! {

/// Why a count does not decode to a date-time.
#[derive(Clone, Copy, Debug, PartialEq, Eq, Structural, Hash)]
pub enum ConversionError {
    /// The count, moved to seconds since 1970, does not fit in 64 bits.
    Overflow,
    /// The instant lies outside the representable calendar years.
    OutOfRange,
}

/// Relies on epochs::unix, which hands `t` to chrono's
/// `NaiveDateTime::from_timestamp_opt(t, 0)`: the proleptic Gregorian
/// date-time `t` whole seconds after 1970-01-01T00:00:00, or `None` where
/// its day falls outside chrono's dates (years -262143 to 262142).
#[verifier::external_body]
fn unix_seconds_to_datetime(t: i64) -> (r: Option<CalendarDateTime>)
    ensures
        r.is_some() == seconds_in_range(t as int),
        r matches Some(c) ==> c.wf() && c.nanosecond == 0 && c.seconds_since_epoch() == t,
{
    match epochs::unix(t) {
        Some(ndt) => Some(
            CalendarDateTime {
                year: ndt.year(),
                month: ndt.month(),
                day: ndt.day(),
                hour: ndt.hour(),
                minute: ndt.minute(),
                second: ndt.second(),
                nanosecond: ndt.nanosecond(),
            },
        ),
        None => None,
    }
}

/// Whole seconds since the scheme's origin: the count divided by the ticks
/// per second, rounded toward negative infinity.
pub open spec fn whole_seconds(scheme: Epoch, raw: int) -> int {
    raw / scheme.spec_unit().spec_ticks_per_second()
}

/// The part of the count below one second, in nanoseconds (never negative).
pub open spec fn sub_second_nanos(scheme: Epoch, raw: int) -> int {
    (raw % scheme.spec_unit().spec_ticks_per_second()) * scheme.spec_unit().spec_nanos_per_tick()
}

/// Whole seconds since 1970-01-01T00:00:00.
pub open spec fn unix_seconds(scheme: Epoch, raw: int) -> int {
    whole_seconds(scheme, raw) + scheme.spec_origin().seconds_since_epoch()
}

pub open spec fn fits_i64(x: int) -> bool {
    i64::MIN <= x <= i64::MAX
}

/// The count decodes without error under the scheme.
pub open spec fn decodable(scheme: Epoch, raw: int) -> bool {
    fits_i64(unix_seconds(scheme, raw)) && seconds_in_range(unix_seconds(scheme, raw))
}

/// `c` is the date-time that `raw` ticks after the scheme's origin stand for.
pub open spec fn decodes_to(scheme: Epoch, raw: int, c: CalendarDateTime) -> bool {
    &&& c.wf()
    &&& c.seconds_since_epoch() == unix_seconds(scheme, raw)
    &&& c.nanosecond == sub_second_nanos(scheme, raw)
}

/// Decodes `raw` ticks of the scheme's unit counted from its origin (before
/// it when negative) into a calendar date-time.
///
/// epochs' sub-second decoders divide toward zero and so reject negative
/// counts with a fractional second; here the count is split by flooring,
/// and only the whole seconds go to the outside decoder.
pub fn convert(scheme: Epoch, raw: i64) -> (r: Result<CalendarDateTime, ConversionError>)
    ensures
        (r matches Err(ConversionError::Overflow)) <==> !fits_i64(unix_seconds(scheme, raw as int)),
        (r matches Err(ConversionError::OutOfRange)) <==> fits_i64(unix_seconds(scheme, raw as int))
            && !seconds_in_range(unix_seconds(scheme, raw as int)),
        r.is_ok() <==> decodable(scheme, raw as int),
        r matches Ok(c) ==> decodes_to(scheme, raw as int, c),
{
    let unit = scheme.unit();
    let ticks = unit.ticks_per_second();
    let secs = raw.checked_div_euclid(ticks).unwrap();
    let rem = raw.checked_rem_euclid(ticks).unwrap();
    let per_tick = unit.nanos_per_tick();
    assert(0 <= rem < ticks);
    assert(rem * per_tick < NANOS_PER_SECOND) by (nonlinear_arith)
        requires
            0 <= rem < ticks,
            per_tick * ticks == 1_000_000_000,
            per_tick > 0,
    ;
    assert(0 <= rem * per_tick) by (nonlinear_arith)
        requires
            0 <= rem,
            per_tick > 0,
    ;
    let nanos: u32 = (rem * per_tick) as u32;
    let shifted = match secs.checked_add(scheme.origin_offset_seconds()) {
        Some(v) => v,
        None => {
            return Err(ConversionError::Overflow);
        },
    };
    match unix_seconds_to_datetime(shifted) {
        Some(c) => Ok(CalendarDateTime { nanosecond: nanos, ..c }),
        None => Err(ConversionError::OutOfRange),
    }
}

} // verus!

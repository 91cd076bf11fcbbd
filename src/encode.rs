use crate::calendar::CalendarDateTime;
use crate::convert::fits_i64;
use crate::epoch::Epoch;
use crate::laws::lemma_ticks_split;
use vstd::prelude::*;

verus! {

/// Nanoseconds that one tick of the scheme's unit lasts.
pub open spec fn tick_nanos(scheme: Epoch) -> int {
    scheme.spec_unit().spec_nanos_per_tick()
}

/// The count of whole ticks from the scheme's origin to `c`, rounded toward
/// negative infinity: the inverse of decoding.
pub open spec fn ticks_since_origin(scheme: Epoch, c: CalendarDateTime) -> int {
    (c.nanos_since_epoch() - scheme.spec_origin().nanos_since_epoch()) / tick_nanos(scheme)
}

/// `c` cut down to the scheme's granularity.
pub open spec fn truncated(scheme: Epoch, c: CalendarDateTime) -> CalendarDateTime {
    CalendarDateTime {
        nanosecond: ((c.nanosecond as int / tick_nanos(scheme)) * tick_nanos(scheme)) as u32,
        ..c
    }
}

/// The count of whole ticks of the scheme's unit from its origin to `c`,
/// rounded toward negative infinity, or `None` where it does not fit in 64 bits.
pub fn to_raw(scheme: Epoch, c: &CalendarDateTime) -> (r: Option<i64>)
    requires
        c.wf(),
    ensures
        r.is_some() <==> fits_i64(ticks_since_origin(scheme, *c)),
        r matches Some(v) ==> v == ticks_since_origin(scheme, *c),
{
    proof {
        lemma_ticks_split(scheme, *c);
    }
    let unit = scheme.unit();
    let secs = c.to_unix_seconds() - scheme.origin_offset_seconds();
    let within = (c.nanosecond as i64) / unit.nanos_per_tick();
    let ticks = unit.ticks_per_second();
    assert(-10_000_000_000_000_000_000_000_000_000 <= secs * ticks <= 10_000_000_000_000_000_000_000_000_000)
        by (nonlinear_arith)
        requires
            i64::MIN <= secs <= i64::MAX,
            1 <= ticks <= 1_000_000_000,
    ;
    let wide = (secs as i128) * (ticks as i128) + within as i128;
    if i64::MIN as i128 <= wide && wide <= i64::MAX as i128 {
        Some(wide as i64)
    } else {
        None
    }
}

} // verus!

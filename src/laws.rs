use crate::calendar::{first_day, last_day, lemma_date_order, CalendarDateTime, MAX_YEAR, MIN_YEAR};
use crate::convert::{decodable, decodes_to, sub_second_nanos, unix_seconds, whole_seconds};
use crate::encode::{tick_nanos, ticks_since_origin, truncated};
use crate::epoch::{Epoch, TimeUnit};
use vstd::arithmetic::div_mod::lemma_fundamental_div_mod;
use vstd::arithmetic::div_mod::lemma_fundamental_div_mod_converse;
use vstd::arithmetic::div_mod::lemma_mod_bound;
use vstd::prelude::*;

verus! {

proof fn lemma_unit_facts(u: TimeUnit)
    ensures
        u.spec_ticks_per_second() > 0,
        u.spec_nanos_per_tick() > 0,
        u.spec_ticks_per_second() * u.spec_nanos_per_tick() == 1_000_000_000,
{
}

/// The instant that a decoded count stands for is the origin plus the count
/// times the length of one tick.
pub proof fn lemma_decoded_instant(scheme: Epoch, raw: int, c: CalendarDateTime)
    requires
        decodes_to(scheme, raw, c),
    ensures
        c.nanos_since_epoch() == scheme.spec_origin().nanos_since_epoch() + raw * tick_nanos(
            scheme,
        ),
{
    let u = scheme.spec_unit();
    let tps = u.spec_ticks_per_second();
    let npt = u.spec_nanos_per_tick();
    lemma_unit_facts(u);
    lemma_fundamental_div_mod(raw, tps);
    let q = raw / tps;
    let r = raw % tps;
    let off = scheme.spec_origin().seconds_since_epoch();
    assert(scheme.spec_origin().nanos_since_epoch() == 0);
    assert(off == 0);
    assert(c.nanos_since_epoch() == q * 1_000_000_000 + r * npt);
    assert(q * 1_000_000_000 + r * npt == raw * npt) by (nonlinear_arith)
        requires
            raw == tps * q + r,
            tps * npt == 1_000_000_000,
    ;
}

/// A count of zero decodes, and to the scheme's origin.
pub proof fn lemma_zero_decodes_to_origin(scheme: Epoch, c: CalendarDateTime)
    ensures
        decodable(scheme, 0),
        decodes_to(scheme, 0, c) ==> c == scheme.spec_origin(),
{
    lemma_unit_facts(scheme.spec_unit());
    assert(whole_seconds(scheme, 0) == 0);
    assert(unix_seconds(scheme, 0) == 0);
    if decodes_to(scheme, 0, c) {
        lemma_decoded_instant(scheme, 0, c);
        c.lemma_order_matches_instants(scheme.spec_origin());
    }
}

/// A count decodes to at most one date-time, so decoding the same count
/// twice gives the same result.
pub proof fn lemma_decoding_is_unique(
    scheme: Epoch,
    raw: int,
    a: CalendarDateTime,
    b: CalendarDateTime,
)
    requires
        decodes_to(scheme, raw, a),
        decodes_to(scheme, raw, b),
    ensures
        a == b,
{
    lemma_decoded_instant(scheme, raw, a);
    lemma_decoded_instant(scheme, raw, b);
    a.lemma_order_matches_instants(b);
}

/// A larger count decodes to a later date-time in calendar order.
pub proof fn lemma_decoding_is_monotonic(
    scheme: Epoch,
    raw1: int,
    raw2: int,
    a: CalendarDateTime,
    b: CalendarDateTime,
)
    requires
        raw1 < raw2,
        decodes_to(scheme, raw1, a),
        decodes_to(scheme, raw2, b),
    ensures
        a.precedes(b),
{
    lemma_unit_facts(scheme.spec_unit());
    lemma_decoded_instant(scheme, raw1, a);
    lemma_decoded_instant(scheme, raw2, b);
    let npt = tick_nanos(scheme);
    assert(raw1 * npt < raw2 * npt) by (nonlinear_arith)
        requires
            raw1 < raw2,
            npt > 0,
    ;
    a.lemma_order_matches_instants(b);
}

/// Every well-formed date-time falls within the representable days.
pub proof fn lemma_wf_day_in_range(c: CalendarDateTime)
    requires
        c.wf(),
    ensures
        first_day() <= c.day_number() <= last_day(),
{
    let (y, m, d) = (c.year as int, c.month as int, c.day as int);
    if y != MIN_YEAR || m != 1 || d != 1 {
        lemma_date_order(MIN_YEAR as int, 1, 1, y, m, d);
    }
    if y != MAX_YEAR || m != 12 || d != 31 {
        lemma_date_order(y, m, d, MAX_YEAR as int, 12, 31);
    }
}

/// Whole ticks since the scheme's origin are the whole seconds times the
/// ticks per second plus the whole ticks within the second.
pub proof fn lemma_ticks_split(scheme: Epoch, c: CalendarDateTime)
    requires
        c.wf(),
    ensures
        ticks_since_origin(scheme, c) == c.seconds_since_epoch()
            * scheme.spec_unit().spec_ticks_per_second() + c.nanosecond as int / tick_nanos(scheme),
        0 <= c.nanosecond as int / tick_nanos(scheme) < scheme.spec_unit().spec_ticks_per_second(),
{
    let u = scheme.spec_unit();
    let tps = u.spec_ticks_per_second();
    let npt = u.spec_nanos_per_tick();
    lemma_unit_facts(u);
    let s = c.seconds_since_epoch();
    let n = c.nanosecond as int;
    assert(scheme.spec_origin().nanos_since_epoch() == 0);
    lemma_fundamental_div_mod(n, npt);
    lemma_mod_bound(n, npt);
    let k = n / npt;
    let rest = n % npt;
    assert(0 <= k < tps) by (nonlinear_arith)
        requires
            n == npt * k + rest,
            0 <= rest < npt,
            0 <= n < 1_000_000_000,
            tps * npt == 1_000_000_000,
            npt > 0,
    ;
    assert(c.nanos_since_epoch() == (s * tps + k) * npt + rest) by (nonlinear_arith)
        requires
            c.nanos_since_epoch() == s * 1_000_000_000 + n,
            n == npt * k + rest,
            tps * npt == 1_000_000_000,
    ;
    lemma_fundamental_div_mod_converse(c.nanos_since_epoch(), npt, s * tps + k, rest);
}

/// Encoding a date-time as whole ticks since the scheme's origin and decoding
/// that count gives the date-time back, cut down to the scheme's granularity.
pub proof fn lemma_round_trip(scheme: Epoch, c: CalendarDateTime, d: CalendarDateTime)
    requires
        c.wf(),
    ensures
        decodable(scheme, ticks_since_origin(scheme, c)),
        decodes_to(scheme, ticks_since_origin(scheme, c), d) ==> d == truncated(scheme, c),
{
    let u = scheme.spec_unit();
    let tps = u.spec_ticks_per_second();
    let npt = u.spec_nanos_per_tick();
    lemma_unit_facts(u);
    lemma_wf_day_in_range(c);
    lemma_ticks_split(scheme, c);
    let s = c.seconds_since_epoch();
    let k = c.nanosecond as int / npt;
    let raw = ticks_since_origin(scheme, c);
    lemma_fundamental_div_mod_converse(raw, tps, s, k);
    assert(whole_seconds(scheme, raw) == s);
    assert(sub_second_nanos(scheme, raw) == k * npt);
    assert(unix_seconds(scheme, raw) == s);
    assert(0 <= c.second_of_day() < 86400) by (nonlinear_arith)
        requires
            c.hour < 24 && c.minute < 60 && c.second < 60,
            c.second_of_day() == c.hour * 3600 + c.minute * 60 + c.second,
    ;
    lemma_fundamental_div_mod_converse(s, 86400, c.day_number(), c.second_of_day());
    assert(decodable(scheme, raw));
    let t = truncated(scheme, c);
    assert(0 <= k * npt < 1_000_000_000) by (nonlinear_arith)
        requires
            0 <= k < tps,
            tps * npt == 1_000_000_000,
            npt > 0,
    ;
    assert(t.wf());
    if decodes_to(scheme, raw, d) {
        assert(d.nanos_since_epoch() == t.nanos_since_epoch());
        d.lemma_order_matches_instants(t);
    }
}

/// The extreme counts of the nanosecond scheme both decode.
pub proof fn lemma_nanosecond_extremes_decode()
    ensures
        decodable(Epoch::Apfs, i64::MAX as int),
        decodable(Epoch::Apfs, i64::MIN as int),
{
}

} // verus!

use vstd::arithmetic::div_mod::lemma_fundamental_div_mod;
use vstd::arithmetic::div_mod::lemma_fundamental_div_mod_converse;
use vstd::arithmetic::div_mod::lemma_mod_bound;
use vstd::prelude::*;

verus! {

/// Earliest year a decoded date-time can carry.
pub const MIN_YEAR: i32 = -262143;

/// Latest year a decoded date-time can carry.
pub const MAX_YEAR: i32 = 262142;

pub const SECONDS_PER_DAY: i64 = 86400;

pub const NANOS_PER_SECOND: i64 = 1_000_000_000;

/// A date and time of day in the proleptic Gregorian calendar, without time zone.
///
/// The derived order compares the fields from the year down to the nanosecond,
/// which is the calendar order `precedes` below.
#[derive(Clone, Copy, Debug, PartialEq, Eq, Structural, PartialOrd, Ord, Hash)]
pub struct CalendarDateTime {
    pub year: i32,
    pub month: u32,
    pub day: u32,
    pub hour: u32,
    pub minute: u32,
    pub second: u32,
    pub nanosecond: u32,
}

pub open spec fn is_leap_year(y: int) -> bool {
    (y % 4 == 0 && y % 100 != 0) || y % 400 == 0
}

pub open spec fn leap_day(y: int) -> int {
    if is_leap_year(y) {
        1
    } else {
        0
    }
}

pub open spec fn days_in_month(y: int, m: int) -> int {
    if m == 2 {
        28 + leap_day(y)
    } else if m == 4 || m == 6 || m == 9 || m == 11 {
        30
    } else {
        31
    }
}

/// Number of leap years among the years before `y`, counted from year 1
/// (negative for years before it).
pub open spec fn leaps_before(y: int) -> int {
    (y - 1) / 4 - (y - 1) / 100 + (y - 1) / 400
}

/// Days from 1970-01-01 to January 1 of year `y`.
pub open spec fn days_before_year(y: int) -> int {
    365 * (y - 1970) + leaps_before(y) - leaps_before(1970)
}

/// Days from January 1 to the first of month `m` (1 to 12) in year `y`.
pub open spec fn days_before_month(y: int, m: int) -> int {
    let common: int = if m == 1 {
        0
    } else if m == 2 {
        31
    } else if m == 3 {
        59
    } else if m == 4 {
        90
    } else if m == 5 {
        120
    } else if m == 6 {
        151
    } else if m == 7 {
        181
    } else if m == 8 {
        212
    } else if m == 9 {
        243
    } else if m == 10 {
        273
    } else if m == 11 {
        304
    } else {
        334
    };
    if m > 2 {
        common + leap_day(y)
    } else {
        common
    }
}

/// Days from 1970-01-01 to the date `y-m-d`.
pub open spec fn day_number(y: int, m: int, d: int) -> int {
    days_before_year(y) + days_before_month(y, m) + d - 1
}

/// First and last day numbers that a date-time can fall on.
pub open spec fn first_day() -> int {
    day_number(MIN_YEAR as int, 1, 1)
}

pub open spec fn last_day() -> int {
    day_number(MAX_YEAR as int, 12, 31)
}

/// Whether a whole number of seconds since 1970-01-01T00:00:00 falls on a
/// representable date.
pub open spec fn seconds_in_range(t: int) -> bool {
    first_day() <= t / (SECONDS_PER_DAY as int) <= last_day()
}

/// Leap years before `y`, as `leaps_before` counts them.
fn count_leaps_before(y: i32) -> (r: i64)
    requires
        MIN_YEAR <= y <= MAX_YEAR,
    ensures
        r == leaps_before(y as int),
        -70000 <= r <= 70000,
{
    let p = y as i64 - 1;
    let a = p.checked_div_euclid(4).unwrap();
    let b = p.checked_div_euclid(100).unwrap();
    let c = p.checked_div_euclid(400).unwrap();
    a - b + c
}

/// Whether `y` is a leap year of the Gregorian calendar.
fn leap_year(y: i32) -> (r: bool)
    ensures
        r == is_leap_year(y as int),
{
    let y = y as i64;
    let r4 = y.checked_rem_euclid(4).unwrap();
    let r100 = y.checked_rem_euclid(100).unwrap();
    let r400 = y.checked_rem_euclid(400).unwrap();
    (r4 == 0 && r100 != 0) || r400 == 0
}

/// Days from January 1 to the first of month `m` in year `y`.
fn month_start(y: i32, m: u32) -> (r: i64)
    requires
        1 <= m <= 12,
    ensures
        r == days_before_month(y as int, m as int),
{
    let common: i64 = match m {
        1 => 0,
        2 => 31,
        3 => 59,
        4 => 90,
        5 => 120,
        6 => 151,
        7 => 181,
        8 => 212,
        9 => 243,
        10 => 273,
        11 => 304,
        _ => 334,
    };
    if m > 2 && leap_year(y) {
        common + 1
    } else {
        common
    }
}

impl CalendarDateTime {
    /// Every field lies within its calendar bounds.
    pub open spec fn wf(self) -> bool {
        &&& MIN_YEAR <= self.year <= MAX_YEAR
        &&& 1 <= self.month <= 12
        &&& 1 <= self.day <= days_in_month(self.year as int, self.month as int)
        &&& self.hour < 24
        &&& self.minute < 60
        &&& self.second < 60
        &&& self.nanosecond < NANOS_PER_SECOND
    }

    pub open spec fn day_number(self) -> int {
        day_number(self.year as int, self.month as int, self.day as int)
    }

    pub open spec fn second_of_day(self) -> int {
        self.hour * 3600 + self.minute * 60 + self.second
    }

    /// Whole seconds since 1970-01-01T00:00:00.
    pub open spec fn seconds_since_epoch(self) -> int {
        self.day_number() * (SECONDS_PER_DAY as int) + self.second_of_day()
    }

    /// Nanoseconds since 1970-01-01T00:00:00.
    pub open spec fn nanos_since_epoch(self) -> int {
        self.seconds_since_epoch() * (NANOS_PER_SECOND as int) + self.nanosecond
    }

    /// Calendar order: year first, then month, day, hour, minute, second, nanosecond.
    pub open spec fn precedes(self, other: Self) -> bool {
        if self.year != other.year {
            self.year < other.year
        } else if self.month != other.month {
            self.month < other.month
        } else if self.day != other.day {
            self.day < other.day
        } else if self.hour != other.hour {
            self.hour < other.hour
        } else if self.minute != other.minute {
            self.minute < other.minute
        } else if self.second != other.second {
            self.second < other.second
        } else {
            self.nanosecond < other.nanosecond
        }
    }

    /// Whole seconds since 1970-01-01T00:00:00.
    pub fn to_unix_seconds(&self) -> (r: i64)
        requires
            self.wf(),
        ensures
            r == self.seconds_since_epoch(),
    {
        let days = 365 * (self.year as i64 - 1970) + count_leaps_before(self.year) - count_leaps_before(
            1970,
        ) + month_start(self.year, self.month) + self.day as i64 - 1;
        days * SECONDS_PER_DAY + self.hour as i64 * 3600 + self.minute as i64 * 60
            + self.second as i64
    }

    /// 1970-01-01T00:00:00.
    pub fn unix_epoch() -> (r: Self)
        ensures
            r.wf(),
            r.nanos_since_epoch() == 0,
            r == (CalendarDateTime {
                year: 1970,
                month: 1,
                day: 1,
                hour: 0,
                minute: 0,
                second: 0,
                nanosecond: 0,
            }),
    {
        CalendarDateTime { year: 1970, month: 1, day: 1, hour: 0, minute: 0, second: 0, nanosecond: 0 }
    }
}


proof fn lemma_div_step(y: int, k: int)
    requires
        k > 0,
    ensures
        y / k - (y - 1) / k == (if y % k == 0 { 1int } else { 0int }),
{
    lemma_fundamental_div_mod(y, k);
    lemma_mod_bound(y, k);
    let q = y / k;
    if y % k == 0 {
        assert(y - 1 == (q - 1) * k + (k - 1)) by (nonlinear_arith)
            requires
                y == k * q + 0,
        ;
        lemma_fundamental_div_mod_converse(y - 1, k, q - 1, k - 1);
    } else {
        let r = y % k;
        assert(y - 1 == q * k + (r - 1)) by (nonlinear_arith)
            requires
                y == k * q + r,
        ;
        lemma_fundamental_div_mod_converse(y - 1, k, q, r - 1);
    }
}

proof fn lemma_divides_by_factor(y: int, big: int, small: int, ratio: int)
    requires
        small > 0,
        ratio > 0,
        big > 0,
        big == small * ratio,
        y % big == 0,
    ensures
        y % small == 0,
{
    lemma_fundamental_div_mod(y, big);
    let q = y / big;
    assert(y == (ratio * q) * small + 0) by (nonlinear_arith)
        requires
            y == big * q + 0,
            big == small * ratio,
    ;
    lemma_fundamental_div_mod_converse(y, small, ratio * q, 0);
}

/// A year has 365 days, 366 in a leap year.
pub proof fn lemma_year_length(y: int)
    ensures
        days_before_year(y + 1) == days_before_year(y) + 365 + leap_day(y),
{
    lemma_div_step(y, 4);
    lemma_div_step(y, 100);
    lemma_div_step(y, 400);
    if y % 400 == 0 {
        lemma_divides_by_factor(y, 400, 100, 4);
    }
    if y % 100 == 0 {
        lemma_divides_by_factor(y, 100, 4, 25);
    }
}

proof fn lemma_year_starts_ordered(y1: int, y2: int)
    requires
        y1 < y2,
    ensures
        days_before_year(y1) + 365 + leap_day(y1) <= days_before_year(y2),
    decreases y2 - y1,
{
    lemma_year_length(y1);
    if y1 + 1 < y2 {
        lemma_year_starts_ordered(y1 + 1, y2);
    }
}

proof fn lemma_month_within_year(y: int, m1: int, m2: int)
    requires
        1 <= m1 <= 12,
        1 <= m2 <= 12,
    ensures
        days_before_month(y, m1) >= 0,
        days_before_month(y, m1) + days_in_month(y, m1) <= 365 + leap_day(y),
        m1 < m2 ==> days_before_month(y, m1) + days_in_month(y, m1) <= days_before_month(y, m2),
{
}

/// Earlier calendar dates have smaller day numbers.
pub proof fn lemma_date_order(y1: int, m1: int, d1: int, y2: int, m2: int, d2: int)
    requires
        1 <= m1 <= 12,
        1 <= m2 <= 12,
        1 <= d1 <= days_in_month(y1, m1),
        1 <= d2 <= days_in_month(y2, m2),
        y1 < y2 || (y1 == y2 && m1 < m2) || (y1 == y2 && m1 == m2 && d1 < d2),
    ensures
        day_number(y1, m1, d1) < day_number(y2, m2, d2),
{
    lemma_month_within_year(y1, m1, m2);
    lemma_month_within_year(y2, m2, m1);
    if y1 < y2 {
        lemma_year_starts_ordered(y1, y2);
    }
}

impl CalendarDateTime {
    /// A date-time that comes first in calendar order is the earlier instant.
    pub proof fn lemma_precedes_is_earlier(self, other: Self)
        requires
            self.wf(),
            other.wf(),
            self.precedes(other),
        ensures
            self.nanos_since_epoch() < other.nanos_since_epoch(),
    {
        let (a, b) = (self, other);
        let day = SECONDS_PER_DAY as int;
        let ns = NANOS_PER_SECOND as int;
        let (da, db) = (a.day_number(), b.day_number());
        let (sa, sb) = (a.second_of_day(), b.second_of_day());
        assert(0 <= sa < day && 0 <= sb < day) by (nonlinear_arith)
            requires
                a.hour < 24 && a.minute < 60 && a.second < 60,
                b.hour < 24 && b.minute < 60 && b.second < 60,
                sa == a.hour * 3600 + a.minute * 60 + a.second,
                sb == b.hour * 3600 + b.minute * 60 + b.second,
                day == 86400,
        ;
        if a.year != b.year || a.month != b.month || a.day != b.day {
            lemma_date_order(
                a.year as int,
                a.month as int,
                a.day as int,
                b.year as int,
                b.month as int,
                b.day as int,
            );
            assert(a.nanos_since_epoch() < b.nanos_since_epoch()) by (nonlinear_arith)
                requires
                    da < db,
                    0 <= sa < day,
                    0 <= sb < day,
                    0 <= a.nanosecond < ns,
                    0 <= b.nanosecond,
                    ns > 0,
                    day > 0,
                    a.nanos_since_epoch() == (da * day + sa) * ns + a.nanosecond,
                    b.nanos_since_epoch() == (db * day + sb) * ns + b.nanosecond,
            ;
        } else {
            assert(sa <= sb);
            assert(sa < sb || a.nanosecond < b.nanosecond);
            assert(a.nanos_since_epoch() < b.nanos_since_epoch()) by (nonlinear_arith)
                requires
                    da == db,
                    sa < sb || (sa == sb && a.nanosecond < b.nanosecond),
                    0 <= a.nanosecond < ns,
                    0 <= b.nanosecond,
                    ns > 0,
                    a.nanos_since_epoch() == (da * day + sa) * ns + a.nanosecond,
                    b.nanos_since_epoch() == (db * day + sb) * ns + b.nanosecond,
            ;
        }
    }

    /// Calendar order agrees with the order of instants, and distinct
    /// date-times are distinct instants.
    pub proof fn lemma_order_matches_instants(self, other: Self)
        requires
            self.wf(),
            other.wf(),
        ensures
            self.precedes(other) <==> self.nanos_since_epoch() < other.nanos_since_epoch(),
            self == other <==> self.nanos_since_epoch() == other.nanos_since_epoch(),
    {
        if self.precedes(other) {
            self.lemma_precedes_is_earlier(other);
        }
        if other.precedes(self) {
            other.lemma_precedes_is_earlier(self);
        }
        assert(self.precedes(other) || other.precedes(self) || self == other);
    }
}

} // verus!

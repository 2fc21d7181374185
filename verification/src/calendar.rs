//! Calendar arithmetic: the proleptic Gregorian date of a day count, and
//! its proof against a direct definition of the calendar.
use vstd::prelude::*;

verus! {

/// Whether `y` is a leap year of the Gregorian calendar.
pub open spec fn is_leap(y: int) -> bool {
    y % 4 == 0 && (y % 100 != 0 || y % 400 == 0)
}

/// Number of days of month `m` (1..=12) of year `y`.
pub open spec fn days_in_month(y: int, m: int) -> int {
    if m == 2 {
        if is_leap(y) { 29 } else { 28 }
    } else if m == 4 || m == 6 || m == 9 || m == 11 {
        30
    } else {
        31
    }
}

/// Days of year `y` before the first day of month `m` (1..=12).
pub open spec fn days_before_month(y: int, m: int) -> int {
    let base = if m == 1 {
        0int
    } else if m == 2 {
        31
    } else if m == 3 {
        59
    } else if m == 4 {
        90
    } else if m == 5 {
        120
    } else if m == 6 {
        151
    } else if m == 7 {
        181
    } else if m == 8 {
        212
    } else if m == 9 {
        243
    } else if m == 10 {
        273
    } else if m == 11 {
        304
    } else {
        334
    };
    if m > 2 && is_leap(y) { base + 1 } else { base }
}

/// Leap years among the years `1..y` (counting negatively below year one).
pub open spec fn leap_years_before(y: int) -> int {
    (y - 1) / 4 - (y - 1) / 100 + (y - 1) / 400
}

/// Days from 1970-01-01 to January 1 of year `y` (negative before 1970).
pub open spec fn days_before_year(y: int) -> int {
    365 * (y - 1970) + leap_years_before(y) - leap_years_before(1970)
}

/// Days from 1970-01-01 to the date `y-m-d`.
pub open spec fn days_from_civil(y: int, m: int, d: int) -> int {
    days_before_year(y) + days_before_month(y, m) + d - 1
}

/// `y-m-d` is a date of the calendar.
pub open spec fn valid_date(y: int, m: int, d: int) -> bool {
    1 <= m <= 12 && 1 <= d <= days_in_month(y, m)
}

/// The date `n` days after 1970-01-01 (before it when `n` is negative).
pub open spec fn civil_date(n: int) -> (int, int, int) {
    choose|ymd: (int, int, int)| valid_date(ymd.0, ymd.1, ymd.2) && days_from_civil(ymd.0, ymd.1, ymd.2) == n
}

/// Start of March-based year `k` of a 400-year era, in days from the era's
/// first March 1.
spec fn era_year_start(k: int) -> int {
    365 * k + k / 4 - k / 100
}

/// Length of month `mp` of a March-based year (0 is March, 11 February).
spec fn march_month_len(mp: int, leap: bool) -> int {
    if mp == 11 {
        if leap { 29 } else { 28 }
    } else if mp == 1 || mp == 3 || mp == 6 || mp == 8 {
        30
    } else {
        31
    }
}

proof fn year_of_era(doe: int)
    requires
        0 <= doe < 146097,
    ensures
        ({
            let yoe = (doe - doe / 1460 + doe / 36524 - doe / 146096) / 365;
            &&& 0 <= yoe <= 399
            &&& era_year_start(yoe) <= doe
            &&& doe - era_year_start(yoe) <= 364 + (if is_leap(yoe + 1) { 1int } else { 0 })
        }),
{
}

proof fn month_of_year(doy: int, leap: bool)
    requires
        0 <= doy <= 364 + (if leap { 1int } else { 0 }),
    ensures
        ({
            let mp = (5 * doy + 2) / 153;
            let d = doy - (153 * mp + 2) / 5 + 1;
            &&& 0 <= mp <= 11
            &&& 1 <= d <= march_month_len(mp, leap)
        }),
{
}

/// The date of day number `n` computed by eras of 400 years starting on
/// March 1 (days are counted from 1970-01-01).
spec fn civil_by_eras(n: int) -> (int, int, int) {
    let z = n + 719468;
    let era = z / 146097;
    let doe = z - era * 146097;
    let yoe = (doe - doe / 1460 + doe / 36524 - doe / 146096) / 365;
    let y = yoe + era * 400;
    let doy = doe - era_year_start(yoe);
    let mp = (5 * doy + 2) / 153;
    let d = doy - (153 * mp + 2) / 5 + 1;
    let m = if mp < 10 { mp + 3 } else { mp - 9 };
    (if m <= 2 { y + 1 } else { y }, m, d)
}

proof fn leap_shift(era: int, k: int)
    ensures
        is_leap(400 * era + k) == is_leap(k),
        (400 * era + k) / 4 == 100 * era + k / 4,
        (400 * era + k) / 100 == 4 * era + k / 100,
        (400 * era + k) / 400 == era + k / 400,
{
    assert((400 * era + k) % 4 == k % 4) by (nonlinear_arith);
    assert((400 * era + k) % 100 == k % 100) by (nonlinear_arith);
    assert((400 * era + k) % 400 == k % 400) by (nonlinear_arith);
    assert((400 * era + k) / 4 == 100 * era + k / 4) by (nonlinear_arith);
    assert((400 * era + k) / 100 == 4 * era + k / 100) by (nonlinear_arith);
    assert((400 * era + k) / 400 == era + k / 400) by (nonlinear_arith);
}

proof fn civil_by_eras_correct(n: int)
    ensures
        ({
            let (y, m, d) = civil_by_eras(n);
            valid_date(y, m, d) && days_from_civil(y, m, d) == n
        }),
{
    let z = n + 719468;
    let era = z / 146097;
    let doe = z - era * 146097;
    assert(0 <= doe < 146097);
    year_of_era(doe);
    let yoe = (doe - doe / 1460 + doe / 36524 - doe / 146096) / 365;
    let y = yoe + era * 400;
    let doy = doe - era_year_start(yoe);
    let leap_next = is_leap(yoe + 1);
    month_of_year(doy, leap_next);
    let mp = (5 * doy + 2) / 153;
    let d = doy - (153 * mp + 2) / 5 + 1;
    let m = if mp < 10 { mp + 3 } else { mp - 9 };
    leap_shift(era, yoe);
    leap_shift(era, yoe - 1);
    leap_shift(era, yoe + 1);
    if m <= 2 {
        let yy = y + 1;
        assert(yy == 400 * era + (yoe + 1));
        assert(is_leap(yy) == leap_next);
        assert(yy - 1 == 400 * era + yoe);
        assert(leap_years_before(yy) == 97 * era + yoe / 4 - yoe / 100 + yoe / 400);
        assert(yoe / 400 == 0);
        assert(leap_years_before(1970) == 477);
        assert(days_from_civil(yy, m, d) == n);
    } else {
        assert(y == 400 * era + yoe);
        assert(is_leap(y) == is_leap(yoe));
        assert(y - 1 == 400 * era + (yoe - 1));
        assert(leap_years_before(y) == 97 * era + (yoe - 1) / 4 - (yoe - 1) / 100 + (yoe - 1) / 400);
        assert(leap_years_before(1970) == 477);
        assert(yoe / 4 - yoe / 100 == (yoe - 1) / 4 - (yoe - 1) / 100 + (yoe - 1) / 400 + (if is_leap(
            yoe,
        ) { 1int } else { 0 }));
        assert(days_from_civil(y, m, d) == n);
    }
}


proof fn year_length(y: int)
    ensures
        days_before_year(y + 1) == days_before_year(y) + 365 + (if is_leap(y) { 1int } else { 0 }),
{
}

proof fn years_increase(a: int, b: int)
    requires
        a < b,
    ensures
        days_before_year(a) + 365 <= days_before_year(b),
{
}

proof fn date_within_year(y: int, m: int, d: int)
    requires
        valid_date(y, m, d),
    ensures
        days_before_year(y) <= days_from_civil(y, m, d) < days_before_year(y + 1),
{
    year_length(y);
}

/// Distinct dates have distinct day numbers.
pub proof fn days_from_civil_injective(a: (int, int, int), b: (int, int, int))
    requires
        valid_date(a.0, a.1, a.2),
        valid_date(b.0, b.1, b.2),
        days_from_civil(a.0, a.1, a.2) == days_from_civil(b.0, b.1, b.2),
    ensures
        a == b,
{
    date_within_year(a.0, a.1, a.2);
    date_within_year(b.0, b.1, b.2);
    if a.0 < b.0 {
        years_increase(a.0 + 1, b.0 + 1);
        if a.0 + 1 < b.0 {
            years_increase(a.0 + 1, b.0);
        }
    } else if b.0 < a.0 {
        if b.0 + 1 < a.0 {
            years_increase(b.0 + 1, a.0);
        }
    }
    assert(a.0 == b.0);
}

proof fn civil_date_props(n: int)
    ensures
        valid_date(civil_date(n).0, civil_date(n).1, civil_date(n).2),
        days_from_civil(civil_date(n).0, civil_date(n).1, civil_date(n).2) == n,
        civil_date(n) == civil_by_eras(n),
{
    civil_by_eras_correct(n);
    let w = civil_by_eras(n);
    assert(valid_date(w.0, w.1, w.2) && days_from_civil(w.0, w.1, w.2) == n);
    let c = civil_date(n);
    days_from_civil_injective(c, w);
}

/// Every day number is the day number of a date (exactly one, by
/// `days_from_civil_injective`): `civil_date` is a valid date whose day
/// number is `n`.
pub proof fn civil_date_is_the_date(n: int)
    ensures
        valid_date(civil_date(n).0, civil_date(n).1, civil_date(n).2),
        days_from_civil(civil_date(n).0, civil_date(n).1, civil_date(n).2) == n,
{
    civil_date_props(n);
}

/// Days on or after 1970-01-01 fall in the year 1970 or later.
pub proof fn days_since_epoch_are_in_epoch_years(n: int)
    requires
        n >= 0,
    ensures
        civil_date(n).0 >= 1970,
{
    civil_date_props(n);
    let (y, m, d) = civil_date(n);
    date_within_year(y, m, d);
    if y < 1969 {
        years_increase(y + 1, 1970);
    }
}

/// The date (year, month, day) of day number `n` (days after 1970-01-01;
/// negative before it), for `|n|` within `2^40`.
pub fn civil_from_days(n: i64) -> (r: (i64, u32, u32))
    requires
        -0x100_0000_0000 <= n <= 0x100_0000_0000,
    ensures
        (r.0 as int, r.1 as int, r.2 as int) == civil_date(n as int),
        -0x100_0000_0000 <= r.0 <= 0x100_0000_0000,
{
    proof {
        civil_date_props(n as int);
    }
    let z: i64 = n + 719468;
    let era: i64 = if z >= 0 {
        ((z as u64) / 146097) as i64
    } else {
        let q = (((0 - z) as u64) + 146096) / 146097;
        0 - (q as i64)
    };
    assert(era == (z as int) / 146097);
    let doe: u64 = (z - era * 146097) as u64;
    proof {
        year_of_era(doe as int);
    }
    let yoe: u64 = (doe - doe / 1460 + doe / 36524 - doe / 146096) / 365;
    let y: i64 = (yoe as i64) + era * 400;
    let doy: u64 = doe - (365 * yoe + yoe / 4 - yoe / 100);
    proof {
        month_of_year(doy as int, is_leap(yoe + 1));
    }
    let mp: u64 = (5 * doy + 2) / 153;
    let d: u64 = doy - (153 * mp + 2) / 5 + 1;
    let m: u64 = if mp < 10 { mp + 3 } else { mp - 9 };
    let year: i64 = if m <= 2 { y + 1 } else { y };
    (year, m as u32, d as u32)
}

} // verus!

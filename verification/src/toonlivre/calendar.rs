//! Calendar laws of the day-count conversion: every day count names a valid
//! proleptic Gregorian date, and the next day count names the next date.

use crate::toonlivre::utils::civil_of_days;
use vstd::prelude::*;

verus! {

/// Whether `y` is a leap year of the proleptic Gregorian calendar.
pub open spec fn is_leap_year(y: int) -> bool {
    y % 4 == 0 && (y % 100 != 0 || y % 400 == 0)
}

/// The number of days of month `m` (1 to 12) of year `y`.
pub open spec fn days_in_month(y: int, m: int) -> int {
    if m == 2 {
        if is_leap_year(y) {
            29
        } else {
            28
        }
    } else if m == 4 || m == 6 || m == 9 || m == 11 {
        30
    } else {
        31
    }
}

/// The date that follows `(y, m, d)`: the next day of the month, else the
/// first of the next month, else the first of January of the next year.
pub open spec fn next_date(date: (int, int, int)) -> (int, int, int) {
    let (y, m, d) = date;
    if d < days_in_month(y, m) {
        (y, m, d + 1)
    } else if m < 12 {
        (y, m + 1, 1)
    } else {
        (y + 1, 1, 1)
    }
}

/// Days from the start of the 400-year era to the start of its year `y`
/// (years counted from March).
spec fn year_start(y: int) -> int {
    365 * y + y / 4 - y / 100
}

/// The length of year `y` of an era (counted from March), with the last
/// year of the era ending on a 29 February.
spec fn year_len(y: int) -> int {
    if y == 399 || ((y + 1) % 4 == 0 && (y + 1) % 100 != 0) {
        366
    } else {
        365
    }
}

spec fn year_of_era(doe: int) -> int {
    (doe - doe / 1460 + doe / 36524 - doe / 146096) / 365
}

proof fn lemma_year_of_era(doe: int)
    requires
        0 <= doe < 146097,
    ensures
        0 <= year_of_era(doe) <= 399,
        year_start(year_of_era(doe)) <= doe < year_start(year_of_era(doe)) + year_len(year_of_era(doe)),
{
}

proof fn lemma_year_order(a: int, b: int)
    requires
        0 <= a < b <= 399,
    ensures
        year_start(a) + year_len(a) <= year_start(b),
        b == a + 1 ==> year_start(a) + year_len(a) == year_start(b),
{
    assert(year_start(a) + year_len(a) == year_start(a + 1));
    assert(b / 4 >= (a + 1) / 4);
    assert(b / 100 - (a + 1) / 100 <= (b - a - 1) / 100 + 1);
}

/// Within an era, the next day is the next day of the same year, or the
/// first day of the next year after the last day of a year.
proof fn lemma_year_step(doe: int)
    requires
        0 <= doe < 146096,
    ensures
        ({
            let y = year_of_era(doe);
            let doy = doe - year_start(y);
            let y1 = year_of_era(doe + 1);
            let doy1 = doe + 1 - year_start(y1);
            if doy + 1 < year_len(y) {
                y1 == y && doy1 == doy + 1
            } else {
                y1 == y + 1 && doy1 == 0
            }
        }),
{
    lemma_year_of_era(doe);
    lemma_year_of_era(doe + 1);
    let y = year_of_era(doe);
    let y1 = year_of_era(doe + 1);
    if y < y1 {
        lemma_year_order(y, y1);
        if y + 1 < y1 {
            lemma_year_order(y + 1, y1);
        }
    } else if y1 < y {
        lemma_year_order(y1, y);
    }
}

/// The month index (from March) and day of a day of the year.
spec fn month_of_year(doy: int) -> (int, int) {
    let mp = (5 * doy + 2) / 153;
    (mp, doy - (153 * mp + 2) / 5 + 1)
}

/// The length of month index `mp` (0 is March, 11 is February).
spec fn month_len(mp: int, leap: bool) -> int {
    if mp == 11 {
        if leap {
            29
        } else {
            28
        }
    } else if mp == 1 || mp == 3 || mp == 6 || mp == 8 {
        30
    } else {
        31
    }
}

proof fn lemma_month_step(doy: int, len: int)
    requires
        0 <= doy < len,
        len == 365 || len == 366,
    ensures
        0 <= month_of_year(doy).0 <= 11,
        1 <= month_of_year(doy).1 <= month_len(month_of_year(doy).0, len == 366),
        doy + 1 < len ==> (if month_of_year(doy).1 < month_len(month_of_year(doy).0, len == 366) {
            month_of_year(doy + 1) == (month_of_year(doy).0, month_of_year(doy).1 + 1)
        } else {
            month_of_year(doy + 1) == (month_of_year(doy).0 + 1, 1int)
        }),
        doy + 1 == len ==> month_of_year(doy) == (11int, month_len(11int, len == 366)),
{
}

/// The era, the day of the era, the year of the era and the day of the year
/// of a day count (eras of 146097 days, years from March).
spec fn era_parts(days: int) -> (int, int, int, int) {
    let z = days + 719468;
    let era = z / 146097;
    let doe = z - era * 146097;
    let yoe = year_of_era(doe);
    (era, doe, yoe, doe - year_start(yoe))
}

proof fn lemma_era_parts(days: int)
    ensures
        ({
            let (era, doe, yoe, doy) = era_parts(days);
            &&& 0 <= doe < 146097
            &&& 0 <= yoe <= 399
            &&& 0 <= doy < year_len(yoe)
            &&& civil_of_days(days) == calendar_date(era * 400 + yoe, doy, year_len(yoe))
        }),
{
    let z = days + 719468;
    let era = z / 146097;
    let doe = z - era * 146097;
    assert(0 <= doe < 146097) by (nonlinear_arith)
        requires
            era == z / 146097,
            doe == z - era * 146097,
    ;
    lemma_year_of_era(doe);
}

/// The calendar date of day `doy` of the March-based year `y` of length `len`.
spec fn calendar_date(y: int, doy: int, len: int) -> (int, int, int) {
    let (mp, day) = month_of_year(doy);
    let month = if mp < 10 {
        mp + 3
    } else {
        mp - 9
    };
    (if month <= 2 {
        y + 1
    } else {
        y
    }, month, day)
}

proof fn lemma_leap_of_era_year(era: int, yoe: int)
    requires
        0 <= yoe <= 399,
    ensures
        is_leap_year(era * 400 + yoe + 1) <==> year_len(yoe) == 366,
{
    let k = yoe + 1;
    assert((era * 400 + k) % 4 == k % 4) by (nonlinear_arith);
    assert((era * 400 + k) % 100 == k % 100) by (nonlinear_arith);
    assert((era * 400 + k) % 400 == k % 400) by (nonlinear_arith);
}

proof fn lemma_date_valid(era: int, yoe: int, doy: int)
    requires
        0 <= yoe <= 399,
        0 <= doy < year_len(yoe),
    ensures
        ({
            let (y, m, d) = calendar_date(era * 400 + yoe, doy, year_len(yoe));
            &&& 1 <= m <= 12
            &&& days_in_month(y, m) == month_len(month_of_year(doy).0, year_len(yoe) == 366)
            &&& 1 <= d <= days_in_month(y, m)
        }),
{
    lemma_month_step(doy, year_len(yoe));
    lemma_leap_of_era_year(era, yoe);
}

/// Every day count names a valid date, and the day count after it names the
/// date after that one.
pub proof fn lemma_civil_next_day(days: int)
    ensures
        ({
            let (y, m, d) = civil_of_days(days);
            &&& 1 <= m <= 12
            &&& 1 <= d <= days_in_month(y, m)
            &&& civil_of_days(days + 1) == next_date((y, m, d))
        }),
{
    lemma_era_parts(days);
    lemma_era_parts(days + 1);
    let (era, doe, yoe, doy) = era_parts(days);
    let (era1, doe1, yoe1, doy1) = era_parts(days + 1);
    let len = year_len(yoe);
    lemma_date_valid(era, yoe, doy);
    lemma_month_step(doy, len);
    if doe < 146096 {
        assert(era1 == era && doe1 == doe + 1) by (nonlinear_arith)
            requires
                era == (days + 719468) / 146097,
                doe == days + 719468 - era * 146097,
                era1 == (days + 1 + 719468) / 146097,
                doe1 == days + 1 + 719468 - era1 * 146097,
                0 <= doe < 146096,
        ;
        lemma_year_step(doe);
        if doy + 1 == len {
            lemma_date_valid(era, yoe1, doy1);
            lemma_month_step(doy1, year_len(yoe1));
        }
    } else {
        assert(era1 == era + 1 && doe1 == 0) by (nonlinear_arith)
            requires
                era == (days + 719468) / 146097,
                doe == days + 719468 - era * 146097,
                era1 == (days + 1 + 719468) / 146097,
                doe1 == days + 1 + 719468 - era1 * 146097,
                doe == 146096,
        ;
        lemma_month_step(doy1, year_len(yoe1));
    }
}

} // verus!

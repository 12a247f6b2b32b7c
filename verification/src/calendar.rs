//! Proleptic Gregorian dates (UTC) counted in days from 1970-01-01.

use vstd::prelude::*;

verus! {

/// The Gregorian leap-year rule.
pub open spec fn is_leap(y: int) -> bool {
    y % 4 == 0 && (y % 100 != 0 || y % 400 == 0)
}

/// Days in month `m` (1 to 12) of year `y`.
pub open spec fn month_days(y: int, m: int) -> int {
    if m == 2 {
        if is_leap(y) { 29 } else { 28 }
    } else if m == 4 || m == 6 || m == 9 || m == 11 {
        30
    } else {
        31
    }
}

/// `(y, m, d)` is a day of the calendar.
pub open spec fn is_date(y: int, m: int, d: int) -> bool {
    1 <= m <= 12 && 1 <= d <= month_days(y, m)
}

/// Days from 0000-03-01 to the first of March of year `y`.
pub open spec fn march_day(y: int) -> int {
    365 * y + y / 4 - y / 100 + y / 400
}

/// Days from the first of March to the first day of the `mp`-th month after March; the fraction is
/// dropped, also where `mp` is negative.
pub open spec fn month_offset(mp: int) -> int {
    let fifths = 153 * mp + 2;
    if fifths >= 0 {
        fifths / 5
    } else {
        -((-fifths) / 5)
    }
}

/// Days from 1970-01-01 to `(y, m, d)`.
pub open spec fn epoch_day(y: int, m: int, d: int) -> int {
    let year = if m <= 2 { y - 1 } else { y };
    let mp = if m > 2 { m - 3 } else { m + 9 };
    march_day(year) + month_offset(mp) + d - 1 - 719_468
}

/// The calendar day that stands `z` days after 1970-01-01.
pub open spec fn date_of(z: int) -> (int, int, int) {
    choose|t: (int, int, int)| is_date(t.0, t.1, t.2) && #[trigger] epoch_day(t.0, t.1, t.2) == z
}

/// Counting starts at 1970-01-01.
pub proof fn law_epoch_starts_in_1970()
    ensures
        epoch_day(1970, 1, 1) == 0,
{
}

/// A year that starts in March has 366 days when the February at its end falls in a leap year,
/// and 365 otherwise.
proof fn lemma_march_year(y: int)
    ensures
        march_day(y + 1) == march_day(y) + 365 + (if is_leap(y + 1) { 1int } else { 0int }),
{
}

proof fn lemma_march_grows(a: int, b: int)
    requires
        a <= b,
    ensures
        march_day(a) + 365 * (b - a) <= march_day(b),
    decreases b - a,
{
    if a < b {
        lemma_march_grows(a, b - 1);
        lemma_march_year(b - 1);
    }
}

/// The day after a calendar day is counted one higher, across the ends of months and years too.
pub proof fn law_days_are_consecutive(y: int, m: int, d: int)
    requires
        is_date(y, m, d),
    ensures
        d < month_days(y, m) ==> epoch_day(y, m, d + 1) == epoch_day(y, m, d) + 1,
        d == month_days(y, m) && m < 12 ==> epoch_day(y, m + 1, 1) == epoch_day(y, m, d) + 1,
        d == month_days(y, m) && m == 12 ==> epoch_day(y + 1, 1, 1) == epoch_day(y, m, d) + 1,
{
    lemma_march_year(y - 1);
}

/// The day of a date within its March-based year.
proof fn lemma_day_of_year(y: int, m: int, d: int)
    requires
        is_date(y, m, d),
    ensures
        ({
            let year = if m <= 2 { y - 1 } else { y };
            let doy = epoch_day(y, m, d) + 719_468 - march_day(year);
            0 <= doy < march_day(year + 1) - march_day(year)
        }),
{
    let year = if m <= 2 { y - 1 } else { y };
    lemma_march_year(year);
}

/// Two calendar days with the same count are the same day.
pub proof fn law_day_count_is_injective(y1: int, m1: int, d1: int, y2: int, m2: int, d2: int)
    requires
        is_date(y1, m1, d1),
        is_date(y2, m2, d2),
        epoch_day(y1, m1, d1) == epoch_day(y2, m2, d2),
    ensures
        (y1, m1, d1) == (y2, m2, d2),
{
    let a = if m1 <= 2 { y1 - 1 } else { y1 };
    let b = if m2 <= 2 { y2 - 1 } else { y2 };
    lemma_day_of_year(y1, m1, d1);
    lemma_day_of_year(y2, m2, d2);
    if a < b {
        lemma_march_grows(a + 1, b);
    }
    if b < a {
        lemma_march_grows(b + 1, a);
    }
    assert(a == b);
    let p = if m1 > 2 { m1 - 3 } else { m1 + 9 };
    let q = if m2 > 2 { m2 - 3 } else { m2 + 9 };
    assert(month_offset(p) + d1 == month_offset(q) + d2);
    lemma_month_of_day(p, month_offset(p) + d1 - 1);
    lemma_month_of_day(q, month_offset(q) + d2 - 1);
}

/// A day of the year lies in one month only.
proof fn lemma_month_of_day(mp: int, doy: int)
    requires
        0 <= mp <= 11,
        month_offset(mp) <= doy <= 365,
        mp < 11 ==> doy < month_offset(mp + 1),
    ensures
        mp == (5 * doy + 2) / 153,
{
}

/// `date_of` names the one calendar day with the given count.
pub proof fn lemma_date_of(z: int, y: int, m: int, d: int)
    requires
        is_date(y, m, d),
        epoch_day(y, m, d) == z,
    ensures
        date_of(z) == (y, m, d),
{
    let t = (y, m, d);
    assert(is_date(t.0, t.1, t.2) && epoch_day(t.0, t.1, t.2) == z);
    let c = date_of(z);
    law_day_count_is_injective(c.0, c.1, c.2, y, m, d);
}

/// Where a day of a four-century cycle falls: the year of the cycle that holds it.
proof fn lemma_year_of_era(doe: int, yoe: int)
    requires
        0 <= doe <= 146_096,
        yoe == (doe - doe / 1460 + doe / 36_524 - doe / 146_096) / 365,
    ensures
        0 <= yoe <= 399,
        365 * yoe + yoe / 4 - yoe / 100 <= doe,
        doe - (365 * yoe + yoe / 4 - yoe / 100) <= 364 + (if is_leap(yoe + 1) { 1int } else { 0int }),
{
}

/// Quotient rounded towards negative infinity.
pub fn floor_div(a: i64, b: i64) -> (q: i64)
    requires
        b > 0,
    ensures
        q == a as int / b as int,
{
    if a >= 0 {
        a / b
    } else {
        let n: i64 = -1 - a;
        let k: i64 = n / b;
        proof {
            let (x, y) = (a as int, b as int);
            assert(x / y == -1 - k) by (nonlinear_arith)
                requires
                    y > 0,
                    n == -1 - x,
                    n >= 0,
                    k == n as int / y,
            ;
            assert(k >= 0) by (nonlinear_arith)
                requires
                    n >= 0,
                    y > 0,
                    k == n as int / y,
            ;
        }
        -1 - k
    }
}

/// The month that holds a day of a March-based year, and the day within it.
proof fn lemma_month_split(doy: int, mp: int)
    requires
        0 <= doy <= 365,
        mp == (5 * doy + 2) / 153,
    ensures
        0 <= mp <= 11,
        month_offset(mp) <= doy,
        mp < 11 ==> doy < month_offset(mp + 1),
{
}

/// The date found by splitting a day count into cycle, year, month and day is the date of that
/// count.
proof fn lemma_civil(era: int, yoe: int, doy: int, mp: int, y: int, m: int, d: int)
    requires
        0 <= yoe <= 399,
        0 <= doy <= 364 + (if is_leap(yoe + 1) { 1int } else { 0int }),
        mp == (5 * doy + 2) / 153,
        d == doy - month_offset(mp) + 1,
        m == (if mp < 10 { mp + 3 } else { mp - 9 }),
        y == yoe + era * 400 + (if m <= 2 { 1int } else { 0int }),
    ensures
        is_date(y, m, d),
        epoch_day(y, m, d) == era * 146_097 + 365 * yoe + yoe / 4 - yoe / 100 + doy - 719_468,
        date_of(epoch_day(y, m, d)) == (y, m, d),
{
    lemma_month_split(doy, mp);
    lemma_era(era, yoe);
    assert(m <= 2 ==> is_leap(y) == is_leap(yoe + 1));
    assert(is_date(y, m, d)) by {
        assert(mp == 0 || mp == 1 || mp == 2 || mp == 3 || mp == 4 || mp == 5 || mp == 6 || mp == 7 || mp == 8
            || mp == 9 || mp == 10 || mp == 11);
    }
    lemma_date_of(epoch_day(y, m, d), y, m, d);
}

/// The calendar day `(year, month, day)` that stands `z` days after 1970-01-01.
pub fn civil_from_days(z: i64) -> (r: (i64, u32, u32))
    requires
        i64::MIN + 1_000_000 <= z <= i64::MAX - 1_000_000,
    ensures
        is_date(r.0 as int, r.1 as int, r.2 as int),
        epoch_day(r.0 as int, r.1 as int, r.2 as int) == z,
        date_of(z as int) == (r.0 as int, r.1 as int, r.2 as int),
{
    let z0: i64 = z + 719_468;
    let era: i64 = floor_div(z0, 146_097);
    let doe: i64 = z0 - era * 146_097;
    let yoe: i64 = (doe - doe / 1460 + doe / 36_524 - doe / 146_096) / 365;
    proof {
        lemma_year_of_era(doe as int, yoe as int);
    }
    assert(0 <= yoe <= 399);
    let year: i64 = yoe + era * 400;
    let doy: i64 = doe - (365 * yoe + yoe / 4 - yoe / 100);
    let mp: i64 = (5 * doy + 2) / 153;
    proof {
        lemma_month_split(doy as int, mp as int);
    }
    let d: u32 = (doy - (153 * mp + 2) / 5 + 1) as u32;
    let m: u32 = (if mp < 10 { mp + 3 } else { mp - 9 }) as u32;
    let y: i64 = if m <= 2 { year + 1 } else { year };
    proof {
        lemma_civil(era as int, yoe as int, doy as int, mp as int, y as int, m as int, d as int);
    }
    (y, m, d)
}

/// Four centuries hold 146097 days, whichever they are.
proof fn lemma_era(era: int, yoe: int)
    requires
        0 <= yoe <= 399,
    ensures
        march_day(yoe + era * 400) == era * 146_097 + 365 * yoe + yoe / 4 - yoe / 100,
        is_leap(yoe + era * 400 + 1) == is_leap(yoe + 1),
{
}

/// Days in month `m` of year `y`.
pub fn days_in_month(y: i64, m: i64) -> (r: i64)
    ensures
        r == month_days(y as int, m as int),
{
    if m == 2 {
        let by_4 = floor_div(y, 4) as i128 * 4 == y as i128;
        let by_100 = floor_div(y, 100) as i128 * 100 == y as i128;
        let by_400 = floor_div(y, 400) as i128 * 400 == y as i128;
        if by_4 && (!by_100 || by_400) {
            29
        } else {
            28
        }
    } else if m == 4 || m == 6 || m == 9 || m == 11 {
        30
    } else {
        31
    }
}

/// Days from 1970-01-01 to `(y, m, d)`.  A day or a month beyond the calendar is counted by the same
/// formula; the bounds keep every step of it within `i64`.
pub fn days_from_civil(y: i64, m: i64, d: i64) -> (r: i64)
    requires
        -20_000_000_000_000_000 <= y <= 20_000_000_000_000_000,
        -10_000_000_000_000_000 <= m <= 10_000_000_000_000_000,
        -1_000_000_000_000_000_000 <= d <= 1_000_000_000_000_000_000,
    ensures
        r == epoch_day(y as int, m as int, d as int),
{
    let year: i64 = if m <= 2 { y - 1 } else { y };
    let era: i64 = floor_div(year, 400);
    let yoe: i64 = year - era * 400;
    let mp: i64 = if m > 2 { m - 3 } else { m + 9 };
    let fifths: i64 = 153 * mp + 2;
    let offset: i64 = if fifths >= 0 { fifths / 5 } else { -((-fifths) / 5) };
    let doy: i64 = offset + d - 1;
    let doe: i64 = yoe * 365 + yoe / 4 - yoe / 100 + doy;
    proof {
        lemma_era(era as int, yoe as int);
    }
    era * 146_097 + doe - 719_468
}

/// Every day count belongs to a calendar day, and turning it into a date and back gives the count
/// again.
pub proof fn law_every_day_has_a_date(z: int)
    ensures
        ({
            let (y, m, d) = date_of(z);
            is_date(y, m, d) && epoch_day(y, m, d) == z
        }),
{
    let z0 = z + 719_468;
    let era = z0 / 146_097;
    let doe = z0 - era * 146_097;
    let yoe = (doe - doe / 1460 + doe / 36_524 - doe / 146_096) / 365;
    lemma_year_of_era(doe, yoe);
    let doy = doe - (365 * yoe + yoe / 4 - yoe / 100);
    let mp = (5 * doy + 2) / 153;
    let d = doy - month_offset(mp) + 1;
    let m = if mp < 10 { mp + 3 } else { mp - 9 };
    let y = yoe + era * 400 + (if m <= 2 { 1int } else { 0int });
    lemma_civil(era, yoe, doy, mp, y, m, d);
}

/// Counting the days to a date and turning the count back gives the date again.
pub proof fn law_date_round_trip(y: int, m: int, d: int)
    requires
        is_date(y, m, d),
    ensures
        date_of(epoch_day(y, m, d)) == (y, m, d),
{
    lemma_date_of(epoch_day(y, m, d), y, m, d);
}

/// The months have their lengths in every year; only that of February depends on the year.
pub proof fn law_months_have_their_days(y: int)
    ensures
        forall|m: int|
            m == 1 || m == 3 || m == 5 || m == 7 || m == 8 || m == 10 || m == 12 ==> #[trigger] month_days(y, m) == 31,
        forall|m: int| m == 4 || m == 6 || m == 9 || m == 11 ==> #[trigger] month_days(y, m) == 30,
        month_days(y, 2) == 28 || month_days(y, 2) == 29,
{
}

/// February has a day more every fourth year, but not in a year that starts a century, unless the
/// century is a fourth one.
pub proof fn law_leap_years(k: int)
    ensures
        month_days(4 * k + 1, 2) == 28,
        month_days(4 * k + 2, 2) == 28,
        month_days(4 * k + 3, 2) == 28,
        k % 25 != 0 ==> month_days(4 * k, 2) == 29,
        k % 4 != 0 ==> month_days(100 * k, 2) == 28,
        month_days(400 * k, 2) == 29,
{
}

/// The calendar repeats every four centuries, which hold 146097 days.
pub proof fn law_four_centuries(y: int, m: int, d: int)
    ensures
        epoch_day(y + 400, m, d) == epoch_day(y, m, d) + 146_097,
        month_days(y + 400, m) == month_days(y, m),
{
    lemma_march_cycle(y);
    lemma_march_cycle(y - 1);
}

proof fn lemma_march_cycle(y: int)
    ensures
        march_day(y + 400) == march_day(y) + 146_097,
        is_leap(y + 400) == is_leap(y),
{
    assert((y + 400) / 4 == y / 4 + 100);
    assert((y + 400) / 100 == y / 100 + 4);
    assert((y + 400) / 400 == y / 400 + 1);
    assert((y + 400) % 4 == y % 4);
    assert((y + 400) % 100 == y % 100);
    assert((y + 400) % 400 == y % 400);
}

/// A quotient that is rounded down leaves a rest below the divisor, also for what is negative.
pub proof fn law_quotients_are_rounded_down(a: i64, b: i64)
    requires
        b > 0,
    ensures
        0 <= a - (a as int / b as int) * b < b,
{
    assert(0 <= a - (a as int / b as int) * b < b) by (nonlinear_arith)
        requires
            b > 0,
    ;
}

} // verus!

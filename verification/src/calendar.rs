//! Proleptic Gregorian calendar arithmetic: dates, day numbers and weekdays.

use vstd::prelude::*;

verus! {

/// A calendar date in the proleptic Gregorian calendar, for years 1 and later.
#[derive(Clone, Copy, Debug, PartialEq, Eq, Structural)]
pub struct Date {
    pub year: i32,
    pub month: u8,
    pub day: u8,
}

pub open spec fn is_leap_year(y: int) -> bool {
    (y % 4 == 0 && y % 100 != 0) || y % 400 == 0
}

pub open spec fn days_in_month(y: int, m: int) -> int {
    if m == 2 {
        if is_leap_year(y) {
            29
        } else {
            28
        }
    } else if m == 4 || m == 6 || m == 9 || m == 11 {
        30
    } else {
        31
    }
}

pub open spec fn year_in_range(y: int) -> bool {
    1 <= y <= 0x7fff_ffff
}

pub open spec fn valid_date(y: int, m: int, d: int) -> bool {
    year_in_range(y) && 1 <= m <= 12 && 1 <= d <= days_in_month(y, m)
}

/// Days of the months of year `y` that come strictly before month `m`.
pub open spec fn days_before_month(y: int, m: int) -> int
    decreases m,
{
    if m <= 1 {
        0
    } else {
        days_before_month(y, m - 1) + days_in_month(y, m - 1)
    }
}

/// Ordinal of the date within its year; January 1 is day 1.
pub open spec fn day_of_year(y: int, m: int, d: int) -> int {
    days_before_month(y, m) + d
}

pub open spec fn days_in_year(y: int) -> int {
    if is_leap_year(y) {
        366
    } else {
        365
    }
}

pub open spec fn days_before_year(y: int) -> int
    decreases y,
{
    if y <= 1 {
        0
    } else {
        days_before_year(y - 1) + days_in_year(y - 1)
    }
}

/// Absolute day number: January 1 of year 1 is day 1.
pub open spec fn day_number(y: int, m: int, d: int) -> int {
    days_before_year(y) + day_of_year(y, m, d)
}

/// Weekday ordinal with Monday = 0, ..., Sunday = 6.
/// January 1 of year 1 is a Monday in the proleptic Gregorian calendar.
pub open spec fn weekday_from_monday(y: int, m: int, d: int) -> int {
    (day_number(y, m, d) - 1) % 7
}

impl Date {
    pub open spec fn wf(self) -> bool {
        valid_date(self.year as int, self.month as int, self.day as int)
    }

    pub open spec fn doy(self) -> int {
        day_of_year(self.year as int, self.month as int, self.day as int)
    }

    pub open spec fn dn(self) -> int {
        day_number(self.year as int, self.month as int, self.day as int)
    }

    /// Builds a date, checking that year, month and day form a real calendar date.
    pub fn new(year: i32, month: u8, day: u8) -> (r: Option<Date>)
        ensures
            match r {
                Some(d) => valid_date(year as int, month as int, day as int) && d == (Date {
                    year,
                    month,
                    day,
                }),
                None => !valid_date(year as int, month as int, day as int),
            },
    {
        if year >= 1 && 1 <= month && month <= 12 && 1 <= day && day <= days_in_month_x(
            year,
            month,
        ) {
            Some(Date { year, month, day })
        } else {
            None
        }
    }
}

pub fn is_leap_year_x(year: i32) -> (r: bool)
    requires
        year_in_range(year as int),
    ensures
        r == is_leap_year(year as int),
{
    (year % 4 == 0 && year % 100 != 0) || year % 400 == 0
}

pub fn days_in_month_x(year: i32, month: u8) -> (r: u8)
    requires
        year_in_range(year as int),
        1 <= month <= 12,
    ensures
        r == days_in_month(year as int, month as int),
{
    if month == 2 {
        if is_leap_year_x(year) {
            29
        } else {
            28
        }
    } else if month == 4 || month == 6 || month == 9 || month == 11 {
        30
    } else {
        31
    }
}

pub fn days_in_year_x(year: i32) -> (r: u16)
    requires
        year_in_range(year as int),
    ensures
        r == days_in_year(year as int),
{
    if is_leap_year_x(year) {
        366
    } else {
        365
    }
}

/// `days_before_month` is monotone in the month.
pub proof fn lemma_days_before_month_mono(y: int, a: int, b: int)
    requires
        a <= b,
    ensures
        days_before_month(y, a) <= days_before_month(y, b),
    decreases b - a,
{
    if a < b {
        lemma_days_before_month_mono(y, a, b - 1);
    }
}

/// The days of all twelve months add up to the length of the year.
pub proof fn lemma_days_before_month_13(y: int)
    ensures
        days_before_month(y, 13) == days_in_year(y),
{
    reveal_with_fuel(days_before_month, 13);
}

/// Every valid date has a day-of-year ordinal between 1 and the year's length.
pub proof fn lemma_day_of_year_bounds(y: int, m: int, d: int)
    requires
        valid_date(y, m, d),
    ensures
        1 <= day_of_year(y, m, d) <= days_in_year(y),
{
    lemma_days_before_month_mono(y, 1, m);
    lemma_days_before_month_mono(y, m + 1, 13);
    lemma_days_before_month_13(y);
}

/// `days_before_year` grows by at least 365 per year.
pub proof fn lemma_days_before_year_mono(y1: int, y2: int)
    requires
        1 <= y1 < y2,
    ensures
        days_before_year(y1) + days_in_year(y1) <= days_before_year(y2),
    decreases y2 - y1,
{
    if y1 + 1 < y2 {
        lemma_days_before_year_mono(y1 + 1, y2);
    }
}

/// The day number respects the lexicographic order on (year, month, day).
pub proof fn lemma_day_number_increases(y1: int, m1: int, d1: int, y2: int, m2: int, d2: int)
    requires
        valid_date(y1, m1, d1),
        valid_date(y2, m2, d2),
        y1 < y2 || (y1 == y2 && m1 < m2) || (y1 == y2 && m1 == m2 && d1 < d2),
    ensures
        day_number(y1, m1, d1) < day_number(y2, m2, d2),
{
    lemma_day_of_year_bounds(y1, m1, d1);
    lemma_day_of_year_bounds(y2, m2, d2);
    if y1 < y2 {
        lemma_days_before_year_mono(y1, y2);
    } else if m1 < m2 {
        lemma_days_before_month_mono(y1, m1 + 1, m2);
    }
}

/// Stepping the dividend up by one raises the quotient exactly when the
/// divisor divides the new dividend.
proof fn lemma_div_step(x: int, d: int)
    requires
        x >= 1,
        d >= 2,
    ensures
        x % d == 0 ==> x / d == (x - 1) / d + 1,
        x % d != 0 ==> x / d == (x - 1) / d,
{
    let q = (x - 1) / d;
    let r = (x - 1) % d;
    vstd::arithmetic::div_mod::lemma_fundamental_div_mod(x - 1, d);
    vstd::arithmetic::div_mod::lemma_mod_bound(x - 1, d);
    assert((q + 1) * d == q * d + d) by (nonlinear_arith);
    assert(d * q == q * d) by (nonlinear_arith);
    if r + 1 == d {
        vstd::arithmetic::div_mod::lemma_fundamental_div_mod_converse(x, d, q + 1, 0);
    } else {
        vstd::arithmetic::div_mod::lemma_fundamental_div_mod_converse(x, d, q, r + 1);
    }
}

/// A multiple of 400 is a multiple of 100, and a multiple of 100 one of 4.
proof fn lemma_leap_divisor_chain(x: int)
    ensures
        x % 400 == 0 ==> x % 100 == 0,
        x % 100 == 0 ==> x % 4 == 0,
{
    if x % 400 == 0 {
        vstd::arithmetic::div_mod::lemma_fundamental_div_mod(x, 400);
        vstd::arithmetic::div_mod::lemma_mod_multiples_basic(4 * (x / 400), 100);
        assert(x == (4 * (x / 400)) * 100) by (nonlinear_arith)
            requires
                x == 400 * (x / 400),
        ;
    }
    if x % 100 == 0 {
        vstd::arithmetic::div_mod::lemma_fundamental_div_mod(x, 100);
        vstd::arithmetic::div_mod::lemma_mod_multiples_basic(25 * (x / 100), 4);
        assert(x == (25 * (x / 100)) * 4) by (nonlinear_arith)
            requires
                x == 100 * (x / 100),
        ;
    }
}

/// Closed form of `days_before_year`: 365 days per elapsed year plus one
/// for each elapsed leap year.
pub proof fn lemma_days_before_year_closed(y: int)
    requires
        y >= 1,
    ensures
        days_before_year(y) == 365 * (y - 1) + (y - 1) / 4 - (y - 1) / 100 + (y - 1) / 400,
    decreases y,
{
    if y > 1 {
        lemma_days_before_year_closed(y - 1);
        let x = y - 1;
        lemma_div_step(x, 4);
        lemma_div_step(x, 100);
        lemma_div_step(x, 400);
        lemma_leap_divisor_chain(x);
    }
}

/// `days_before_year` never exceeds 366 days per elapsed year.
pub proof fn lemma_days_before_year_bound(y: int)
    requires
        y >= 1,
    ensures
        0 <= days_before_year(y) <= 366 * (y - 1),
    decreases y,
{
    if y > 1 {
        lemma_days_before_year_bound(y - 1);
    }
}

pub fn days_before_year_x(year: i32) -> (r: u64)
    requires
        year_in_range(year as int),
    ensures
        r == days_before_year(year as int),
{
    proof {
        lemma_days_before_year_closed(year as int);
        vstd::arithmetic::div_mod::lemma_fundamental_div_mod((year - 1) as int, 4);
        vstd::arithmetic::div_mod::lemma_mod_bound((year - 1) as int, 4);
        vstd::arithmetic::div_mod::lemma_fundamental_div_mod((year - 1) as int, 100);
        vstd::arithmetic::div_mod::lemma_mod_bound((year - 1) as int, 100);
        vstd::arithmetic::div_mod::lemma_fundamental_div_mod((year - 1) as int, 400);
        vstd::arithmetic::div_mod::lemma_mod_bound((year - 1) as int, 400);
    }
    let x: u64 = (year - 1) as u64;
    365 * x + x / 4 - x / 100 + x / 400
}

pub fn day_of_year_x(year: i32, month: u8, day: u8) -> (r: u16)
    requires
        valid_date(year as int, month as int, day as int),
    ensures
        r == day_of_year(year as int, month as int, day as int),
{
    let mut m: u8 = 1;
    let mut acc: u16 = 0;
    while m < month
        invariant
            year_in_range(year as int),
            1 <= m <= month <= 12,
            acc == days_before_month(year as int, m as int),
            acc <= 31 * (m - 1),
        decreases month - m,
    {
        acc = acc + days_in_month_x(year, m) as u16;
        m = m + 1;
    }
    acc + day as u16
}

pub fn day_number_x(year: i32, month: u8, day: u8) -> (r: u64)
    requires
        valid_date(year as int, month as int, day as int),
    ensures
        r == day_number(year as int, month as int, day as int),
        r >= 1,
{
    proof {
        lemma_day_of_year_bounds(year as int, month as int, day as int);
        lemma_days_before_year_bound(year as int);
    }
    days_before_year_x(year) + day_of_year_x(year, month, day) as u64
}

/// Weekday ordinal of a date, Monday = 0 through Sunday = 6.
pub fn weekday_x(year: i32, month: u8, day: u8) -> (r: u8)
    requires
        valid_date(year as int, month as int, day as int),
    ensures
        r == weekday_from_monday(year as int, month as int, day as int),
        r <= 6,
{
    let n = day_number_x(year, month, day);
    proof {
        vstd::arithmetic::div_mod::lemma_mod_bound(n - 1, 7);
    }
    ((n - 1) % 7) as u8
}

/// The month and day-of-month reached by walking `t` days into the year,
/// starting the walk at month `m`.
pub open spec fn month_of_doy(y: int, t: int, m: int) -> (int, int)
    decreases 12 - m,
{
    if m >= 12 || t <= days_in_month(y, m) {
        (m, t)
    } else {
        month_of_doy(y, t - days_in_month(y, m), m + 1)
    }
}

/// The date of year `y` whose day-of-year ordinal is `t`.
pub open spec fn doy_to_date(y: int, t: int) -> Date {
    Date {
        year: y as i32,
        month: month_of_doy(y, t, 1).0 as u8,
        day: month_of_doy(y, t, 1).1 as u8,
    }
}

proof fn lemma_month_of_doy_rec(y: int, t: int, m: int)
    requires
        year_in_range(y),
        1 <= m <= 12,
        1 <= t,
        days_before_month(y, m) + t <= days_in_year(y),
    ensures
        1 <= month_of_doy(y, t, m).0 <= 12,
        1 <= month_of_doy(y, t, m).1 <= days_in_month(y, month_of_doy(y, t, m).0),
        days_before_month(y, month_of_doy(y, t, m).0) + month_of_doy(y, t, m).1
            == days_before_month(y, m) + t,
    decreases 12 - m,
{
    lemma_days_before_month_13(y);
    if m >= 12 || t <= days_in_month(y, m) {
    } else {
        lemma_month_of_doy_rec(y, t - days_in_month(y, m), m + 1);
    }
}

/// For an ordinal within the year's length, `doy_to_date` yields the valid
/// date of that year with exactly that ordinal.
pub proof fn lemma_doy_to_date(y: int, t: int)
    requires
        year_in_range(y),
        1 <= t <= days_in_year(y),
    ensures
        doy_to_date(y, t).wf(),
        doy_to_date(y, t).year as int == y,
        doy_to_date(y, t).doy() == t,
{
    lemma_month_of_doy_rec(y, t, 1);
}

/// Finds the date of year `year` with day-of-year ordinal `t`.
pub fn date_of_doy_x(year: i32, t: u16) -> (r: Date)
    requires
        year_in_range(year as int),
        1 <= t as int <= days_in_year(year as int),
    ensures
        r == doy_to_date(year as int, t as int),
        r.wf(),
        r.year == year,
        r.doy() == t as int,
{
    let mut m: u8 = 1;
    let mut rem: u16 = t;
    let mut dim: u8 = days_in_month_x(year, m);
    while rem > dim as u16
        invariant
            year_in_range(year as int),
            1 <= m <= 12,
            1 <= rem,
            days_before_month(year as int, m as int) + rem as int == t as int,
            t as int <= days_in_year(year as int),
            dim == days_in_month(year as int, m as int),
            m == 12 ==> rem as int <= dim as int,
        decreases rem,
    {
        proof {
            lemma_days_before_month_13(year as int);
            assert(days_before_month(year as int, 13) == days_before_month(year as int, 12)
                + days_in_month(year as int, 12));
        }
        rem = rem - dim as u16;
        m = m + 1;
        dim = days_in_month_x(year, m);
    }
    let r = Date { year, month: m, day: rem as u8 };
    proof {
        lemma_doy_to_date(year as int, t as int);
        lemma_day_number_injective(r, doy_to_date(year as int, t as int));
    }
    r
}

/// Day number `n` falls within year `y`.
pub open spec fn year_spans(n: int, y: int) -> bool {
    year_in_range(y) && days_before_year(y) < n <= days_before_year(y) + days_in_year(y)
}

/// The largest day number of a representable date.
pub open spec fn max_day_number() -> int {
    day_number(0x7fff_ffff, 12, 31)
}

pub proof fn lemma_max_day_number_bound()
    ensures
        1 <= max_day_number() < 800_000_000_000,
{
    lemma_days_before_year_bound(0x7fff_ffff);
    lemma_day_of_year_bounds(0x7fff_ffff, 12, 31);
}

/// The date with absolute day number `n`, reached through the year that
/// spans `n`.
pub open spec fn date_of_day_number(n: int) -> Date {
    let y = choose|y: int| #[trigger] year_spans(n, y);
    doy_to_date(y, n - days_before_year(y))
}

proof fn lemma_year_exists(n: int)
    requires
        1 <= n <= max_day_number(),
    ensures
        exists|y: int| year_spans(n, y),
    decreases n,
{
    lemma_days_before_month_13(0x7fff_ffff);
    assert(days_before_month(0x7fff_ffff, 13) == days_before_month(0x7fff_ffff, 12)
        + days_in_month(0x7fff_ffff, 12));
    if n == 1 {
        assert(year_spans(1, 1));
    } else {
        lemma_year_exists(n - 1);
        let y = choose|y: int| #[trigger] year_spans(n - 1, y);
        if n <= days_before_year(y) + days_in_year(y) {
            assert(year_spans(n, y));
        } else {
            assert(days_before_year(y + 1) == days_before_year(y) + days_in_year(y));
            assert(y < 0x7fff_ffff);
            assert(year_spans(n, y + 1));
        }
    }
}

/// Only one year spans a given day number.
pub proof fn lemma_year_spans_unique(n: int, y1: int, y2: int)
    requires
        year_spans(n, y1),
        year_spans(n, y2),
    ensures
        y1 == y2,
{
    if y1 < y2 {
        lemma_days_before_year_mono(y1, y2);
    }
    if y2 < y1 {
        lemma_days_before_year_mono(y2, y1);
    }
}

/// For a representable day number, `date_of_day_number` yields the valid
/// date with exactly that day number, inside the year that spans it.
pub proof fn lemma_date_of_day_number(n: int)
    requires
        1 <= n <= max_day_number(),
    ensures
        date_of_day_number(n).wf(),
        date_of_day_number(n).dn() == n,
        year_spans(n, date_of_day_number(n).year as int),
{
    lemma_year_exists(n);
    let y = choose|y: int| #[trigger] year_spans(n, y);
    lemma_doy_to_date(y, n - days_before_year(y));
}

/// Finds the date with the given absolute day number, if any date of the
/// modeled years carries it.
pub fn date_of_day_number_x(n: u64) -> (r: Option<Date>)
    ensures
        match r {
            Some(d) => 1 <= n as int <= max_day_number() && d == date_of_day_number(n as int),
            None => !(1 <= n as int <= max_day_number()),
        },
{
    proof {
        lemma_day_of_year_bounds(0x7fff_ffff, 12, 31);
        lemma_days_before_year_bound(0x7fff_ffff);
        lemma_days_before_month_13(0x7fff_ffff);
        assert(days_before_month(0x7fff_ffff, 13) == days_before_month(0x7fff_ffff, 12)
            + days_in_month(0x7fff_ffff, 12));
    }
    let max_n: u64 = days_before_year_x(0x7fff_ffff) + day_of_year_x(0x7fff_ffff, 12, 31) as u64;
    if n < 1 || n > max_n {
        return None;
    }
    let mut lo: i32 = 1;
    let mut hi: i32 = 0x7fff_ffff;
    while lo < hi
        invariant
            1 <= lo <= hi <= 0x7fff_ffff,
            days_before_year(lo as int) < n as int,
            n as int <= days_before_year(hi as int) + days_in_year(hi as int),
        decreases hi - lo,
    {
        let mid: i32 = lo + (hi - lo) / 2;
        proof {
            lemma_days_before_year_bound(mid as int);
        }
        let t: u64 = days_before_year_x(mid) + days_in_year_x(mid) as u64;
        if n <= t {
            hi = mid;
        } else {
            proof {
                assert(days_before_year(mid as int + 1) == days_before_year(mid as int)
                    + days_in_year(mid as int));
            }
            lo = mid + 1;
        }
    }
    let y: i32 = lo;
    let dby_y: u64 = days_before_year_x(y);
    let t: u64 = n - dby_y;
    proof {
        assert(year_spans(n as int, y as int));
        lemma_date_of_day_number(n as int);
        lemma_year_spans_unique(n as int, y as int, date_of_day_number(n as int).year as int);
    }
    let d = date_of_doy_x(y, t as u16);
    Some(d)
}

/// Two valid dates with equal day numbers are the same date.
pub proof fn lemma_day_number_injective(a: Date, b: Date)
    requires
        a.wf(),
        b.wf(),
        a.dn() == b.dn(),
    ensures
        a == b,
{
    if a != b {
        if (a.year as int) < (b.year as int) || (a.year == b.year && (a.month as int) < (
        b.month as int)) || (a.year == b.year && a.month == b.month && (a.day as int) < (
        b.day as int)) {
            lemma_day_number_increases(
                a.year as int,
                a.month as int,
                a.day as int,
                b.year as int,
                b.month as int,
                b.day as int,
            );
        } else {
            lemma_day_number_increases(
                b.year as int,
                b.month as int,
                b.day as int,
                a.year as int,
                a.month as int,
                a.day as int,
            );
        }
    }
}

} // verus!

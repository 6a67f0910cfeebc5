//! Easter Sunday and the dates derived from it by a fixed day offset.

use vstd::prelude::*;
use crate::calendar::Date;
use crate::calendar::date_of_day_number;
use crate::calendar::date_of_day_number_x;
use crate::calendar::day_number_x;
use crate::calendar::day_number;
use crate::calendar::day_of_year_x;
use crate::calendar::day_of_year;
use crate::calendar::days_before_month;
use crate::calendar::days_before_year;
use crate::calendar::lemma_days_before_year_bound;
use crate::calendar::lemma_max_day_number_bound;
use crate::calendar::max_day_number;
use crate::calendar::lemma_day_of_year_bounds;
use crate::calendar::valid_date;

verus! {

/// The absolute day number of Gregorian Easter Sunday of a year, as the
/// computus crate computes it. It is a function of the year alone.
pub uninterp spec fn easter_day_number(year: int) -> int;

/// The years for which the computus crate defines the Gregorian Easter date.
pub open spec fn computus_domain(year: int) -> bool {
    1583 <= year <= 9999
}

/// Relies on computus::gregorian: it returns Err exactly for years outside
/// 1583..=9999, and otherwise a valid calendar date of the given year
/// (a March or April day), a function of the year alone, named here by
/// `easter_day_number`.
#[verifier::external_body]
fn easter_sunday_ymd(year: i32) -> (r: Option<(u32, u32)>)
    ensures
        r.is_some() <==> computus_domain(year as int),
        match r {
            Some(md) => valid_date(year as int, md.0 as int, md.1 as int) && day_number(
                year as int,
                md.0 as int,
                md.1 as int,
            ) == easter_day_number(year as int),
            None => !computus_domain(year as int),
        },
{
    match computus::gregorian(year) {
        Ok(e) => Some((e.month, e.day)),
        Err(_) => None,
    }
}

/// Day-of-year ordinal of Easter Sunday.
pub open spec fn easter_doy(year: int) -> int {
    easter_day_number(year) - days_before_year(year)
}

/// The date `offset` days away from Easter Sunday: the date whose day
/// number is Easter Sunday's plus `offset`, when Easter is defined for the
/// year and a date of the modeled years carries that day number.
pub open spec fn easter_relative_spec(year: int, offset: int) -> Option<Date> {
    if computus_domain(year) && 1 <= easter_day_number(year) + offset <= max_day_number() {
        Some(date_of_day_number(easter_day_number(year) + offset))
    } else {
        None
    }
}

/// Easter Sunday lies where the Gregorian computus always places it:
/// between March 22 and April 25 of its year.
pub open spec fn easter_in_window(y: int) -> bool {
    days_before_month(y, 3) + 22 <= easter_doy(y) <= days_before_month(y, 4) + 25
}

/// Checks the two calendar facts of a year under which no two holiday
/// dates of any region collide: Easter Sunday lies in its March 22 to
/// April 25 window, and Ascension day (Easter + 39) does not fall on
/// May 1. Both always hold of the real calendar; the check makes them
/// available to callers as a verified fact about the year.
pub fn easter_collision_free(year: i32) -> (r: bool)
    ensures
        r == (computus_domain(year as int) ==> easter_in_window(year as int) && easter_doy(
            year as int,
        ) + 39 != day_of_year(year as int, 5, 1)),
{
    match easter_sunday_ymd(year) {
        None => true,
        Some((m, d)) => {
            let m8: u8 = m as u8;
            let d8: u8 = d as u8;
            let e: u16 = day_of_year_x(year, m8, d8);
            let lo: u16 = day_of_year_x(year, 3, 22);
            let hi: u16 = day_of_year_x(year, 4, 25);
            let may_day: u16 = day_of_year_x(year, 5, 1);
            proof {
                lemma_day_of_year_bounds(year as int, m8 as int, d8 as int);
            }
            lo <= e && e <= hi && e as u32 + 39 != may_day as u32
        },
    }
}

/// Computes Easter Sunday of the year plus `offset` days; negative offsets
/// reach back before Easter, and the result may lie in a neighbouring year.
pub fn relative_to_easter_sunday(year: i32, offset: i64) -> (r: Option<Date>)
    ensures
        r == easter_relative_spec(year as int, offset as int),
{
    let md = easter_sunday_ymd(year);
    match md {
        None => None,
        Some((m, d)) => {
            let m8: u8 = m as u8;
            let d8: u8 = d as u8;
            let e: u64 = day_number_x(year, m8, d8);
            proof {
                lemma_day_of_year_bounds(year as int, m8 as int, d8 as int);
                lemma_days_before_year_bound(year as int);
                lemma_max_day_number_bound();
            }
            if offset < -3_700_000 || offset > 800_000_000_000 {
                None
            } else {
                let n: i64 = e as i64 + offset;
                if n < 1 {
                    None
                } else {
                    date_of_day_number_x(n as u64)
                }
            }
        },
    }
}

} // verus!

//! The general laws of the library, each proved for every input its
//! statement admits.

use vstd::prelude::*;
use crate::calendar::Date;
use crate::calendar::day_number;
use crate::calendar::day_of_year;
use crate::calendar::days_before_month;
use crate::calendar::lemma_date_of_day_number;
use crate::calendar::lemma_day_number_injective;
use crate::calendar::lemma_day_of_year_bounds;
use crate::calendar::lemma_days_before_year_bound;
use crate::calendar::weekday_from_monday;
use crate::calendar::year_in_range;
use crate::easter::computus_domain;
use crate::easter::easter_in_window;
use crate::easter::easter_day_number;
use crate::easter::easter_doy;
use crate::easter::easter_relative_spec;
use crate::holidays::GermanHoliday;
use crate::holidays::date_spec;
use crate::holidays::easter_offset_of;
use crate::holidays::lemma_date_spec_in_year;
use crate::holidays::repentance_spec;
use crate::regions::GermanRegion;
use crate::regions::distinct_dates_in;
use crate::regions::distinct_holiday_dates;
use crate::regions::first_match_in;
use crate::regions::holiday_from_date_spec;
use crate::regions::holidays_in_year_seq;
use crate::regions::nationwide_seq;
use crate::regions::region_specific_seq;
use crate::regions::resolved_dates;
use crate::regions::sorted_by_day_number;

verus! {

/// The day of repentance of any modeled year is defined, falls on a
/// Wednesday, and lies between 1 and 7 days before November 23 of that year.
pub proof fn lemma_day_of_repentance(y: int)
    requires
        year_in_range(y),
    ensures
        match repentance_spec(y) {
            Some(d) => d.wf() && weekday_from_monday(
                d.year as int,
                d.month as int,
                d.day as int,
            ) == 2 && 1 <= day_number(y, 11, 23) - d.dn() <= 7,
            None => false,
        },
{
    lemma_day_of_year_bounds(y, 11, 23);
    lemma_days_before_year_bound(y);
    let n = day_number(y, 11, 23);
    vstd::arithmetic::div_mod::lemma_mod_bound(n - 1, 7);
    vstd::arithmetic::div_mod::lemma_fundamental_div_mod(n - 1, 7);
    let q = (n - 1) / 7;
    let w = (n - 1) % 7;
    let back = if w < 3 {
        w + 5
    } else {
        w - 2
    };
    let d = repentance_spec(y)->Some_0;
    assert(d.dn() == n - back);
    if w < 3 {
        vstd::arithmetic::div_mod::lemma_fundamental_div_mod_converse(n - back - 1, 7, q - 1, 2);
    } else {
        vstd::arithmetic::div_mod::lemma_fundamental_div_mod_converse(n - back - 1, 7, q, 2);
    }
}

/// For every region, a year before 1995 has no holidays at all.
pub proof fn lemma_no_holidays_before_1995(r: GermanRegion, y: int)
    requires
        y < 1995,
    ensures
        holidays_in_year_seq(r, y) == Seq::<GermanHoliday>::empty(),
{
}

/// Holiday kinds that some region's table can list as public holidays.
spec fn listed_kind(k: GermanHoliday) -> bool {
    !(k is Faschingsdienstag || k is Aschermittwoch || k is Gruendonnerstag || k is Ostersonntag
        || k is Pfingstsonntag || k is Heiligabend || k is Silvester)
}

proof fn lemma_kind_dn_facts(k: GermanHoliday, y: int)
    requires
        date_spec(k, y) is Some,
    ensures
        easter_offset_of(k) matches Some(off) ==> date_spec(k, y)->Some_0.dn()
            == easter_day_number(y) + off,
        k is BussUndBettag ==> day_number(y, 11, 16) <= date_spec(k, y)->Some_0.dn()
            <= day_number(y, 11, 22),
{
    match easter_offset_of(k) {
        Some(off) => {
            lemma_date_of_day_number(easter_day_number(y) + off);
        },
        None => {
            if k is BussUndBettag {
                lemma_day_of_year_bounds(y, 11, 23);
                lemma_days_before_year_bound(y);
                vstd::arithmetic::div_mod::lemma_mod_bound(day_number(y, 11, 23) - 1, 7);
            }
        },
    }
}

/// Two different listable kinds never fall on the same date, under the
/// calendar facts of the year.
#[verifier::spinoff_prover]
#[verifier::rlimit(100)]
proof fn lemma_listed_kinds_distinct(k1: GermanHoliday, k2: GermanHoliday, y: int)
    requires
        computus_domain(y) ==> easter_in_window(y) && easter_doy(y) + 39 != day_of_year(y, 5, 1),
        listed_kind(k1),
        listed_kind(k2),
        k1 != k2,
        date_spec(k1, y) is Some,
    ensures
        date_spec(k1, y) != date_spec(k2, y),
{
    if date_spec(k2, y) is Some && date_spec(k1, y) == date_spec(k2, y) {
        reveal_with_fuel(days_before_month, 14);
        lemma_kind_dn_facts(k1, y);
        lemma_kind_dn_facts(k2, y);
        assert(date_spec(k1, y)->Some_0.dn() == date_spec(k2, y)->Some_0.dn());
        assert(false);
    }
}

proof fn lemma_all_kinds_listed(r: GermanRegion, y: int)
    ensures
        forall|i: int|
            0 <= i < holidays_in_year_seq(r, y).len() ==> listed_kind(
                #[trigger] holidays_in_year_seq(r, y)[i],
            ),
{
    if y >= 1995 {
        assert(forall|i: int|
            0 <= i < holidays_in_year_seq(r, y).len() ==> listed_kind(
                #[trigger] holidays_in_year_seq(r, y)[i],
            ));
    }
}

/// For every region and year, no two listed kinds share a date, provided
/// Easter lies in its calendar window and Ascension day (Easter + 39) does
/// not fall on May 1 — the one collision the catalog admits.
pub proof fn lemma_distinct_dates_from_calendar(r: GermanRegion, y: int)
    requires
        computus_domain(y) ==> easter_in_window(y) && easter_doy(y) + 39 != day_of_year(y, 5, 1),
    ensures
        distinct_holiday_dates(r, y),
{
    lemma_no_duplicate_kinds(r, y);
    lemma_all_kinds_listed(r, y);
    let s = holidays_in_year_seq(r, y);
    assert forall|i: int, j: int|
        (0 <= i < s.len() && 0 <= j < s.len() && i != j && (#[trigger] date_spec(
            s[i],
            y,
        )) is Some) implies date_spec(s[i], y) != #[trigger] date_spec(s[j], y) by {
        lemma_listed_kinds_distinct(s[i], s[j], y);
    }
}

/// Dates a fixed number of days from Easter Sunday keep their distance:
/// whenever two offsets from the same year's Easter both resolve, their
/// day numbers differ by exactly the difference of the offsets.
pub proof fn lemma_easter_offset_difference(y: int, o1: int, o2: int)
    requires
        easter_relative_spec(y, o1) is Some,
        easter_relative_spec(y, o2) is Some,
    ensures
        easter_relative_spec(y, o1)->Some_0.dn() - easter_relative_spec(y, o2)->Some_0.dn() == o1
            - o2,
{
    lemma_date_of_day_number(easter_day_number(y) + o1);
    lemma_date_of_day_number(easter_day_number(y) + o2);
}

/// In 2017 every region observed Reformationstag, the one-time nationwide
/// commemoration, whatever its standing rule says.
pub proof fn lemma_reformationstag_everywhere_in_2017(r: GermanRegion)
    ensures
        holidays_in_year_seq(r, 2017).contains(GermanHoliday::Reformationstag),
{
    let base = nationwide_seq() + region_specific_seq(r, 2017);
    if !base.contains(GermanHoliday::Reformationstag) {
        assert(holidays_in_year_seq(r, 2017)[base.len() as int]
            == GermanHoliday::Reformationstag);
    }
}

/// From 1995 on, every region observes every nationwide holiday.
pub proof fn lemma_nationwide_observed(r: GermanRegion, y: int, k: GermanHoliday)
    requires
        y >= 1995,
        nationwide_seq().contains(k),
    ensures
        holidays_in_year_seq(r, y).contains(k),
{
    let i = choose|i: int| 0 <= i < nationwide_seq().len() && nationwide_seq()[i] == k;
    assert(holidays_in_year_seq(r, y)[i] == k);
}

/// No region's holiday list for any year names a kind twice.
pub proof fn lemma_no_duplicate_kinds(r: GermanRegion, y: int)
    ensures
        holidays_in_year_seq(r, y).no_duplicates(),
{
    if y >= 1995 {
        assert(holidays_in_year_seq(r, y).no_duplicates());
    }
}

/// Every pair of the resolved date list comes from a kind of the source
/// list, dated by the catalog's rule.
proof fn lemma_resolved_dates_elem(s: Seq<GermanHoliday>, y: int, p: (Date, GermanHoliday))
    requires
        resolved_dates(s, y).contains(p),
    ensures
        s.contains(p.1),
        date_spec(p.1, y) == Some(p.0),
    decreases s.len(),
{
    if s.len() > 0 {
        let rest = resolved_dates(s.drop_last(), y);
        if rest.contains(p) {
            lemma_resolved_dates_elem(s.drop_last(), y, p);
            let j = choose|j: int| 0 <= j < s.drop_last().len() && s.drop_last()[j] == p.1;
            assert(s[j] == p.1);
        } else {
            match date_spec(s.last(), y) {
                Some(d) => {
                    let res = resolved_dates(s, y);
                    let a = choose|a: int| 0 <= a < res.len() && res[a] == p;
                    if a < rest.len() {
                        assert(rest.contains(p));
                    } else {
                        assert(p == (d, s.last()));
                        assert(s[s.len() - 1] == p.1);
                    }
                },
                None => {},
            }
        }
    }
}

/// When no two kinds of the list share a date, the resolved dates are
/// pairwise different.
proof fn lemma_resolved_dates_distinct(s: Seq<GermanHoliday>, y: int)
    requires
        distinct_dates_in(s, y),
    ensures
        forall|a: int, b: int|
            0 <= a < resolved_dates(s, y).len() && 0 <= b < resolved_dates(s, y).len() && a != b
                ==> (#[trigger] resolved_dates(s, y)[a]).0 != (#[trigger] resolved_dates(s, y)[b]).0,
    decreases s.len(),
{
    if s.len() > 0 {
        let prefix = s.drop_last();
        assert(distinct_dates_in(prefix, y)) by {
            assert forall|i: int, j: int|
                (0 <= i < prefix.len() && 0 <= j < prefix.len() && i != j && (#[trigger] date_spec(
                    prefix[i],
                    y,
                )) is Some) implies date_spec(prefix[i], y) != #[trigger] date_spec(
                prefix[j],
                y,
            ) by {
                assert(prefix[i] == s[i] && prefix[j] == s[j]);
                assert(date_spec(s[i], y) != date_spec(s[j], y));
            }
        }
        lemma_resolved_dates_distinct(prefix, y);
        let rest = resolved_dates(prefix, y);
        let res = resolved_dates(s, y);
        match date_spec(s.last(), y) {
            Some(d) => {
                assert forall|a: int| 0 <= a < rest.len() implies (#[trigger] rest[a]).0 != d by {
                    assert(rest.contains(rest[a]));
                    lemma_resolved_dates_elem(prefix, y, rest[a]);
                    let j = choose|j: int| 0 <= j < prefix.len() && prefix[j] == rest[a].1;
                    assert(s[j] == rest[a].1);
                    assert(date_spec(s[s.len() - 1], y) != date_spec(s[j], y));
                }
                assert(forall|a: int|
                    0 <= a < res.len() - 1 ==> #[trigger] res[a] == rest[a]);
                assert(res[res.len() - 1] == (d, s.last()));
            },
            None => {},
        }
    }
}

proof fn lemma_first_match_at(s: Seq<GermanHoliday>, y: int, d: Date, i: int)
    requires
        0 <= i < s.len(),
        date_spec(s[i], y) == Some(d),
        forall|j: int| 0 <= j < i ==> date_spec(#[trigger] s[j], y) != Some(d),
    ensures
        first_match_in(s, y, d) == Some(s[i]),
    decreases s.len(),
{
    if i > 0 {
        lemma_first_match_at(s.drop_first(), y, d, i - 1);
    }
}

/// Round trip: a kind of the region's year list whose date resolves is
/// found again by the date lookup, provided no other kind of that list
/// shares its date and Easter lies in its calendar window (so that the
/// date lies in the queried year).
pub proof fn lemma_round_trip(r: GermanRegion, y: int, d: Date, k: GermanHoliday)
    requires
        computus_domain(y) ==> easter_in_window(y),
        distinct_holiday_dates(r, y),
        holidays_in_year_seq(r, y).contains(k),
        date_spec(k, y) == Some(d),
    ensures
        holiday_from_date_spec(r, d) == Some(k),
{
    let s = holidays_in_year_seq(r, y);
    let i = choose|i: int| 0 <= i < s.len() && s[i] == k;
    lemma_date_spec_in_year(k, y);
    assert forall|j: int| 0 <= j < i implies date_spec(#[trigger] s[j], y) != Some(d) by {
        assert(date_spec(s[i], y) != date_spec(s[j], y));
    }
    lemma_first_match_at(s, y, d, i);
}

/// Round trip for the pairs of the resolved date list: looking the date of
/// any returned pair up again yields that pair's kind.
pub proof fn lemma_holiday_dates_round_trip(r: GermanRegion, y: int, p: (Date, GermanHoliday))
    requires
        computus_domain(y) ==> easter_in_window(y),
        distinct_holiday_dates(r, y),
        resolved_dates(holidays_in_year_seq(r, y), y).contains(p),
    ensures
        holiday_from_date_spec(r, p.0) == Some(p.1),
{
    lemma_resolved_dates_elem(holidays_in_year_seq(r, y), y, p);
    lemma_round_trip(r, y, p.0, p.1);
}

/// A sorted list holding exactly the resolved dates of a region and year
/// with pairwise different dates is strictly increasing in the date axis.
pub proof fn lemma_holiday_dates_strictly_increasing(
    r: GermanRegion,
    y: int,
    out: Seq<(Date, GermanHoliday)>,
)
    requires
        distinct_holiday_dates(r, y),
        sorted_by_day_number(out),
        out.to_multiset() == resolved_dates(holidays_in_year_seq(r, y), y).to_multiset(),
        forall|i: int| 0 <= i < out.len() ==> (#[trigger] out[i]).0.wf(),
    ensures
        forall|i: int, j: int|
            0 <= i < j < out.len() ==> (#[trigger] out[i]).0.dn() < (#[trigger] out[j]).0.dn(),
{
    broadcast use vstd::seq_lib::group_to_multiset_ensures;
    broadcast use vstd::multiset::group_multiset_axioms;

    let s = holidays_in_year_seq(r, y);
    let res = resolved_dates(s, y);
    lemma_resolved_dates_distinct(s, y);
    res.lemma_multiset_has_no_duplicates();
    out.lemma_multiset_has_no_duplicates_conv();
    assert forall|i: int, j: int| 0 <= i < j < out.len() implies (#[trigger] out[i]).0.dn() < (
    #[trigger] out[j]).0.dn() by {
        assert(out[i] != out[j]);
        assert(out.contains(out[i]) && out.contains(out[j]));
        assert(res.to_multiset().count(out[i]) > 0);
        assert(res.to_multiset().count(out[j]) > 0);
        assert(res.contains(out[i]) && res.contains(out[j]));
        let a = choose|a: int| 0 <= a < res.len() && res[a] == out[i];
        let b = choose|b: int| 0 <= b < res.len() && res[b] == out[j];
        assert(a != b);
        assert(out[i].0 != out[j].0);
        if out[i].0.dn() == out[j].0.dn() {
            lemma_day_number_injective(out[i].0, out[j].0);
        }
    }
}

} // verus!

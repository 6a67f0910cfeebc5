//! The regions of Germany and the public holidays each observes per year,
//! with the year-gated historical rule changes.

use vstd::prelude::*;
use crate::calendar::Date;
use crate::holidays::GermanHoliday;
use crate::holidays::GermanHoliday::Allerheiligen;
use crate::holidays::GermanHoliday::AugsburgerFriedensfest;
use crate::holidays::GermanHoliday::BussUndBettag;
use crate::holidays::GermanHoliday::ChristiHimmelfahrt;
use crate::holidays::GermanHoliday::ErsterMai;
use crate::holidays::GermanHoliday::ErsterWeihnachtsfeiertag;
use crate::holidays::GermanHoliday::Frauentag;
use crate::holidays::GermanHoliday::Fronleichnam;
use crate::holidays::GermanHoliday::HeiligeDreiKoenige;
use crate::holidays::GermanHoliday::Karfreitag;
use crate::holidays::GermanHoliday::MariaeHimmelfahrt;
use crate::holidays::GermanHoliday::Neujahr;
use crate::holidays::GermanHoliday::Ostermontag;
use crate::holidays::GermanHoliday::Pfingstmontag;
use crate::holidays::GermanHoliday::Reformationstag;
use crate::holidays::GermanHoliday::TagDerDeutschenEinheit;
use crate::holidays::GermanHoliday::Weltkindertag;
use crate::holidays::GermanHoliday::ZweiterWeihnachtsfeiertag;
use crate::calendar::day_number_x;
use crate::holidays::date_spec;
use crate::holidays::lemma_date_spec_wf;

verus! {

/// The regions of Germany, with their public holidays.
///
/// Where the holiday set varies within a federal state, the state appears
/// as more than one region (Bavaria by confession and for Augsburg; Saxony
/// and Thuringia with and without Fronleichnam).
#[derive(Clone, Copy, Debug, PartialEq, Eq, Structural)]
pub enum GermanRegion {
    BadenWuerttemberg,
    /// Communities of Bavaria with Protestant majorities.
    BayernEv,
    /// Communities of Bavaria with Catholic majorities, not including Augsburg.
    BayernKath,
    Augsburg,
    Berlin,
    Brandenburg,
    Bremen,
    Hamburg,
    Hessen,
    MecklenburgVorpommern,
    Niedersachsen,
    NordrheinWestfalen,
    RheinlandPfalz,
    Saarland,
    /// Parts of Saxony where Fronleichnam is not a public holiday.
    SachsenOhneFronleichnam,
    /// Parts of Saxony where Fronleichnam is a public holiday.
    SachsenMitFronleichnam,
    SachsenAnhalt,
    SchleswigHolstein,
    /// Parts of Thuringia where Fronleichnam is not a public holiday.
    ThueringenOhneFronleichnam,
    /// Parts of Thuringia where Fronleichnam is a public holiday.
    ThueringenMitFronleichnam,
}

/// The public holidays observed in every region.
pub open spec fn nationwide_seq() -> Seq<GermanHoliday> {
    seq![
        Neujahr,
        Karfreitag,
        Ostermontag,
        ErsterMai,
        ChristiHimmelfahrt,
        Pfingstmontag,
        TagDerDeutschenEinheit,
        ErsterWeihnachtsfeiertag,
        ZweiterWeihnachtsfeiertag,
    ]
}

/// The holidays a region observes beyond the nationwide ones in year `y`,
/// with the historical rule changes as year gates.
pub open spec fn region_specific_seq(r: GermanRegion, y: int) -> Seq<GermanHoliday> {
    match r {
        GermanRegion::BadenWuerttemberg => seq![HeiligeDreiKoenige, Fronleichnam, Allerheiligen],
        GermanRegion::BayernEv => seq![HeiligeDreiKoenige, Fronleichnam, Allerheiligen],
        GermanRegion::BayernKath => seq![
            HeiligeDreiKoenige,
            Fronleichnam,
            MariaeHimmelfahrt,
            Allerheiligen,
        ],
        GermanRegion::Augsburg => seq![
            HeiligeDreiKoenige,
            Fronleichnam,
            AugsburgerFriedensfest,
            MariaeHimmelfahrt,
            Allerheiligen,
        ],
        GermanRegion::Berlin => if y >= 2019 {
            seq![Frauentag]
        } else {
            Seq::empty()
        },
        GermanRegion::Brandenburg => seq![Reformationstag],
        GermanRegion::Bremen => if y >= 2017 {
            seq![Reformationstag]
        } else {
            Seq::empty()
        },
        GermanRegion::Hamburg => if y >= 2017 {
            seq![Reformationstag]
        } else {
            Seq::empty()
        },
        GermanRegion::Hessen => seq![Fronleichnam],
        GermanRegion::MecklenburgVorpommern => if y >= 2023 {
            seq![Frauentag, Reformationstag]
        } else {
            seq![Reformationstag]
        },
        GermanRegion::Niedersachsen => if y >= 2017 {
            seq![Reformationstag]
        } else {
            Seq::empty()
        },
        GermanRegion::NordrheinWestfalen => seq![Fronleichnam, Allerheiligen],
        GermanRegion::RheinlandPfalz => seq![Fronleichnam, Allerheiligen],
        GermanRegion::Saarland => seq![Fronleichnam, MariaeHimmelfahrt, Allerheiligen],
        GermanRegion::SachsenOhneFronleichnam => seq![Reformationstag, BussUndBettag],
        GermanRegion::SachsenMitFronleichnam => seq![Fronleichnam, Reformationstag, BussUndBettag],
        GermanRegion::SachsenAnhalt => seq![HeiligeDreiKoenige, Reformationstag],
        GermanRegion::SchleswigHolstein => if y >= 2017 {
            seq![Reformationstag]
        } else {
            Seq::empty()
        },
        GermanRegion::ThueringenOhneFronleichnam => if y >= 2019 {
            seq![Weltkindertag, Reformationstag]
        } else {
            seq![Reformationstag]
        },
        GermanRegion::ThueringenMitFronleichnam => if y >= 2019 {
            seq![Fronleichnam, Reformationstag]
        } else {
            seq![Fronleichnam, Weltkindertag, Reformationstag]
        },
    }
}

/// The full public holiday list of a region for a year: empty before 1995,
/// otherwise the nationwide holidays, the region's own, and for 2017 alone
/// the one-time nationwide Reformationstag where it is not already present.
pub open spec fn holidays_in_year_seq(r: GermanRegion, y: int) -> Seq<GermanHoliday> {
    if y < 1995 {
        Seq::empty()
    } else {
        let base = nationwide_seq() + region_specific_seq(r, y);
        if y == 2017 && !base.contains(Reformationstag) {
            base.push(Reformationstag)
        } else {
            base
        }
    }
}

/// The (date, holiday) pairs of the kinds in `s` whose date resolves in
/// year `y`, in the order of `s`.
pub open spec fn resolved_dates(s: Seq<GermanHoliday>, y: int) -> Seq<(Date, GermanHoliday)>
    decreases s.len(),
{
    if s.len() == 0 {
        Seq::empty()
    } else {
        let rest = resolved_dates(s.drop_last(), y);
        match date_spec(s.last(), y) {
            Some(d) => rest.push((d, s.last())),
            None => rest,
        }
    }
}

/// The pairs are in ascending order of their dates' day numbers.
pub open spec fn sorted_by_day_number(s: Seq<(Date, GermanHoliday)>) -> bool {
    forall|i: int, j: int| 0 <= i <= j < s.len() ==> (#[trigger] s[i]).0.dn() <= (#[trigger] s[j]).0.dn()
}

/// The first kind in `s` whose date in year `y` is exactly `d`.
pub open spec fn first_match_in(s: Seq<GermanHoliday>, y: int, d: Date) -> Option<GermanHoliday>
    decreases s.len(),
{
    if s.len() == 0 {
        None
    } else if date_spec(s[0], y) == Some(d) {
        Some(s[0])
    } else {
        first_match_in(s.drop_first(), y, d)
    }
}

/// The first holiday of the region's list for the date's year that falls on
/// the given date.
pub open spec fn holiday_from_date_spec(r: GermanRegion, d: Date) -> Option<GermanHoliday> {
    first_match_in(holidays_in_year_seq(r, d.year as int), d.year as int, d)
}

/// No two distinct entries of `s` resolve to the same date in year `y`.
pub open spec fn distinct_dates_in(s: Seq<GermanHoliday>, y: int) -> bool {
    forall|i: int, j: int|
        #![trigger date_spec(s[i], y), date_spec(s[j], y)]
        (0 <= i < s.len() && 0 <= j < s.len() && i != j && date_spec(s[i], y) is Some)
            ==> date_spec(s[i], y) != date_spec(s[j], y)
}

/// No two distinct entries of the region's year list resolve to the same
/// date. This holds of every region and year whose observed kinds all fall
/// on pairwise different days.
pub open spec fn distinct_holiday_dates(r: GermanRegion, y: int) -> bool {
    distinct_dates_in(holidays_in_year_seq(r, y), y)
}

proof fn lemma_insert_to_multiset<A>(s: Seq<A>, j: int, x: A)
    requires
        0 <= j <= s.len(),
    ensures
        s.insert(j, x).to_multiset() == s.to_multiset().insert(x),
{
    broadcast use vstd::seq_lib::group_to_multiset_ensures;
    broadcast use vstd::multiset::group_multiset_axioms;

    assert(s.insert(j, x) =~= s.take(j).push(x) + s.skip(j));
    vstd::seq_lib::lemma_multiset_commutative(s.take(j).push(x), s.skip(j));
    assert(s.take(j) + s.skip(j) =~= s);
    vstd::seq_lib::lemma_multiset_commutative(s.take(j), s.skip(j));
    assert(s.insert(j, x).to_multiset() =~= s.to_multiset().insert(x));
}

/// Inserts the pair at its place in a list sorted by day number.
fn insert_sorted(v: &mut Vec<(Date, GermanHoliday)>, p: (Date, GermanHoliday))
    requires
        sorted_by_day_number(old(v)@),
        forall|i: int| 0 <= i < old(v)@.len() ==> (#[trigger] old(v)@[i]).0.wf(),
        p.0.wf(),
    ensures
        final(v)@.len() == old(v)@.len() + 1,
        sorted_by_day_number(final(v)@),
        final(v)@.to_multiset() == old(v)@.to_multiset().insert(p),
        forall|i: int| 0 <= i < final(v)@.len() ==> (#[trigger] final(v)@[i]).0.wf(),
        forall|q: (Date, GermanHoliday)|
            final(v)@.contains(q) <==> old(v)@.contains(q) || q == p,
{
    let key = day_number_x(p.0.year, p.0.month, p.0.day);
    let mut pos: usize = 0;
    for i in 0..v.len()
        invariant
            v@ == old(v)@,
            sorted_by_day_number(v@),
            forall|k: int| 0 <= k < v@.len() ==> (#[trigger] v@[k]).0.wf(),
            key == p.0.dn(),
            pos <= i <= v@.len(),
            forall|k: int| 0 <= k < pos ==> (#[trigger] v@[k]).0.dn() <= key,
            forall|k: int| pos <= k < i ==> (#[trigger] v@[k]).0.dn() > key,
    {
        let e = v[i];
        let k2 = day_number_x(e.0.year, e.0.month, e.0.day);
        if k2 <= key {
            pos = i + 1;
        }
    }
    let ghost s0 = v@;
    let ghost gpos = pos as int;
    v.insert(pos, p);
    proof {
        broadcast use vstd::seq_lib::group_to_multiset_ensures;
        broadcast use vstd::multiset::group_multiset_axioms;

        lemma_insert_to_multiset(s0, gpos, p);
        assert(forall|k: int| 0 <= k < gpos ==> v@[k] == s0[k]);
        assert(v@[gpos] == p);
        assert(forall|k: int| gpos < k < v@.len() ==> v@[k] == s0[k - 1]);
        assert forall|i: int, j: int| 0 <= i <= j < v@.len() implies (#[trigger] v@[i]).0.dn()
            <= (#[trigger] v@[j]).0.dn() by {
            if i < gpos && j == gpos {
            } else if i == gpos && gpos < j {
                assert(s0[j - 1].0.dn() > key);
            }
        }
        assert forall|q: (Date, GermanHoliday)| v@.contains(q) <==> s0.contains(q) || q == p by {
            assert(v@.contains(q) <==> v@.to_multiset().count(q) > 0);
            assert(s0.contains(q) <==> s0.to_multiset().count(q) > 0);
        }
    }
}

/// The public holidays observed in every region of Germany.
pub fn nationwide_holidays() -> (r: Vec<GermanHoliday>)
    ensures
        r@ == nationwide_seq(),
{
    let v: Vec<GermanHoliday> = vec![
        Neujahr,
        Karfreitag,
        Ostermontag,
        ErsterMai,
        ChristiHimmelfahrt,
        Pfingstmontag,
        TagDerDeutschenEinheit,
        ErsterWeihnachtsfeiertag,
        ZweiterWeihnachtsfeiertag,
    ];
    proof {
        assert(v@ =~= nationwide_seq());
    }
    v
}

fn contains_kind(v: &Vec<GermanHoliday>, h: GermanHoliday) -> (r: bool)
    ensures
        r == v@.contains(h),
{
    for i in 0..v.len()
        invariant
            forall|j: int| 0 <= j < i ==> v@[j] != h,
    {
        if v[i] == h {
            return true;
        }
    }
    false
}

impl GermanRegion {
    /// The holidays this region observes beyond the nationwide ones in the
    /// given year.
    pub fn region_specific_holidays(&self, year: i32) -> (r: Vec<GermanHoliday>)
        ensures
            r@ == region_specific_seq(*self, year as int),
    {
        let v: Vec<GermanHoliday> = match self {
            GermanRegion::BadenWuerttemberg => vec![HeiligeDreiKoenige, Fronleichnam, Allerheiligen],
            GermanRegion::BayernEv => vec![HeiligeDreiKoenige, Fronleichnam, Allerheiligen],
            GermanRegion::BayernKath => vec![
                HeiligeDreiKoenige,
                Fronleichnam,
                MariaeHimmelfahrt,
                Allerheiligen,
            ],
            GermanRegion::Augsburg => vec![
                HeiligeDreiKoenige,
                Fronleichnam,
                AugsburgerFriedensfest,
                MariaeHimmelfahrt,
                Allerheiligen,
            ],
            GermanRegion::Berlin => if year >= 2019 {
                vec![Frauentag]
            } else {
                Vec::new()
            },
            GermanRegion::Brandenburg => vec![Reformationstag],
            GermanRegion::Bremen => if year >= 2017 {
                vec![Reformationstag]
            } else {
                Vec::new()
            },
            GermanRegion::Hamburg => if year >= 2017 {
                vec![Reformationstag]
            } else {
                Vec::new()
            },
            GermanRegion::Hessen => vec![Fronleichnam],
            GermanRegion::MecklenburgVorpommern => if year >= 2023 {
                vec![Frauentag, Reformationstag]
            } else {
                vec![Reformationstag]
            },
            GermanRegion::Niedersachsen => if year >= 2017 {
                vec![Reformationstag]
            } else {
                Vec::new()
            },
            GermanRegion::NordrheinWestfalen => vec![Fronleichnam, Allerheiligen],
            GermanRegion::RheinlandPfalz => vec![Fronleichnam, Allerheiligen],
            GermanRegion::Saarland => vec![Fronleichnam, MariaeHimmelfahrt, Allerheiligen],
            GermanRegion::SachsenOhneFronleichnam => vec![Reformationstag, BussUndBettag],
            GermanRegion::SachsenMitFronleichnam => vec![
                Fronleichnam,
                Reformationstag,
                BussUndBettag,
            ],
            GermanRegion::SachsenAnhalt => vec![HeiligeDreiKoenige, Reformationstag],
            GermanRegion::SchleswigHolstein => if year >= 2017 {
                vec![Reformationstag]
            } else {
                Vec::new()
            },
            GermanRegion::ThueringenOhneFronleichnam => if year >= 2019 {
                vec![Weltkindertag, Reformationstag]
            } else {
                vec![Reformationstag]
            },
            GermanRegion::ThueringenMitFronleichnam => if year >= 2019 {
                vec![Fronleichnam, Reformationstag]
            } else {
                vec![Fronleichnam, Weltkindertag, Reformationstag]
            },
        };
        proof {
            assert(v@ =~= region_specific_seq(*self, year as int));
        }
        v
    }

    /// Returns all public holidays of the region in the given year.
    ///
    /// For years before 1995 the list is empty.
    pub fn holidays_in_year(&self, year: i32) -> (r: Vec<GermanHoliday>)
        ensures
            r@ == holidays_in_year_seq(*self, year as int),
    {
        if year < 1995 {
            let v: Vec<GermanHoliday> = Vec::new();
            proof {
                assert(v@ =~= holidays_in_year_seq(*self, year as int));
            }
            return v;
        }
        let mut v = nationwide_holidays();
        let mut extra = self.region_specific_holidays(year);
        v.append(&mut extra);
        if year == 2017 && !contains_kind(&v, Reformationstag) {
            v.push(Reformationstag);
        }
        v
    }

    /// Returns all holidays of the region in the given year together with
    /// their dates, in ascending date order. Kinds whose date cannot be
    /// calculated are left out.
    ///
    /// For years before 1995 the list is empty.
    pub fn holiday_dates_in_year(&self, year: i32) -> (r: Vec<(Date, GermanHoliday)>)
        ensures
            sorted_by_day_number(r@),
            r@.to_multiset() == resolved_dates(
                holidays_in_year_seq(*self, year as int),
                year as int,
            ).to_multiset(),
            forall|i: int|
                0 <= i < r@.len() ==> (#[trigger] r@[i]).0.wf() && date_spec(
                    r@[i].1,
                    year as int,
                ) == Some(r@[i].0),
    {
        let ks = self.holidays_in_year(year);
        let mut out: Vec<(Date, GermanHoliday)> = Vec::new();
        proof {
            assert(ks@.take(0) =~= Seq::<GermanHoliday>::empty());
            assert(out@ == resolved_dates(ks@.take(0), year as int));
        }
        for i in 0..ks.len()
            invariant
                ks@ == holidays_in_year_seq(*self, year as int),
                sorted_by_day_number(out@),
                out@.to_multiset() == resolved_dates(ks@.take(i as int), year as int).to_multiset(),
                forall|q: (Date, GermanHoliday)|
                    out@.contains(q) ==> q.0.wf() && date_spec(q.1, year as int) == Some(q.0),
                forall|k: int| 0 <= k < out@.len() ==> (#[trigger] out@[k]).0.wf(),
        {
            let k = ks[i];
            let d_opt = k.date(year);
            proof {
                broadcast use vstd::seq_lib::group_to_multiset_ensures;

                assert(ks@.take(i as int + 1).drop_last() =~= ks@.take(i as int));
                assert(ks@.take(i as int + 1).last() == ks@[i as int]);
                lemma_date_spec_wf(k, year as int);
            }
            match d_opt {
                Some(d) => {
                    insert_sorted(&mut out, (d, k));
                },
                None => {},
            }
        }
        proof {
            assert(ks@.take(ks@.len() as int) =~= ks@);
            assert forall|i: int|
                0 <= i < out@.len() implies (#[trigger] out@[i]).0.wf() && date_spec(
                out@[i].1,
                year as int,
            ) == Some(out@[i].0) by {
                assert(out@.contains(out@[i]));
            }
        }
        out
    }

    /// Returns the holiday falling on the given date in this region, if the
    /// date is a public holiday there: the first kind of the year's list
    /// whose date equals the query.
    ///
    /// Always `None` for dates before 1995.
    pub fn holiday_from_date(&self, date: Date) -> (r: Option<GermanHoliday>)
        ensures
            r == holiday_from_date_spec(*self, date),
    {
        let ks = self.holidays_in_year(date.year);
        proof {
            assert(ks@.skip(0) =~= ks@);
        }
        for i in 0..ks.len()
            invariant
                ks@ == holidays_in_year_seq(*self, date.year as int),
                first_match_in(ks@, date.year as int, date) == first_match_in(
                    ks@.skip(i as int),
                    date.year as int,
                    date,
                ),
        {
            let k = ks[i];
            let d_opt = k.date(date.year);
            proof {
                assert(ks@.skip(i as int).drop_first() =~= ks@.skip(i as int + 1));
                assert(ks@.skip(i as int)[0] == ks@[i as int]);
            }
            match d_opt {
                Some(d) => {
                    if d == date {
                        return Some(k);
                    }
                },
                None => {},
            }
        }
        proof {
            assert(ks@.skip(ks@.len() as int) =~= Seq::<GermanHoliday>::empty());
        }
        None
    }

    /// Checks whether the given date is a public holiday in this region.
    ///
    /// Always `false` for dates before 1995.
    pub fn is_holiday(&self, date: Date) -> (r: bool)
        ensures
            r == (holiday_from_date_spec(*self, date) is Some),
    {
        self.holiday_from_date(date).is_some()
    }
}

} // verus!

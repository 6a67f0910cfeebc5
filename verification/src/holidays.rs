//! The catalog of recurring German holidays: every kind, its date rule and
//! its German display name.

use vstd::prelude::*;
use crate::calendar::Date;
use crate::calendar::day_number;
use crate::calendar::days_before_month;
use crate::calendar::lemma_date_of_day_number;
use crate::calendar::lemma_year_spans_unique;
use crate::calendar::year_spans;
use crate::calendar::lemma_day_of_year_bounds;
use crate::calendar::lemma_days_before_year_bound;
use crate::calendar::weekday_from_monday;
use crate::calendar::weekday_x;
use crate::calendar::year_in_range;
use crate::easter::easter_relative_spec;
use crate::easter::relative_to_easter_sunday;

verus! {

/// All recurring holidays in Germany, public and non-public ones.
///
/// For the public holidays of a particular region use `GermanRegion`:
/// which of these kinds count as public holidays differs from region
/// to region.
#[derive(Clone, Copy, Debug, PartialEq, Eq, Structural)]
pub enum GermanHoliday {
    Neujahr,
    HeiligeDreiKoenige,
    Frauentag,
    Faschingsdienstag,
    Aschermittwoch,
    Gruendonnerstag,
    Karfreitag,
    Ostersonntag,
    Ostermontag,
    ErsterMai,
    ChristiHimmelfahrt,
    Pfingstsonntag,
    Pfingstmontag,
    Fronleichnam,
    AugsburgerFriedensfest,
    MariaeHimmelfahrt,
    Weltkindertag,
    TagDerDeutschenEinheit,
    Reformationstag,
    Allerheiligen,
    BussUndBettag,
    Heiligabend,
    ErsterWeihnachtsfeiertag,
    ZweiterWeihnachtsfeiertag,
    Silvester,
}

/// The fixed calendar date month `m`, day `d` of year `y`, for the years
/// the library models.
pub open spec fn fixed_date_spec(y: int, m: int, d: int) -> Option<Date> {
    if year_in_range(y) {
        Some(Date { year: y as i32, month: m as u8, day: d as u8 })
    } else {
        None
    }
}

/// The Wednesday strictly before November 23: from November 23, step back
/// by (w + 5) days if its weekday ordinal w (Monday = 0) is below 3, and
/// by (w - 2) days otherwise.
pub open spec fn repentance_spec(y: int) -> Option<Date> {
    if year_in_range(y) {
        let w = weekday_from_monday(y, 11, 23);
        let back = if w < 3 {
            w + 5
        } else {
            w - 2
        };
        Some(Date { year: y as i32, month: 11, day: (23 - back) as u8 })
    } else {
        None
    }
}

/// The date each holiday kind falls on in year `y`: a fixed month and day,
/// a fixed offset from Easter Sunday, or the Wednesday before November 23.
pub open spec fn date_spec(h: GermanHoliday, y: int) -> Option<Date> {
    match h {
        GermanHoliday::Neujahr => fixed_date_spec(y, 1, 1),
        GermanHoliday::HeiligeDreiKoenige => fixed_date_spec(y, 1, 6),
        GermanHoliday::Frauentag => fixed_date_spec(y, 3, 8),
        GermanHoliday::Faschingsdienstag => easter_relative_spec(y, -47),
        GermanHoliday::Aschermittwoch => easter_relative_spec(y, -46),
        GermanHoliday::Gruendonnerstag => easter_relative_spec(y, -3),
        GermanHoliday::Karfreitag => easter_relative_spec(y, -2),
        GermanHoliday::Ostersonntag => easter_relative_spec(y, 0),
        GermanHoliday::Ostermontag => easter_relative_spec(y, 1),
        GermanHoliday::ErsterMai => fixed_date_spec(y, 5, 1),
        GermanHoliday::ChristiHimmelfahrt => easter_relative_spec(y, 39),
        GermanHoliday::Pfingstsonntag => easter_relative_spec(y, 49),
        GermanHoliday::Pfingstmontag => easter_relative_spec(y, 50),
        GermanHoliday::Fronleichnam => easter_relative_spec(y, 60),
        GermanHoliday::AugsburgerFriedensfest => fixed_date_spec(y, 8, 8),
        GermanHoliday::MariaeHimmelfahrt => fixed_date_spec(y, 8, 15),
        GermanHoliday::Weltkindertag => fixed_date_spec(y, 9, 20),
        GermanHoliday::TagDerDeutschenEinheit => fixed_date_spec(y, 10, 3),
        GermanHoliday::Reformationstag => fixed_date_spec(y, 10, 31),
        GermanHoliday::Allerheiligen => fixed_date_spec(y, 11, 1),
        GermanHoliday::BussUndBettag => repentance_spec(y),
        GermanHoliday::Heiligabend => fixed_date_spec(y, 12, 24),
        GermanHoliday::ErsterWeihnachtsfeiertag => fixed_date_spec(y, 12, 25),
        GermanHoliday::ZweiterWeihnachtsfeiertag => fixed_date_spec(y, 12, 26),
        GermanHoliday::Silvester => fixed_date_spec(y, 12, 31),
    }
}

fn fixed_date(year: i32, month: u8, day: u8) -> (r: Option<Date>)
    requires
        1 <= month <= 12,
        1 <= day <= 31,
        month == 2 ==> day <= 28,
        month == 4 || month == 6 || month == 9 || month == 11 ==> day <= 30,
    ensures
        r == fixed_date_spec(year as int, month as int, day as int),
{
    if year >= 1 {
        Some(Date { year, month, day })
    } else {
        None
    }
}

fn bus_und_bettag(year: i32) -> (r: Option<Date>)
    ensures
        r == repentance_spec(year as int),
{
    if year < 1 {
        return None;
    }
    let w = weekday_x(year, 11, 23);
    let back = if w < 3 {
        w + 5
    } else {
        w - 2
    };
    Some(Date { year, month: 11, day: 23 - back })
}

/// The fixed day offset from Easter Sunday behind a moveable holiday kind,
/// if the kind is moveable.
pub open spec fn easter_offset_of(h: GermanHoliday) -> Option<int> {
    match h {
        GermanHoliday::Faschingsdienstag => Some(-47),
        GermanHoliday::Aschermittwoch => Some(-46),
        GermanHoliday::Gruendonnerstag => Some(-3),
        GermanHoliday::Karfreitag => Some(-2),
        GermanHoliday::Ostersonntag => Some(0),
        GermanHoliday::Ostermontag => Some(1),
        GermanHoliday::ChristiHimmelfahrt => Some(39),
        GermanHoliday::Pfingstsonntag => Some(49),
        GermanHoliday::Pfingstmontag => Some(50),
        GermanHoliday::Fronleichnam => Some(60),
        _ => None,
    }
}

/// Every date a holiday rule yields is a valid date.
pub proof fn lemma_date_spec_wf(h: GermanHoliday, y: int)
    ensures
        match date_spec(h, y) {
            Some(d) => d.wf(),
            None => true,
        },
{
    if date_spec(h, y) is Some {
        match easter_offset_of(h) {
            Some(off) => {
                lemma_date_of_day_number(crate::easter::easter_day_number(y) + off);
            },
            None => {
                if h is BussUndBettag {
                    lemma_day_of_year_bounds(y, 11, 23);
                    lemma_days_before_year_bound(y);
                    vstd::arithmetic::div_mod::lemma_mod_bound(day_number(y, 11, 23) - 1, 7);
                }
            },
        }
    }
}

/// When Easter Sunday lies in its calendar window, every date a holiday
/// rule yields lies in the queried year. The premise holds of the real
/// calendar for every year Easter is computed for, and the library can
/// check it per year at runtime.
pub proof fn lemma_date_spec_in_year(h: GermanHoliday, y: int)
    requires
        crate::easter::computus_domain(y) ==> crate::easter::easter_in_window(y),
    ensures
        match date_spec(h, y) {
            Some(d) => d.wf() && d.year as int == y,
            None => true,
        },
{
    lemma_date_spec_wf(h, y);
    if date_spec(h, y) is Some {
        match easter_offset_of(h) {
            Some(off) => {
                reveal_with_fuel(days_before_month, 5);
                let n = crate::easter::easter_day_number(y) + off;
                lemma_date_of_day_number(n);
                assert(year_spans(n, y));
                lemma_year_spans_unique(n, date_spec(h, y)->Some_0.year as int, y);
            },
            None => {},
        }
    }
}

impl GermanHoliday {
    /// Calculates the holiday's date in the given year.
    ///
    /// `None` when the date cannot be calculated: the year lies before
    /// year 1, or an Easter-relative rule is asked for a year outside the
    /// ones Easter is computed for.
    pub fn date(&self, year: i32) -> (r: Option<Date>)
        ensures
            r == date_spec(*self, year as int),
    {
        match self {
            GermanHoliday::Neujahr => fixed_date(year, 1, 1),
            GermanHoliday::HeiligeDreiKoenige => fixed_date(year, 1, 6),
            GermanHoliday::Frauentag => fixed_date(year, 3, 8),
            GermanHoliday::Faschingsdienstag => relative_to_easter_sunday(year, -47),
            GermanHoliday::Aschermittwoch => relative_to_easter_sunday(year, -46),
            GermanHoliday::Gruendonnerstag => relative_to_easter_sunday(year, -3),
            GermanHoliday::Karfreitag => relative_to_easter_sunday(year, -2),
            GermanHoliday::Ostersonntag => relative_to_easter_sunday(year, 0),
            GermanHoliday::Ostermontag => relative_to_easter_sunday(year, 1),
            GermanHoliday::ErsterMai => fixed_date(year, 5, 1),
            GermanHoliday::ChristiHimmelfahrt => relative_to_easter_sunday(year, 39),
            GermanHoliday::Pfingstsonntag => relative_to_easter_sunday(year, 49),
            GermanHoliday::Pfingstmontag => relative_to_easter_sunday(year, 50),
            GermanHoliday::Fronleichnam => relative_to_easter_sunday(year, 60),
            GermanHoliday::AugsburgerFriedensfest => fixed_date(year, 8, 8),
            GermanHoliday::MariaeHimmelfahrt => fixed_date(year, 8, 15),
            GermanHoliday::Weltkindertag => fixed_date(year, 9, 20),
            GermanHoliday::TagDerDeutschenEinheit => fixed_date(year, 10, 3),
            GermanHoliday::Reformationstag => fixed_date(year, 10, 31),
            GermanHoliday::Allerheiligen => fixed_date(year, 11, 1),
            GermanHoliday::BussUndBettag => bus_und_bettag(year),
            GermanHoliday::Heiligabend => fixed_date(year, 12, 24),
            GermanHoliday::ErsterWeihnachtsfeiertag => fixed_date(year, 12, 25),
            GermanHoliday::ZweiterWeihnachtsfeiertag => fixed_date(year, 12, 26),
            GermanHoliday::Silvester => fixed_date(year, 12, 31),
        }
    }

    /// The German display name of the holiday.
    pub fn description(&self) -> (r: &'static str)
        ensures
            r@ == name_spec(*self),
    {
        match self {
            GermanHoliday::Neujahr => "Neujahr",
            GermanHoliday::HeiligeDreiKoenige => "Heilige Drei Könige",
            GermanHoliday::Frauentag => "Frauentag",
            GermanHoliday::Faschingsdienstag => "Faschingsdienstag",
            GermanHoliday::Aschermittwoch => "Aschermittwoch",
            GermanHoliday::Gruendonnerstag => "Gründonnerstag",
            GermanHoliday::Karfreitag => "Karfreitag",
            GermanHoliday::Ostersonntag => "Ostersonntag",
            GermanHoliday::Ostermontag => "Ostermontag",
            GermanHoliday::ErsterMai => "Erster Mai",
            GermanHoliday::ChristiHimmelfahrt => "Christi Himmelfahrt",
            GermanHoliday::Pfingstsonntag => "Pfingstsonntag",
            GermanHoliday::Pfingstmontag => "Pfingstmontag",
            GermanHoliday::Fronleichnam => "Fronleichnam",
            GermanHoliday::AugsburgerFriedensfest => "Augsburger Friedensfest",
            GermanHoliday::MariaeHimmelfahrt => "Mariä Himmelfahrt",
            GermanHoliday::Weltkindertag => "Weltkindertag",
            GermanHoliday::TagDerDeutschenEinheit => "Tag der Deutschen Einheit",
            GermanHoliday::Reformationstag => "Reformationstag",
            GermanHoliday::Allerheiligen => "Allerheiligen",
            GermanHoliday::BussUndBettag => "Buß- und Bettag",
            GermanHoliday::Heiligabend => "Heiligabend",
            GermanHoliday::ErsterWeihnachtsfeiertag => "Erster Weihnachtsfeiertag",
            GermanHoliday::ZweiterWeihnachtsfeiertag => "Zweiter Weihnachtsfeiertag",
            GermanHoliday::Silvester => "Silvester",
        }
    }
}

/// The German display name of each holiday kind.
pub open spec fn name_spec(h: GermanHoliday) -> Seq<char> {
    match h {
        GermanHoliday::Neujahr => "Neujahr"@,
        GermanHoliday::HeiligeDreiKoenige => "Heilige Drei Könige"@,
        GermanHoliday::Frauentag => "Frauentag"@,
        GermanHoliday::Faschingsdienstag => "Faschingsdienstag"@,
        GermanHoliday::Aschermittwoch => "Aschermittwoch"@,
        GermanHoliday::Gruendonnerstag => "Gründonnerstag"@,
        GermanHoliday::Karfreitag => "Karfreitag"@,
        GermanHoliday::Ostersonntag => "Ostersonntag"@,
        GermanHoliday::Ostermontag => "Ostermontag"@,
        GermanHoliday::ErsterMai => "Erster Mai"@,
        GermanHoliday::ChristiHimmelfahrt => "Christi Himmelfahrt"@,
        GermanHoliday::Pfingstsonntag => "Pfingstsonntag"@,
        GermanHoliday::Pfingstmontag => "Pfingstmontag"@,
        GermanHoliday::Fronleichnam => "Fronleichnam"@,
        GermanHoliday::AugsburgerFriedensfest => "Augsburger Friedensfest"@,
        GermanHoliday::MariaeHimmelfahrt => "Mariä Himmelfahrt"@,
        GermanHoliday::Weltkindertag => "Weltkindertag"@,
        GermanHoliday::TagDerDeutschenEinheit => "Tag der Deutschen Einheit"@,
        GermanHoliday::Reformationstag => "Reformationstag"@,
        GermanHoliday::Allerheiligen => "Allerheiligen"@,
        GermanHoliday::BussUndBettag => "Buß- und Bettag"@,
        GermanHoliday::Heiligabend => "Heiligabend"@,
        GermanHoliday::ErsterWeihnachtsfeiertag => "Erster Weihnachtsfeiertag"@,
        GermanHoliday::ZweiterWeihnachtsfeiertag => "Zweiter Weihnachtsfeiertag"@,
        GermanHoliday::Silvester => "Silvester"@,
    }
}

} // verus!

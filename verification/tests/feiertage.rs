use feiertage::calendar::Date;
use feiertage::easter::relative_to_easter_sunday;
use feiertage::calendar::weekday_x;
use feiertage::holidays::GermanHoliday;
use feiertage::regions::GermanRegion;

fn d(year: i32, month: u8, day: u8) -> Date {
    Date::new(year, month, day).unwrap()
}

const ALL_REGIONS: [GermanRegion; 20] = [
    GermanRegion::BadenWuerttemberg,
    GermanRegion::BayernEv,
    GermanRegion::BayernKath,
    GermanRegion::Augsburg,
    GermanRegion::Berlin,
    GermanRegion::Brandenburg,
    GermanRegion::Bremen,
    GermanRegion::Hamburg,
    GermanRegion::Hessen,
    GermanRegion::MecklenburgVorpommern,
    GermanRegion::Niedersachsen,
    GermanRegion::NordrheinWestfalen,
    GermanRegion::RheinlandPfalz,
    GermanRegion::Saarland,
    GermanRegion::SachsenOhneFronleichnam,
    GermanRegion::SachsenMitFronleichnam,
    GermanRegion::SachsenAnhalt,
    GermanRegion::SchleswigHolstein,
    GermanRegion::ThueringenOhneFronleichnam,
    GermanRegion::ThueringenMitFronleichnam,
];

#[test]
fn neujahr_feiertag_in_bayern() {
    let date = d(2018, 1, 1);
    assert!(GermanRegion::BayernKath.is_holiday(date));
    assert_eq!(
        Some(GermanHoliday::Neujahr),
        GermanRegion::BayernKath.holiday_from_date(date)
    );
}

#[test]
fn total_number_holidays() {
    let number_holidays = |region: GermanRegion| region.holidays_in_year(2019).len();
    assert_eq!(12, number_holidays(GermanRegion::BadenWuerttemberg));
    assert_eq!(12, number_holidays(GermanRegion::BayernEv));
    assert_eq!(13, number_holidays(GermanRegion::BayernKath));
    assert_eq!(14, number_holidays(GermanRegion::Augsburg));
    assert_eq!(10, number_holidays(GermanRegion::Berlin));
    assert_eq!(10, number_holidays(GermanRegion::Brandenburg));
    assert_eq!(10, number_holidays(GermanRegion::Bremen));
    assert_eq!(10, number_holidays(GermanRegion::Hamburg));
    assert_eq!(10, number_holidays(GermanRegion::Hessen));
    assert_eq!(10, number_holidays(GermanRegion::MecklenburgVorpommern));
    assert_eq!(10, number_holidays(GermanRegion::Niedersachsen));
    assert_eq!(11, number_holidays(GermanRegion::NordrheinWestfalen));
    assert_eq!(11, number_holidays(GermanRegion::RheinlandPfalz));
    assert_eq!(12, number_holidays(GermanRegion::Saarland));
    assert_eq!(11, number_holidays(GermanRegion::SachsenOhneFronleichnam));
    assert_eq!(12, number_holidays(GermanRegion::SachsenMitFronleichnam));
    assert_eq!(11, number_holidays(GermanRegion::SachsenAnhalt));
    assert_eq!(10, number_holidays(GermanRegion::SchleswigHolstein));
    assert_eq!(11, number_holidays(GermanRegion::ThueringenOhneFronleichnam));
    assert_eq!(11, number_holidays(GermanRegion::ThueringenMitFronleichnam));
}

#[test]
fn test_bus_und_bettag_calc() {
    let bus_und_bettag = |year: i32| GermanHoliday::BussUndBettag.date(year);
    assert_eq!(Some(d(2018, 11, 21)), bus_und_bettag(2018));
    assert_eq!(Some(d(2019, 11, 20)), bus_und_bettag(2019));
    assert_eq!(Some(d(2020, 11, 18)), bus_und_bettag(2020));
    assert_eq!(Some(d(2021, 11, 17)), bus_und_bettag(2021));
    assert_eq!(Some(d(2022, 11, 16)), bus_und_bettag(2022));
    assert_eq!(Some(d(2023, 11, 22)), bus_und_bettag(2023));
}

#[test]
fn frauntag_in_berlin_since_2019() {
    assert!(!GermanRegion::Berlin
        .holidays_in_year(2018)
        .contains(&GermanHoliday::Frauentag));
    assert_eq!(None, GermanRegion::Berlin.holiday_from_date(d(2018, 3, 8)));
    assert!(GermanRegion::Berlin
        .holidays_in_year(2019)
        .contains(&GermanHoliday::Frauentag));
    assert_eq!(
        Some(GermanHoliday::Frauentag),
        GermanRegion::Berlin.holiday_from_date(d(2019, 3, 8))
    );
}

#[test]
fn only_provide_holidays_after_1995() {
    assert!(GermanRegion::BadenWuerttemberg
        .holidays_in_year(1994)
        .is_empty());
}

#[test]
fn easter_relative_dates() {
    assert_eq!(Some(d(2016, 3, 27)), GermanHoliday::Ostersonntag.date(2016));
    assert_eq!(Some(d(2018, 4, 1)), GermanHoliday::Ostersonntag.date(2018));
    assert_eq!(Some(d(2018, 3, 30)), GermanHoliday::Karfreitag.date(2018));
    assert_eq!(Some(d(2018, 4, 2)), GermanHoliday::Ostermontag.date(2018));
    assert_eq!(
        Some(d(2018, 5, 10)),
        GermanHoliday::ChristiHimmelfahrt.date(2018)
    );
    assert_eq!(Some(d(2018, 5, 21)), GermanHoliday::Pfingstmontag.date(2018));
    assert_eq!(Some(d(2018, 5, 31)), GermanHoliday::Fronleichnam.date(2018));
    assert_eq!(Some(d(2018, 2, 13)), GermanHoliday::Faschingsdienstag.date(2018));
}

#[test]
fn easter_offsets_cross_year_boundaries() {
    // Easter 2018 was April 1; 401 days later is May 7, 2019.
    assert_eq!(Some(d(2019, 5, 7)), relative_to_easter_sunday(2018, 401));
    // Easter 2016 was March 27; 100 days earlier is December 18, 2015.
    assert_eq!(Some(d(2015, 12, 18)), relative_to_easter_sunday(2016, -100));
    assert_eq!(Some(d(2018, 4, 1)), relative_to_easter_sunday(2018, 0));
    assert_eq!(None, relative_to_easter_sunday(1582, 0));
    assert_eq!(None, relative_to_easter_sunday(2018, i64::MAX));
    assert_eq!(None, relative_to_easter_sunday(2018, i64::MIN));
    // Reaching back before year 1 yields no date.
    assert_eq!(None, relative_to_easter_sunday(1583, -600_000));
}

#[test]
fn date_is_none_outside_supported_years() {
    assert_eq!(None, GermanHoliday::Karfreitag.date(1582));
    assert_eq!(None, GermanHoliday::Karfreitag.date(10000));
    assert_eq!(None, GermanHoliday::Ostersonntag.date(0));
    assert_eq!(None, GermanHoliday::Neujahr.date(0));
    assert_eq!(None, GermanHoliday::Neujahr.date(-2000));
    assert_eq!(None, GermanHoliday::BussUndBettag.date(-1));
    assert_eq!(Some(d(1583, 1, 1)), GermanHoliday::Neujahr.date(1583));
    assert_eq!(Some(d(10000, 1, 1)), GermanHoliday::Neujahr.date(10000));
}

#[test]
fn repentance_day_is_wednesday_before_november_23() {
    for year in [1995, 2000, 2017, 2018, 2019, 2020, 2021, 2022, 2023, 2024, 2400] {
        let date = GermanHoliday::BussUndBettag.date(year).unwrap();
        assert_eq!(2, weekday_x(date.year, date.month, date.day));
        assert_eq!(11, date.month);
        let distance = 23 - date.day as i32;
        assert!((1..=7).contains(&distance));
    }
}

#[test]
fn reformationstag_everywhere_in_2017() {
    for region in ALL_REGIONS {
        assert!(region
            .holidays_in_year(2017)
            .contains(&GermanHoliday::Reformationstag));
        assert!(region.is_holiday(d(2017, 10, 31)));
    }
    assert!(!GermanRegion::Hessen
        .holidays_in_year(2018)
        .contains(&GermanHoliday::Reformationstag));
}

#[test]
fn holiday_dates_sorted_and_round_trip() {
    for region in ALL_REGIONS {
        for year in [1994, 1995, 2017, 2019, 2023] {
            let dates = region.holiday_dates_in_year(year);
            assert_eq!(dates.len(), region.holidays_in_year(year).len());
            for window in dates.windows(2) {
                let a = window[0].0;
                let b = window[1].0;
                assert!((a.year, a.month, a.day) < (b.year, b.month, b.day));
            }
            for (date, kind) in dates {
                assert!(region.is_holiday(date));
                assert_eq!(Some(kind), region.holiday_from_date(date));
                assert_eq!(Some(date), kind.date(year));
            }
        }
    }
}

#[test]
fn descriptions_are_german_names() {
    assert_eq!("Neujahr", GermanHoliday::Neujahr.description());
    assert_eq!("Buß- und Bettag", GermanHoliday::BussUndBettag.description());
    assert_eq!(
        "Tag der Deutschen Einheit",
        GermanHoliday::TagDerDeutschenEinheit.description()
    );
    assert_eq!("Mariä Himmelfahrt", GermanHoliday::MariaeHimmelfahrt.description());
}

#[test]
fn ascension_day_collision_in_2008() {
    // Easter 2008 fell on March 23, so Ascension day coincided with May 1.
    assert!(!feiertage::easter::easter_collision_free(2008));
    assert!(feiertage::easter::easter_collision_free(2016));
    assert!(feiertage::easter::easter_collision_free(2018));
    assert!(feiertage::easter::easter_collision_free(1582));
    assert_eq!(Some(d(2008, 5, 1)), GermanHoliday::ChristiHimmelfahrt.date(2008));
    let may_first = d(2008, 5, 1);
    let dates = GermanRegion::Berlin.holiday_dates_in_year(2008);
    let on_may_first = dates.iter().filter(|(date, _)| *date == may_first).count();
    assert_eq!(2, on_may_first);
    assert_eq!(
        Some(GermanHoliday::ErsterMai),
        GermanRegion::Berlin.holiday_from_date(may_first)
    );
}

#[test]
fn invalid_dates_are_rejected() {
    assert!(Date::new(2018, 2, 29).is_none());
    assert!(Date::new(2020, 2, 29).is_some());
    assert!(Date::new(2018, 13, 1).is_none());
    assert!(Date::new(2018, 0, 1).is_none());
    assert!(Date::new(2018, 4, 31).is_none());
    assert!(Date::new(0, 1, 1).is_none());
    assert!(GermanRegion::Berlin.holiday_from_date(d(2019, 3, 9)).is_none());
}

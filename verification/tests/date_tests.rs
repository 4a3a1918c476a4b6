use imgsort::date::{canonical_stem, dir_prefix, year_name, CandidateDate, Date, TimeOfDay};

#[test]
fn checked_accepts_ordinary_dates() {
    let d = Date::checked(2019, 4, 26).unwrap();
    assert_eq!(d.year, 2019);
    assert_eq!(d.month, 4);
    assert_eq!(d.day, 26);
}

#[test]
fn checked_rejects_out_of_range() {
    assert!(Date::checked(0, 1, 1).is_none());
    assert!(Date::checked(10000, 1, 1).is_none());
    assert!(Date::checked(2019, 0, 1).is_none());
    assert!(Date::checked(2019, 13, 1).is_none());
    assert!(Date::checked(2019, 4, 31).is_none());
    assert!(Date::checked(2019, 4, 0).is_none());
}

#[test]
fn checked_knows_leap_years() {
    assert!(Date::checked(2020, 2, 29).is_some());
    assert!(Date::checked(2019, 2, 29).is_none());
    assert!(Date::checked(1900, 2, 29).is_none());
    assert!(Date::checked(2000, 2, 29).is_some());
}

#[test]
fn dir_prefix_renders_padded() {
    let d = Date::checked(2019, 4, 26).unwrap();
    assert_eq!(dir_prefix(&d), "2019_04_26");
    let d2 = Date::checked(980, 11, 2).unwrap();
    assert_eq!(dir_prefix(&d2), "0980_11_02");
}

#[test]
fn year_name_renders_padded() {
    let d = Date::checked(980, 11, 2).unwrap();
    assert_eq!(year_name(&d), "0980");
    let d2 = Date::checked(2021, 1, 1).unwrap();
    assert_eq!(year_name(&d2), "2021");
}

#[test]
fn canonical_stem_uses_time() {
    let c = CandidateDate {
        date: Date::checked(2019, 4, 26).unwrap(),
        time: Some(TimeOfDay { hour: 10, minute: 26, second: 45 }),
    };
    assert_eq!(canonical_stem(&c), "20190426_102645");
}

#[test]
fn canonical_stem_defaults_to_midnight() {
    let c = CandidateDate { date: Date::checked(2019, 4, 26).unwrap(), time: None };
    assert_eq!(canonical_stem(&c), "20190426_000000");
}

use meilisearch_cli::date::{epoch_of_date, DateLiteral, DateRange};

#[test]
fn epoch_of_the_epoch_is_zero() {
    assert_eq!(epoch_of_date(1970, 1, 1, 0, 0, 0), 0);
}

#[test]
fn epoch_of_known_instants() {
    assert_eq!(epoch_of_date(2019, 1, 1, 0, 0, 0), 1_546_300_800);
    assert_eq!(epoch_of_date(2019, 12, 31, 23, 59, 59), 1_577_836_799);
    assert_eq!(epoch_of_date(2020, 2, 29, 0, 0, 0), 1_582_934_400);
    assert_eq!(epoch_of_date(9999, 12, 31, 23, 59, 59), 253_402_300_799);
}

#[test]
fn epoch_before_1970_is_negative() {
    assert_eq!(epoch_of_date(1969, 12, 31, 23, 59, 59), -1);
    assert_eq!(epoch_of_date(1900, 1, 1, 0, 0, 0), -2_208_988_800);
}

#[test]
fn year_range() {
    let r = DateRange::try_from(&DateLiteral::Year { y: 2019 }).unwrap();
    assert_eq!(r.start, 1_546_300_800);
    assert_eq!(r.end, 1_577_836_799);
}

#[test]
fn december_range_ends_at_new_year() {
    let r = DateRange::try_from(&DateLiteral::YearMonth { y: 2019, m: 12 }).unwrap();
    assert_eq!(r.start, 1_575_158_400);
    assert_eq!(r.end, 1_577_836_799);
}

#[test]
fn leap_february_range() {
    let r = DateRange::try_from(&DateLiteral::YearMonth { y: 2020, m: 2 }).unwrap();
    assert_eq!(r.start, 1_580_515_200);
    assert_eq!(r.end, 1_583_020_799);
}

#[test]
fn day_range_spans_one_day() {
    let r = DateRange::try_from(&DateLiteral::YearMonthDay { y: 2019, m: 10, d: 5 }).unwrap();
    assert_eq!(r.start, 1_570_233_600);
    assert_eq!(r.end, 1_570_319_999);
    assert_eq!(r.end - r.start, 86_399);
}

#[test]
fn unreal_dates_resolve_to_nothing() {
    assert!(DateRange::try_from(&DateLiteral::YearMonthDay { y: 2019, m: 2, d: 29 }).is_none());
    assert!(DateRange::try_from(&DateLiteral::YearMonthDay { y: 2019, m: 4, d: 31 }).is_none());
    assert!(DateRange::try_from(&DateLiteral::YearMonth { y: 2019, m: 0 }).is_none());
    assert!(DateRange::try_from(&DateLiteral::YearMonth { y: 2019, m: 13 }).is_none());
    assert!(DateRange::try_from(&DateLiteral::Year { y: 10000 }).is_none());
}

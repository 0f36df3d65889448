use hotprices_au_rs::date::Date;
use hotprices_au_rs::errors::Error;
use hotprices_au_rs::stores::Store;
use hotprices_au_rs::text::{decimal, integer, same_text};

#[test]
fn a_day_is_read_and_written_as_year_month_day() {
    let day = Date::parse("2024-01-02").unwrap();
    let expected = time::Date::from_calendar_date(2024, time::Month::January, 2).unwrap();
    assert_eq!(day.to_julian_day(), expected.to_julian_day());
    assert_eq!(day.text(), "2024-01-02");
    assert_eq!(Date::parse(&day.text()), Some(day));
    assert_eq!(Date::parse("2020-02-29").unwrap().text(), "2020-02-29");
}

#[test]
fn what_is_no_day_is_not_read() {
    for text in ["", "2024-02-30", "2023-02-29", "2024-1-2", "02-01-2024", "2024-01-02 ", "20240102"] {
        assert!(Date::parse(text).is_none(), "{text}");
    }
}

#[test]
fn days_are_ordered_by_their_number() {
    let earlier = Date::parse("2023-12-31").unwrap();
    let later = Date::parse("2024-01-01").unwrap();
    assert_eq!(later.to_julian_day(), earlier.to_julian_day() + 1);
    assert!(later.is_after(&earlier));
    assert!(!earlier.is_after(&later));
    assert!(!later.is_after(&later));
    assert_eq!(Date::from_julian_day(later.to_julian_day()), Some(later));
}

#[test]
fn a_number_beyond_the_calendar_is_no_day() {
    assert!(Date::from_julian_day(i32::MAX).is_none());
    assert!(Date::from_julian_day(i32::MIN).is_none());
    assert!(Date::from_julian_day(0).is_some());
}

#[test]
fn stores_have_names_and_an_order() {
    assert_eq!(Store::all(), vec![Store::Coles, Store::Woolies]);
    assert_eq!(Store::Coles.name(), "coles");
    assert_eq!(Store::Woolies.name(), "woolies");
    assert!(Store::Coles.selected(None));
    assert!(Store::Coles.selected(Some(Store::Coles)));
    assert!(!Store::Coles.selected(Some(Store::Woolies)));
}

#[test]
fn errors_say_what_kind_they_are() {
    assert_eq!(
        Error::ProductConversion(String::from("Low quantity for conversion")).message(),
        "Conversion error: Low quantity for conversion"
    );
    assert_eq!(Error::AdResult.message(), "Ad result");
    assert_eq!(
        Error::SerdeJson(String::from("x")).message(),
        "Serde error: x"
    );
    assert_eq!(Error::Anyhow(String::from("y")).message(), "Anyhow error: y");
    assert!(matches!(Error::conversion("z"), Error::ProductConversion(reason) if reason == "z"));
}

#[test]
fn numbers_are_written_in_decimal() {
    assert_eq!(decimal(0), "0");
    assert_eq!(decimal(7), "7");
    assert_eq!(decimal(10), "10");
    assert_eq!(decimal(1234567890), "1234567890");
    assert_eq!(decimal(u64::MAX), "18446744073709551615");
    assert_eq!(integer(0), "0");
    assert_eq!(integer(-1), "-1");
    assert_eq!(integer(i64::MIN), "-9223372036854775808");
    assert_eq!(integer(i64::MAX), "9223372036854775807");
}

#[test]
fn texts_are_compared_by_their_characters() {
    assert!(same_text("each", "each"));
    assert!(!same_text("each", "Each"));
    assert!(!same_text("each", "eac"));
}

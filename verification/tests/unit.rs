use hotprices_au_rs::errors::Error;
use hotprices_au_rs::unit::{
    normalise_unit, parse_decimal, parse_str_unit, size_from_groups, Quantity, Unit,
};

fn unit_size(quantity: f64, unit: Unit) -> (Quantity, Unit) {
    (
        Quantity {
            thousandths: (quantity * 1000.0).round() as u64,
        },
        unit,
    )
}

#[test]
fn test_unit_from_size() {
    // Grams
    assert_eq!(parse_str_unit("150g").unwrap(), unit_size(150.0, Unit::Grams));
    assert_eq!(parse_str_unit("1kg").unwrap(), unit_size(1000.0, Unit::Grams));
    assert_eq!(parse_str_unit("50mg").unwrap(), unit_size(0.05, Unit::Grams));

    // Millilitre
    assert_eq!(
        parse_str_unit("10ml").unwrap(),
        unit_size(10.0, Unit::Millilitre)
    );
    assert_eq!(
        parse_str_unit("1l").unwrap(),
        unit_size(1000.0, Unit::Millilitre)
    );

    // Centimetre
    assert_eq!(
        parse_str_unit("10cm").unwrap(),
        unit_size(10.0, Unit::Centimetre)
    );
    assert_eq!(
        parse_str_unit("1m").unwrap(),
        unit_size(100.0, Unit::Centimetre)
    );
    assert_eq!(
        parse_str_unit("1 metre").unwrap(),
        unit_size(100.0, Unit::Centimetre)
    );

    // Each
    assert_eq!(parse_str_unit("5ea").unwrap(), unit_size(5.0, Unit::Each));
    assert_eq!(parse_str_unit("5 each").unwrap(), unit_size(5.0, Unit::Each));
    assert_eq!(parse_str_unit("10 pack").unwrap(), unit_size(10.0, Unit::Each));
    assert_eq!(parse_str_unit("10pk").unwrap(), unit_size(10.0, Unit::Each));
    assert_eq!(parse_str_unit("10 bunch").unwrap(), unit_size(10.0, Unit::Each));
    assert_eq!(parse_str_unit("10 sheets").unwrap(), unit_size(10.0, Unit::Each));
    assert_eq!(
        parse_str_unit("10 sachets").unwrap(),
        unit_size(10.0, Unit::Each)
    );
    assert_eq!(
        parse_str_unit("10 capsules").unwrap(),
        unit_size(10.0, Unit::Each)
    );
    assert_eq!(parse_str_unit("10 ss").unwrap(), unit_size(10.0, Unit::Each));
    assert_eq!(parse_str_unit("10 set").unwrap(), unit_size(10.0, Unit::Each));
    assert_eq!(parse_str_unit("10 pair").unwrap(), unit_size(10.0, Unit::Each));
    assert_eq!(parse_str_unit("10 pairs").unwrap(), unit_size(10.0, Unit::Each));
    assert_eq!(parse_str_unit("3 piece").unwrap(), unit_size(3.0, Unit::Each));
    assert_eq!(
        parse_str_unit("500 tablets").unwrap(),
        unit_size(500.0, Unit::Each)
    );
    assert_eq!(parse_str_unit("12 rolls").unwrap(), unit_size(12.0, Unit::Each));
    assert_eq!(parse_str_unit("2 dozen").unwrap(), unit_size(24.0, Unit::Each));
}

#[test]
fn size_is_read_in_any_case() {
    assert_eq!(parse_str_unit("100G").unwrap(), unit_size(100.0, Unit::Grams));
    assert_eq!(parse_str_unit("2 KG").unwrap(), unit_size(2000.0, Unit::Grams));
}

#[test]
fn size_is_the_first_number_with_a_unit() {
    // "8x70g": 8 is followed by the word "x", which is no unit
    assert!(parse_str_unit("8x70g").is_err());
    assert_eq!(
        parse_str_unit("about 70g or 2 kg").unwrap(),
        unit_size(70.0, Unit::Grams)
    );
    assert!(parse_str_unit("10  pack").is_err());
}

#[test]
fn size_without_number_or_unit_fails() {
    for text in ["unknown-text", "", "150", "g", "each", "12 parsecs"] {
        match parse_str_unit(text) {
            Err(Error::ProductConversion(_)) => {}
            other => panic!("expected a conversion error for {text:?}, got {other:?}"),
        }
    }
}

#[test]
fn unit_words_have_their_factor() {
    assert_eq!(normalise_unit("g").unwrap(), (1_000, Unit::Grams));
    assert_eq!(normalise_unit("kg").unwrap(), (1_000_000, Unit::Grams));
    assert_eq!(normalise_unit("mg").unwrap(), (1, Unit::Grams));
    assert_eq!(normalise_unit("ml").unwrap(), (1_000, Unit::Millilitre));
    assert_eq!(normalise_unit("l").unwrap(), (1_000_000, Unit::Millilitre));
    assert_eq!(normalise_unit("cm").unwrap(), (1_000, Unit::Centimetre));
    assert_eq!(normalise_unit("m").unwrap(), (100_000, Unit::Centimetre));
    assert_eq!(normalise_unit("metre").unwrap(), (100_000, Unit::Centimetre));
    assert_eq!(normalise_unit("dozen").unwrap(), (12_000, Unit::Each));
    assert_eq!(normalise_unit("rolls").unwrap(), (1_000, Unit::Each));
    assert!(matches!(
        normalise_unit("G"),
        Err(Error::ProductConversion(_))
    ));
    assert!(matches!(
        normalise_unit("stone"),
        Err(Error::ProductConversion(_))
    ));
}

#[test]
fn decimal_digits_are_read_exactly() {
    assert_eq!(parse_decimal("0"), Some(0));
    assert_eq!(parse_decimal("007"), Some(7));
    assert_eq!(parse_decimal("18446744073709551615"), Some(u64::MAX));
    assert_eq!(parse_decimal("18446744073709551616"), None);
    assert_eq!(parse_decimal(""), None);
    assert_eq!(parse_decimal("12a"), None);
    assert_eq!(parse_decimal("-1"), None);
}

#[test]
fn size_beyond_the_range_is_an_error() {
    assert!(size_from_groups("18446744073709551615", "mg").is_ok());
    assert!(size_from_groups("18446744073709551615", "g").is_err());
    assert!(size_from_groups("18446744073709552", "kg").is_err());
    assert_eq!(
        size_from_groups("18446744073709", "kg").unwrap(),
        (
            Quantity {
                thousandths: 18_446_744_073_709_000_000
            },
            Unit::Grams
        )
    );
}

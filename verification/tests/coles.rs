use hotprices_au_rs::category::{Category as ProductCategory, FruitAndVeg};
use hotprices_au_rs::conversion::{Category as CategoryTrait, Decoded, Product};
use hotprices_au_rs::date::Date;
use hotprices_au_rs::errors::Error;
use hotprices_au_rs::product::Price;
use hotprices_au_rs::stores::coles::category::Category;
use hotprices_au_rs::stores::coles::http::{categories_url, category_url};
use hotprices_au_rs::stores::coles::product::{
    get_category_from_names, get_quantity_and_unit, OnlineHeir, Pricing, PricingUnit, RawResult,
    SearchResult, TypeTag,
};
use hotprices_au_rs::stores::coles::{get_setup_data, setup_from_fields, setup_from_script};
use hotprices_au_rs::stores::Store;
use hotprices_au_rs::unit::{Quantity, Unit};

fn coles_day() -> Date {
    let date = time::Date::from_calendar_date(2024, time::Month::January, 1).unwrap();
    Date::from_julian_day(date.to_julian_day()).unwrap()
}

fn coles_price(amount: f64) -> Price {
    Price::from_cents((amount * 100.0).round() as i32)
}

fn coles_product() -> SearchResult {
    SearchResult {
        id: 42,
        name: String::from("Product name"),
        brand: String::from("Brand name"),
        description: String::from("BRAND NAME PRODUCT NAME 150G"),
        size: String::from("150g"),
        pricing: Some(Pricing {
            now: coles_price(6.7),
            unit: PricingUnit {
                is_weighted: Some(false),
            },
        }),
        online_heirs: Some(vec![OnlineHeir {
            category: String::from("Fruit"),
        }]),
    }
}

fn coles_entry(kind: &str, has_ad_id: bool, decoded: Result<SearchResult, String>) -> RawResult {
    RawResult {
        tag: TypeTag::Text(String::from(kind)),
        has_ad_id,
        decoded,
    }
}

#[test]
fn test_get_setup_data() {
    let response = r#"
        <!DOCTYPE html><html lang="en">
          <script id="__NEXT_DATA__" type="application/json">
            {
              "buildId": "20240101.01_v1.01.0",
              "runtimeConfig": {
                "BFF_API_SUBSCRIPTION_KEY": "testsubkey"
              }
            }
          </script>
        </html>
    "#;
    let (api_key, version) = get_setup_data(response).expect("Expected success");
    assert_eq!(version, "20240101.01_v1.01.0");
    assert_eq!(api_key, "testsubkey");
}

#[test]
fn setup_data_needs_the_script_and_both_fields() {
    assert!(matches!(
        get_setup_data("<html><body>nothing</body></html>"),
        Err(Error::Anyhow(_))
    ));
    assert!(matches!(
        get_setup_data(r#"<script id="__NEXT_DATA__">{"buildId": "1"}</script>"#),
        Err(Error::SerdeJson(_))
    ));
    assert!(matches!(
        setup_from_script(r#"{"buildId": 1, "runtimeConfig": {"BFF_API_SUBSCRIPTION_KEY": "k"}}"#),
        Err(Error::SerdeJson(_))
    ));
    assert!(matches!(setup_from_script("not json"), Err(Error::SerdeJson(_))));
    assert_eq!(
        setup_from_script(r#"{"buildId": "v", "runtimeConfig": {"BFF_API_SUBSCRIPTION_KEY": "k"}}"#)
            .unwrap(),
        (String::from("k"), String::from("v"))
    );
    assert_eq!(
        setup_from_fields(Some(Some(String::from("k"))), Some(Some(String::from("v")))).unwrap(),
        (String::from("k"), String::from("v"))
    );
    assert!(setup_from_fields(Some(None), Some(Some(String::from("v")))).is_err());
    assert!(setup_from_fields(Some(Some(String::from("k"))), None).is_err());
}

#[test]
fn test_into_products_ad_result_is_removed() {
    let category = Category {
        seo_token: String::from("slug"),
        products: vec![coles_entry(
            "SINGLE_TILE",
            true,
            Err(String::from("missing field `id`")),
        )],
    };
    let search_results = category.into_products().unwrap();
    assert!(search_results.is_empty());
}

#[test]
fn into_products_keeps_products_and_failures_in_order() {
    let category = Category {
        seo_token: String::from("slug"),
        products: vec![
            coles_entry("PRODUCT", false, Ok(coles_product())),
            coles_entry("CONTENT_ASSOCIATION", true, Ok(coles_product())),
            coles_entry("PRODUCT", true, Err(String::from("missing field `id`"))),
            // of an ignored kind, but without the identifier of an advertisement
            coles_entry("SINGLE_TILE", false, Ok(coles_product())),
            RawResult {
                tag: TypeTag::Missing,
                has_ad_id: true,
                decoded: Ok(coles_product()),
            },
        ],
    };
    let items = category.into_products().unwrap();
    assert_eq!(items.len(), 4);
    assert!(matches!(&items[0], Decoded::Item(p) if p.id == 42));
    assert!(matches!(&items[1], Decoded::Failed(Error::SerdeJson(reason)) if reason == "missing field `id`"));
    assert!(matches!(&items[2], Decoded::Item(_)));
    assert!(matches!(&items[3], Decoded::Failed(Error::Anyhow(_))));
}

#[test]
fn categories_that_repeat_others_are_filtered() {
    for (slug, filtered) in [
        ("down-down", true),
        ("back-to-school", true),
        ("fruit-vegetables", false),
        ("Down-Down", false),
        ("", false),
    ] {
        let category = Category {
            seo_token: String::from(slug),
            products: vec![],
        };
        assert_eq!(category.is_filtered(), filtered, "{slug}");
    }
}

#[test]
fn test_load_ad() {
    let ad = coles_entry(
        "SINGLE_TILE",
        true,
        Err(String::from("missing field `id`")),
    );
    let ad = SearchResult::from_json_value(ad);
    let err = ad.expect_err("Search result should contain ad and thus return error");
    assert!(matches!(err, Error::AdResult));
}

#[test]
fn entries_without_a_kind_are_errors() {
    for tag in [TypeTag::NotAnObject, TypeTag::Missing, TypeTag::NotText] {
        let entry = RawResult {
            tag,
            has_ad_id: false,
            decoded: Ok(coles_product()),
        };
        assert!(matches!(
            SearchResult::from_json_value(entry),
            Err(Error::Anyhow(_))
        ));
    }
    let entry = coles_entry("PRODUCT", false, Err(String::from("bad")));
    assert!(matches!(
        SearchResult::from_json_value(entry),
        Err(Error::SerdeJson(reason)) if reason == "bad"
    ));
}

#[test]
fn product_test_load_normal() {
    let product = SearchResult::from_json_value(coles_entry("PRODUCT", false, Ok(coles_product())))
        .expect("Returned error instead of result");
    let product = product
        .try_into_snapshot_and_date(coles_day())
        .expect("Expected conversion to succeed");
    assert_eq!(product.id(), 42);
    assert_eq!(product.name(), "Brand name Product name");
    assert_eq!(product.description(), "BRAND NAME PRODUCT NAME 150G");
    assert_eq!(product.price(), coles_price(6.7));
    assert_eq!(product.date(), coles_day());
    assert!(!product.is_weighted());
    assert_eq!(product.store(), Store::Coles);
    assert_eq!(product.unit(), Unit::Grams);
    assert_eq!(product.quantity(), Quantity { thousandths: 150_000 });
}

#[test]
fn product_test_missing_price() {
    let product = SearchResult {
        pricing: None,
        ..coles_product()
    };
    let err = product.try_into_snapshot_and_date(coles_day()).unwrap_err();
    match err {
        Error::ProductConversion(msg) => assert_eq!(msg, "missing field pricing"),
        _ => panic!("unexpected type err type"),
    }
}

#[test]
fn test_load_empty_brand() {
    let product = SearchResult {
        brand: String::new(),
        ..coles_product()
    };
    let product = product
        .try_into_snapshot_and_date(coles_day())
        .expect("Expected conversion to succeed");
    assert_eq!(product.name(), "Product name");
}

#[test]
fn test_load_category() {
    let product = coles_product()
        .try_into_snapshot_and_date(coles_day())
        .expect("Expected conversion to succeed");
    assert_eq!(product.id(), 42);
    assert_eq!(product.name(), "Brand name Product name");
    assert_eq!(product.description(), "BRAND NAME PRODUCT NAME 150G");
    assert_eq!(product.price(), coles_price(6.7));
    assert!(!product.is_weighted());
    assert_eq!(
        product.category().unwrap(),
        ProductCategory::FruitAndVeg(FruitAndVeg::Fruit)
    )
}

#[test]
fn test_load_product_without_category() {
    let product = SearchResult {
        online_heirs: None,
        ..coles_product()
    };
    let product = product
        .try_into_snapshot_and_date(coles_day())
        .expect("Expected conversion to succeed");
    assert_eq!(product.id(), 42);
    assert_eq!(product.name(), "Brand name Product name");
    assert_eq!(product.description(), "BRAND NAME PRODUCT NAME 150G");
    assert_eq!(product.price(), coles_price(6.7));
    assert!(!product.is_weighted());
    assert!(product.category().is_none());
}

#[test]
fn the_first_known_name_gives_the_category() {
    let heirs = |names: &[&str]| -> Vec<OnlineHeir> {
        names
            .iter()
            .map(|name| OnlineHeir {
                category: String::from(*name),
            })
            .collect()
    };
    assert!(get_category_from_names(&heirs(&[])).is_none());
    assert!(get_category_from_names(&heirs(&["Bakery", "fruit"])).is_none());
    assert_eq!(
        get_category_from_names(&heirs(&["Bakery", "Vegetables", "Fruit"]))
            .unwrap()
            .category,
        ProductCategory::FruitAndVeg(FruitAndVeg::Veg)
    );
}

#[test]
fn a_product_sold_by_weight_is_weighted() {
    let product = SearchResult {
        pricing: Some(Pricing {
            now: coles_price(3.5),
            unit: PricingUnit {
                is_weighted: Some(true),
            },
        }),
        ..coles_product()
    };
    assert!(product
        .try_into_snapshot_and_date(coles_day())
        .unwrap()
        .is_weighted());
    let product = SearchResult {
        pricing: Some(Pricing {
            now: coles_price(3.5),
            unit: PricingUnit { is_weighted: None },
        }),
        ..coles_product()
    };
    assert!(!product
        .try_into_snapshot_and_date(coles_day())
        .unwrap()
        .is_weighted());
}

#[test]
fn a_product_without_a_size_fails() {
    let product = SearchResult {
        size: String::new(),
        ..coles_product()
    };
    assert!(matches!(
        get_quantity_and_unit(&product),
        Err(Error::ProductConversion(reason)) if reason == "empty field size"
    ));
    assert!(matches!(
        product.try_into_snapshot_and_date(coles_day()),
        Err(Error::ProductConversion(_))
    ));
    let product = SearchResult {
        size: String::from("large"),
        ..coles_product()
    };
    assert!(matches!(
        product.try_into_snapshot_and_date(coles_day()),
        Err(Error::ProductConversion(_))
    ));
}

#[test]
fn new_unconfigured_fails_get_category() {
    let res = category_url(&None, "", 0).unwrap_err();
    match res {
        Error::Anyhow(reason) => assert_eq!(reason, "Must set version"),
        other => panic!("unexpected error {other:?}"),
    }
}

#[test]
fn addresses_hold_version_slug_and_page() {
    assert_eq!(
        categories_url(),
        "https://www.coles.com.au/api/bff/products/categories?storeId=0584"
    );
    assert_eq!(
        category_url(&Some(String::from("20240101.01_v1.01.0")), "fruit-vegetables", 3).unwrap(),
        "https://www.coles.com.au/_next/data/20240101.01_v1.01.0/en/browse/fruit-vegetables.json?page=3&slug=fruit-vegetables"
    );
}

#[test]
fn the_store_of_a_search_result_is_coles() {
    assert_eq!(<SearchResult as Product>::store(), Store::Coles);
    assert_eq!(<Decoded<SearchResult> as Product>::store(), Store::Coles);
}

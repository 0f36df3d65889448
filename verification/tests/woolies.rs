use hotprices_au_rs::category::{Category as ProductCategory, FruitAndVeg};
use hotprices_au_rs::conversion::{Category as CategoryTrait, Decoded, Product};
use hotprices_au_rs::date::Date;
use hotprices_au_rs::errors::Error;
use hotprices_au_rs::product::Price;
use hotprices_au_rs::stores::woolies::category::{Category, CategoryInfo, SubCategory};
use hotprices_au_rs::stores::woolies::http::{categories_url, category_url, page_size, referer};
use hotprices_au_rs::stores::woolies::product::{quantity_from_cup_price, Bundle, BundleProduct};
use hotprices_au_rs::stores::Store;
use hotprices_au_rs::unit::{Quantity, Unit};

fn woolies_day() -> Date {
    let date = time::Date::from_calendar_date(2024, time::Month::January, 1).unwrap();
    Date::from_julian_day(date.to_julian_day()).unwrap()
}

fn woolies_price(amount: f64) -> Price {
    Price::from_cents((amount * 100.0).round() as i32)
}

fn woolies_default_product() -> BundleProduct {
    BundleProduct {
        stockcode: 1,
        name: String::from("product name"),
        description: String::from("product description"),
        price: Some(woolies_price(1.0)),
        was_price: woolies_price(1.0),
        is_in_stock: true,
        package_size: String::from("Each"),
        cup_price: Some(woolies_price(1.0)),
        cup_measure: Some(String::from("100g")),
        unit: String::from("Each"),
        subcategory_names: vec![],
        category: None,
    }
}

fn woolies_listed_product(names: &[&str]) -> BundleProduct {
    BundleProduct {
        stockcode: 123,
        name: String::from("product name"),
        description: String::from("some long product description"),
        price: Some(woolies_price(12.02)),
        was_price: woolies_price(12.02),
        is_in_stock: true,
        package_size: String::from("100g"),
        cup_price: Some(woolies_price(2.07)),
        cup_measure: Some(String::from("100G")),
        unit: String::from("Each"),
        subcategory_names: names.iter().map(|n| String::from(*n)).collect(),
        category: None,
    }
}

fn woolies_info(node_id: &str, description: &str, is_special: bool) -> CategoryInfo {
    CategoryInfo {
        node_id: String::from(node_id),
        description: String::from(description),
        is_special,
    }
}

fn woolies_category(children: Vec<SubCategory>, products: Vec<BundleProduct>) -> Category {
    Category {
        category_info: woolies_info("1-E5BEE36E", "Fruit & Veg", false),
        children,
        products: products
            .into_iter()
            .map(|p| Ok(Bundle { products: vec![p] }))
            .collect(),
    }
}

fn woolies_fruit_and_veg_children() -> Vec<SubCategory> {
    vec![
        SubCategory {
            category_info: woolies_info("1-5931EE89", "Fruit", false),
        },
        SubCategory {
            category_info: woolies_info("1_AC17EDD", "Vegetables", false),
        },
    ]
}

fn woolies_only_product(category: Category) -> BundleProduct {
    let mut products = category.into_products().unwrap();
    assert_eq!(products.len(), 1);
    match products.pop().unwrap() {
        Decoded::Item(product) => product,
        Decoded::Failed(error) => panic!("unexpected failure {error:?}"),
    }
}

#[test]
fn test_is_filtered() {
    let category = Category {
        category_info: woolies_info("", "Front of Store", false),
        children: vec![],
        products: vec![],
    };
    assert!(category.is_filtered());
}

#[test]
fn categories_are_filtered_by_node_or_description() {
    for (node_id, description, filtered) in [
        ("specialsgroup", "", true),
        ("1_8E4DA6F", "anything", true),
        ("x", "Beer, Wine & Spirits", true),
        ("x", "Front of Store", true),
        ("1-E5BEE36E", "Fruit & Veg", false),
        ("Front of Store", "specialsgroup", false),
    ] {
        let category = Category {
            category_info: woolies_info(node_id, description, false),
            children: vec![],
            products: vec![],
        };
        assert_eq!(category.is_filtered(), filtered, "{node_id} {description}");
    }
}

#[test]
fn test_category() {
    let category = woolies_category(
        woolies_fruit_and_veg_children(),
        vec![woolies_listed_product(&["Apples & Pears", "Fruit"])],
    );
    let product = woolies_only_product(category);
    let product = product
        .try_into_snapshot_and_date(woolies_day())
        .expect("Expected conversion to succeed");
    assert_eq!(
        product.category().unwrap(),
        ProductCategory::FruitAndVeg(FruitAndVeg::Fruit)
    );
}

#[test]
fn test_second_category() {
    let category = woolies_category(
        woolies_fruit_and_veg_children(),
        vec![woolies_listed_product(&["Vegetables"])],
    );
    let product = woolies_only_product(category);
    let product = product
        .try_into_snapshot_and_date(woolies_day())
        .expect("Expected conversion to succeed");
    assert_eq!(
        product.category().unwrap(),
        ProductCategory::FruitAndVeg(FruitAndVeg::Veg)
    );
}

#[test]
fn test_category_special() {
    let category = woolies_category(
        vec![
            SubCategory {
                category_info: woolies_info("1_AC17EDD_SPECIALS", "Vegetables Specials", true),
            },
            SubCategory {
                category_info: woolies_info("1_AC17EDD", "Vegetables", false),
            },
        ],
        vec![woolies_listed_product(&["Vegetables"])],
    );
    let product = woolies_only_product(category);
    let product = product
        .try_into_snapshot_and_date(woolies_day())
        .expect("Expected conversion to succeed");
    assert_eq!(
        product.category().unwrap(),
        ProductCategory::FruitAndVeg(FruitAndVeg::Veg)
    );
}

#[test]
fn test_category_use_piescategory() {
    // the names of the subcategories come first, those of the categories after them
    let category = woolies_category(
        woolies_fruit_and_veg_children(),
        vec![woolies_listed_product(&["Apples & Pears", "Fruit"])],
    );
    let product = woolies_only_product(category);
    let product = product
        .try_into_snapshot_and_date(woolies_day())
        .expect("Expected conversion to succeed");
    assert_eq!(
        product.category().unwrap(),
        ProductCategory::FruitAndVeg(FruitAndVeg::Fruit)
    );
}

#[test]
fn a_special_child_or_an_unknown_node_gives_no_category() {
    let category = woolies_category(
        vec![
            SubCategory {
                category_info: woolies_info("1-5931EE89", "Fruit", true),
            },
            SubCategory {
                category_info: woolies_info("1_UNKNOWN", "Vegetables", false),
            },
            SubCategory {
                category_info: woolies_info("1_2684504", "Salad", false),
            },
        ],
        vec![],
    );
    let names = |names: &[&str]| -> Vec<String> { names.iter().map(|n| String::from(*n)).collect() };
    assert!(category.code(&names(&["Fruit"])).unwrap().is_none());
    // the first child that matches decides, though its node stands for nothing
    assert!(category.code(&names(&["Salad", "Vegetables"])).unwrap().is_none());
    assert_eq!(
        category.code(&names(&["Salad"])).unwrap().unwrap().category,
        ProductCategory::FruitAndVeg(FruitAndVeg::SaladAndHerbs)
    );
    assert!(category.code(&names(&[])).unwrap().is_none());
}

#[test]
fn a_bundle_must_hold_one_product() {
    let category = Category {
        category_info: woolies_info("1-E5BEE36E", "Fruit & Veg", false),
        children: vec![],
        products: vec![
            Ok(Bundle { products: vec![] }),
            Ok(Bundle {
                products: vec![woolies_default_product(), woolies_default_product()],
            }),
            Err(String::from("missing field `Stockcode`")),
            Ok(Bundle {
                products: vec![woolies_default_product()],
            }),
        ],
    };
    let items = category.into_products().unwrap();
    assert_eq!(items.len(), 4);
    assert!(matches!(&items[0], Decoded::Failed(Error::Anyhow(_))));
    assert!(matches!(&items[1], Decoded::Failed(Error::Anyhow(_))));
    assert!(matches!(&items[2], Decoded::Failed(Error::SerdeJson(reason)) if reason == "missing field `Stockcode`"));
    assert!(matches!(&items[3], Decoded::Item(p) if p.stockcode == 1));
}

#[test]
fn woolies_product_test_load_normal() {
    let product = woolies_listed_product(&[]);
    let product = product
        .try_into_snapshot_and_date(woolies_day())
        .expect("Expected conversion to succeed");
    assert_eq!(product.id(), 123);
    assert_eq!(product.name(), "product name");
    assert_eq!(product.description(), "some long product description");
    assert_eq!(product.price(), woolies_price(12.02));
    assert_eq!(product.date(), woolies_day());
    assert!(!product.is_weighted());
    assert_eq!(product.store(), Store::Woolies);
    assert_eq!(product.unit(), Unit::Grams);
    assert_eq!(product.quantity(), Quantity { thousandths: 100_000 });
}

#[test]
fn woolies_product_test_missing_price() {
    let product = BundleProduct {
        price: None,
        ..woolies_listed_product(&[])
    };
    let err = product.try_into_snapshot_and_date(woolies_day()).unwrap_err();
    match err {
        Error::ProductConversion(msg) => assert_eq!(msg, "Missing price on product name"),
        _ => panic!("unexpected type err type"),
    }
}

#[test]
fn test_std_quantity() {
    let product = BundleProduct {
        stockcode: 124,
        cup_price: Some(woolies_price(2.68)),
        price: Some(woolies_price(15.0)),
        package_size: String::from("8x70g"),
        ..woolies_listed_product(&[])
    };
    let product = product
        .try_into_snapshot_and_date(woolies_day())
        .expect("Expected conversion to succeed");
    assert_eq!(product.unit(), Unit::Grams);
    assert_eq!(product.quantity(), Quantity { thousandths: 560_000 });
}

#[test]
fn test_low_quantity_error() {
    let product = BundleProduct {
        cup_price: Some(woolies_price(1.0)),
        cup_measure: Some(String::from("1g")),
        unit: String::from("G"),
        ..woolies_default_product()
    };
    let err = product.get_quantity_and_unit(woolies_price(1.0)).unwrap_err();
    assert_eq!(
        err.message(),
        "Conversion error: Low quantity for conversion"
    );
}

#[test]
fn test_was_price() {
    let product = BundleProduct {
        price: None,
        was_price: woolies_price(1.0),
        is_in_stock: false,
        ..woolies_default_product()
    };

    // the price before does not stand in for a current price that is missing
    let err = product.try_into_snapshot_and_date(woolies_day()).unwrap_err();
    match err {
        Error::ProductConversion(msg) => assert_eq!(msg, "Missing price on product name"),
        _ => panic!("unexpected type err type"),
    }
}

#[test]
fn a_product_without_a_current_price_fails_in_or_out_of_stock() {
    for is_in_stock in [true, false] {
        for was_price in [0.0, 1.0] {
            let product = BundleProduct {
                price: None,
                was_price: woolies_price(was_price),
                is_in_stock,
                cup_measure: Some(String::from("1EA")),
                ..woolies_default_product()
            };
            assert!(matches!(
                product.try_into_snapshot_and_date(woolies_day()),
                Err(Error::ProductConversion(reason)) if reason == "Missing price on product name"
            ));
        }
    }
}

#[test]
fn a_product_sold_each_counts_one() {
    let product = woolies_default_product();
    assert_eq!(
        product.get_quantity_and_unit(woolies_price(1.0)).unwrap(),
        (Quantity { thousandths: 1000 }, Unit::Each)
    );
    let product = BundleProduct {
        package_size: String::from("large"),
        unit: String::from("KG"),
        cup_measure: Some(String::from("1EA")),
        ..woolies_default_product()
    };
    // "1EA" read as a size is one piece, but too few to trust
    assert!(product.get_quantity_and_unit(woolies_price(1.0)).is_err());
    let snapshot = product.try_into_snapshot_and_date(woolies_day()).unwrap();
    assert_eq!(snapshot.quantity(), Quantity { thousandths: 1000 });
    assert_eq!(snapshot.unit(), Unit::Each);
}

#[test]
fn the_cup_price_needs_its_measure_and_its_price() {
    let product = BundleProduct {
        package_size: String::from("large"),
        cup_measure: None,
        ..woolies_default_product()
    };
    assert!(matches!(
        product.get_quantity_and_unit(woolies_price(1.0)),
        Err(Error::Anyhow(_))
    ));
    let product = BundleProduct {
        package_size: String::from("large"),
        cup_price: None,
        ..woolies_default_product()
    };
    assert!(matches!(
        product.get_quantity_and_unit(woolies_price(1.0)),
        Err(Error::ProductConversion(reason)) if reason == "Missing cup price, unable to calculate quantity"
    ));
    let product = BundleProduct {
        package_size: String::from("large"),
        cup_measure: Some(String::from("a cup")),
        ..woolies_default_product()
    };
    assert!(matches!(
        product.get_quantity_and_unit(woolies_price(1.0)),
        Err(Error::ProductConversion(_))
    ));
}

#[test]
fn the_cup_price_gives_the_quantity() {
    let measure = Quantity { thousandths: 100_000 };
    // 15.00 at 2.68 for 100 g: 559.7 g, rounded to 560
    assert_eq!(
        quantity_from_cup_price(woolies_price(15.0), woolies_price(2.68), measure).unwrap(),
        Quantity { thousandths: 560_000 }
    );
    // exactly 9.5 units rounds up to 10, which is enough
    assert_eq!(
        quantity_from_cup_price(
            Price::from_cents(19),
            Price::from_cents(2),
            Quantity { thousandths: 1000 }
        )
        .unwrap(),
        Quantity { thousandths: 10_000 }
    );
    // 9.49 units rounds down to 9, which is too few
    assert!(matches!(
        quantity_from_cup_price(Price::from_cents(949), Price::from_cents(100), Quantity { thousandths: 1000 }),
        Err(Error::ProductConversion(reason)) if reason == "Low quantity for conversion"
    ));
    assert!(quantity_from_cup_price(Price::from_cents(0), Price::from_cents(100), measure).is_err());
    assert!(quantity_from_cup_price(Price::from_cents(100), Price::from_cents(0), measure).is_err());
    assert!(quantity_from_cup_price(Price::from_cents(-100), Price::from_cents(-1), measure).is_err());
    assert!(quantity_from_cup_price(
        Price::from_cents(i32::MAX),
        Price::from_cents(1),
        Quantity { thousandths: u64::MAX }
    )
    .is_err());
    assert_eq!(
        quantity_from_cup_price(
            Price::from_cents(i32::MAX),
            Price::from_cents(i32::MAX),
            Quantity { thousandths: 18_446_744_073_709_551_000 }
        )
        .unwrap(),
        Quantity { thousandths: 18_446_744_073_709_551_000 }
    );
}

#[test]
fn woolies_addresses() {
    assert_eq!(
        categories_url(),
        "https://www.woolworths.com.au/apis/ui/PiesCategoriesWithSpecials"
    );
    assert_eq!(
        category_url(),
        "https://www.woolworths.com.au/apis/ui/browse/category"
    );
    assert_eq!(
        referer(),
        "https://www.woolworths.com.au/shop/browse/fruit-veg"
    );
    assert_eq!(page_size(), 36);
    assert_eq!(<BundleProduct as Product>::store(), Store::Woolies);
}

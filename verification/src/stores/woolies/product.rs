use vstd::prelude::*;
use crate::category::CategoryCode;
use crate::conversion::Product;
use crate::date::Date;
use crate::errors::Error;
use crate::pattern::{lowercase, to_lowercase};
use crate::product::{Price, PriceSnapshot, ProductInfo, ProductSnapshot};
use crate::stores::Store;
use crate::text::same_text;
use crate::unit::{parse_str_unit, parsed_size, Quantity, Unit};

verus! {

/// A product as a category page lists it. Amounts of money are in cents.
#[derive(Debug)]
pub struct BundleProduct {
    pub stockcode: i64,
    pub name: String,
    pub description: String,
    /// The current price. A product without one gives no snapshot.
    pub price: Option<Price>,
    /// The price before the current one. It never stands in for a current
    /// price that is missing.
    pub was_price: Price,
    pub is_in_stock: bool,
    pub package_size: String,
    /// The price of one cup measure.
    pub cup_price: Option<Price>,
    /// The standard amount by which the store compares prices, such as "100G".
    pub cup_measure: Option<String>,
    pub unit: String,
    /// The names under which the store files the product.
    pub subcategory_names: Vec<String>,
    /// The category of the product, once its place in the catalogue is known.
    pub category: Option<CategoryCode>,
}

/// A bundle of a category page; it holds one product.
#[derive(Debug)]
pub struct Bundle {
    pub products: Vec<BundleProduct>,
}

/// The least quantity that the cup price is trusted to give: a smaller one
/// tells of a cup measure in another kind of unit.
pub open spec fn least_cup_quantity() -> int {
    10
}

/// How many whole units a price buys when one cup measure costs the cup
/// price: the price over the cup price, times the measure, rounded to the
/// nearest whole with a half rounded up. The measure is in thousandths.
pub open spec fn cup_units(price: int, cup_price: int, measure: int) -> int
    recommends
        cup_price > 0,
{
    (2 * price * measure + 1000 * cup_price) / (2000 * cup_price)
}

/// The quantity that the cup price gives, in thousandths: `None` where a
/// price is not positive, where fewer than ten units come out, and where the
/// quantity is beyond the range of a `Quantity`.
pub open spec fn cup_quantity(price: int, cup_price: int, measure: int) -> Option<Quantity> {
    if price <= 0 || cup_price <= 0 {
        None
    } else if cup_units(price, cup_price, measure) < least_cup_quantity() {
        None
    } else if cup_units(price, cup_price, measure) * 1000 > u64::MAX {
        None
    } else {
        Some(Quantity { thousandths: (cup_units(price, cup_price, measure) * 1000) as u64 })
    }
}

/// Works a quantity out from the price and the cup price, where the size
/// text of the product states none.
pub fn quantity_from_cup_price(price: Price, cup_price: Price, measure: Quantity) -> (r: Result<
    Quantity,
    Error,
>)
    ensures
        match r {
            Ok(quantity) => cup_quantity(
                price.price as int,
                cup_price.price as int,
                measure.thousandths as int,
            ) == Some(quantity),
            Err(error) => error is ProductConversion && cup_quantity(
                price.price as int,
                cup_price.price as int,
                measure.thousandths as int,
            ) is None,
        },
        price.price > 0 && cup_price.price > 0 && cup_units(
            price.price as int,
            cup_price.price as int,
            measure.thousandths as int,
        ) < least_cup_quantity() ==> (r matches Err(Error::ProductConversion(reason)) && reason@
            == "Low quantity for conversion"@),
{
    if cup_price.price <= 0 {
        return Err(Error::conversion("Cup price is not positive, unable to calculate quantity"));
    }
    if price.price <= 0 {
        return Err(Error::conversion("Low quantity for conversion"));
    }
    let p: u128 = price.price as u128;
    let c: u128 = cup_price.price as u128;
    let m: u128 = measure.thousandths as u128;
    assert(2 * p * m + 1000 * c <= 0x1_0000_0000_0000_0000_0000_0000) by (nonlinear_arith)
        requires
            0 < p < 0x8000_0000,
            0 < c < 0x8000_0000,
            0 <= m < 0x1_0000_0000_0000_0000,
    ;
    assert(2 * p * m == 2 * (p * m)) by (nonlinear_arith);
    let doubled: u128 = 2 * (p * m) + 1000 * c;
    let units: u128 = doubled / (2000 * c);
    assert(units == cup_units(p as int, c as int, m as int));
    if units < 10 {
        return Err(Error::conversion("Low quantity for conversion"));
    }
    if units > 18_446_744_073_709_551 {
        return Err(Error::conversion("Quantity out of range"));
    }
    Ok(Quantity { thousandths: (units * 1000) as u64 })
}

impl BundleProduct {
    /// The size of the product at the given price: what its package size
    /// states; else one, for a product sold by the piece; else what the cup
    /// price gives.
    pub open spec fn spec_size(self, price: Price) -> Option<(Quantity, Unit)> {
        if parsed_size(self.package_size@) is Some {
            parsed_size(self.package_size@)
        } else if lowercase(self.unit@) == "each"@ && lowercase(self.package_size@) == "each"@ {
            Some((Quantity { thousandths: 1000 }, Unit::Each))
        } else {
            match (self.cup_measure, self.cup_price) {
                (Some(cup_measure), Some(cup_price)) => match parsed_size(cup_measure@) {
                    Some((measure, unit)) => match cup_quantity(
                        price.price as int,
                        cup_price.price as int,
                        measure.thousandths as int,
                    ) {
                        Some(quantity) => Some((quantity, unit)),
                        None => None,
                    },
                    None => None,
                },
                _ => None,
            }
        }
    }

    pub fn get_quantity_and_unit(&self, price: Price) -> (r: Result<(Quantity, Unit), Error>)
        ensures
            match r {
                Ok(size) => self.spec_size(price) == Some(size),
                Err(error) => self.spec_size(price) is None && if self.cup_measure is None {
                    error is Anyhow
                } else {
                    error is ProductConversion
                },
            },
    {
        match parse_str_unit(self.package_size.as_str()) {
            Ok(size) => {
                return Ok(size);
            },
            Err(_) => {},
        }
        if same_text(to_lowercase(self.unit.as_str()).as_str(), "each") && same_text(
            to_lowercase(self.package_size.as_str()).as_str(),
            "each",
        ) {
            return Ok((Quantity { thousandths: 1000 }, Unit::Each));
        }
        let (measure, unit) = match &self.cup_measure {
            Some(cup_measure) => parse_str_unit(cup_measure.as_str())?,
            None => {
                return Err(
                    Error::Anyhow("Missing CupMeasure, ran out of options to convert".to_owned()),
                );
            },
        };
        let cup_price = match self.cup_price {
            Some(cup_price) => cup_price,
            None => {
                return Err(Error::conversion("Missing cup price, unable to calculate quantity"));
            },
        };
        let quantity = quantity_from_cup_price(price, cup_price, measure)?;
        Ok((quantity, unit))
    }

    /// The size to record at the given price: one piece where the cup
    /// measure is exactly "1EA", else the size of the product.
    pub open spec fn recorded_size(self, price: Price) -> Option<(Quantity, Unit)> {
        if self.cup_measure matches Some(cup_measure) && cup_measure@ == "1EA"@ {
            Some((Quantity { thousandths: 1000 }, Unit::Each))
        } else {
            self.spec_size(price)
        }
    }

    /// Whether the snapshot is what this product gives on the day.
    pub open spec fn gives(self, date: Date, snapshot: ProductSnapshot) -> bool {
        &&& self.price is Some
        &&& self.recorded_size(self.price.unwrap()) is Some
        &&& snapshot.info().id == self.stockcode
        &&& snapshot.info().name == self.name
        &&& snapshot.info().description == self.description
        &&& !snapshot.info().is_weighted
        &&& snapshot.info().unit == self.recorded_size(self.price.unwrap()).unwrap().1
        &&& snapshot.info().quantity == self.recorded_size(self.price.unwrap()).unwrap().0
        &&& snapshot.info().store == Store::Woolies
        &&& snapshot.info().category == self.category
        &&& snapshot.observed() == (PriceSnapshot { date, price: self.price.unwrap() })
    }
}

impl Product for BundleProduct {
    fn store() -> (r: Store)
        ensures
            r == Store::Woolies,
    {
        Store::Woolies
    }

    /// The price of the snapshot is the current price of the product. A
    /// product without one fails, and the reason names it; so does a product
    /// without a size.
    fn try_into_snapshot_and_date(self, date: Date) -> (r: Result<ProductSnapshot, Error>)
        ensures
            match r {
                Ok(snapshot) => self.gives(date, snapshot),
                Err(error) => match self.price {
                    None => error matches Error::ProductConversion(reason) && reason@
                        == "Missing price on "@ + self.name@,
                    Some(price) => self.recorded_size(price) is None && if self.cup_measure
                        is None {
                        error is Anyhow
                    } else {
                        error is ProductConversion
                    },
                },
            },
    {
        let price = match self.price {
            Some(price) => price,
            None => {
                return Err(
                    Error::ProductConversion(
                        "Missing price on ".to_owned().concat(self.name.as_str()),
                    ),
                );
            },
        };
        let one_each = match &self.cup_measure {
            Some(cup_measure) => same_text(cup_measure.as_str(), "1EA"),
            None => false,
        };
        let (quantity, unit) = if one_each {
            (Quantity { thousandths: 1000 }, Unit::Each)
        } else {
            self.get_quantity_and_unit(price)?
        };
        let product_info = ProductInfo::new(
            self.stockcode,
            self.name,
            self.description,
            Some(false),
            unit,
            quantity,
            Store::Woolies,
            self.category,
        );
        Ok(ProductSnapshot::new(product_info, price, date))
    }
}

} // verus!

use vstd::prelude::*;
use crate::category::{Category, CategoryCode, FruitAndVeg};
use crate::conversion::Product;
use crate::date::Date;
use crate::errors::Error;
use crate::product::{Price, PriceSnapshot, ProductInfo, ProductSnapshot};
use crate::stores::Store;
use crate::text::same_text;
use crate::unit::{parse_str_unit, parsed_size, Quantity, Unit};

verus! {

#[derive(Debug)]
pub struct PricingUnit {
    pub is_weighted: Option<bool>,
}

#[derive(Debug)]
pub struct Pricing {
    pub now: Price,
    pub unit: PricingUnit,
}

#[derive(Debug)]
pub struct OnlineHeir {
    pub category: String,
}

/// A product as a category page lists it.
#[derive(Debug)]
pub struct SearchResult {
    pub id: i64,
    pub name: String,
    pub brand: String,
    pub description: String,
    pub size: String,
    pub pricing: Option<Pricing>,
    pub online_heirs: Option<Vec<OnlineHeir>>,
}

/// What an entry of a category page says of its kind.
#[derive(Debug)]
pub enum TypeTag {
    /// The entry is no JSON object.
    NotAnObject,
    /// The object has no type.
    Missing,
    /// The type is not a text.
    NotText,
    Text(String),
}

/// An entry of a category page: its kind, whether it carries the
/// identifier of an advertisement, and the product it was read as, or the
/// reason why it could not be read as one.
#[derive(Debug)]
pub struct RawResult {
    pub tag: TypeTag,
    pub has_ad_id: bool,
    pub decoded: Result<SearchResult, String>,
}

/// Whether entries of this kind are left out when they carry the identifier
/// of an advertisement.
pub open spec fn is_ignored_type(kind: Seq<char>) -> bool {
    kind == "SINGLE_TILE"@ || kind == "CONTENT_ASSOCIATION"@
}

/// The category that a name of the store's own classification stands for.
pub open spec fn category_of_name(name: Seq<char>) -> Option<Category> {
    if name == "Fruit"@ {
        Some(Category::FruitAndVeg(FruitAndVeg::Fruit))
    } else if name == "Vegetables"@ {
        Some(Category::FruitAndVeg(FruitAndVeg::Veg))
    } else {
        None
    }
}

/// The category of the first of the names that stands for one.
pub open spec fn category_of_names(names: Seq<Seq<char>>) -> Option<CategoryCode>
    decreases names.len(),
{
    if names.len() == 0 {
        None
    } else {
        match category_of_name(names[0]) {
            Some(category) => Some(CategoryCode { category }),
            None => category_of_names(names.drop_first()),
        }
    }
}

fn category_from_name(name: &str) -> (r: Option<Category>)
    ensures
        r == category_of_name(name@),
{
    if same_text(name, "Fruit") {
        Some(Category::FruitAndVeg(FruitAndVeg::Fruit))
    } else if same_text(name, "Vegetables") {
        Some(Category::FruitAndVeg(FruitAndVeg::Veg))
    } else {
        None
    }
}

/// The names under which the store files the product.
pub open spec fn heir_names(heirs: Seq<OnlineHeir>) -> Seq<Seq<char>> {
    heirs.map_values(|heir: OnlineHeir| heir.category@)
}

/// Classifies a product by the names under which the store files it. No
/// name that stands for a category is no failure: the product has no code.
pub fn get_category_from_names(heirs: &Vec<OnlineHeir>) -> (r: Option<CategoryCode>)
    ensures
        r == category_of_names(heir_names(heirs@)),
{
    let mut i: usize = 0;
    assert(heir_names(heirs@).skip(0) =~= heir_names(heirs@));
    while i < heirs.len()
        invariant
            i <= heirs.len(),
            category_of_names(heir_names(heirs@)) == category_of_names(
                heir_names(heirs@).skip(i as int),
            ),
        decreases heirs.len() - i,
    {
        let ghost rest = heir_names(heirs@).skip(i as int);
        assert(rest[0] == heirs[i as int].category@);
        assert(rest.drop_first() =~= heir_names(heirs@).skip(i + 1));
        match category_from_name(heirs[i].category.as_str()) {
            Some(category) => {
                return Some(CategoryCode { category });
            },
            None => {},
        }
        i += 1;
    }
    None
}

impl RawResult {
    /// Whether the entry is an advertisement: of a kind that is left out, and
    /// with the identifier of an advertisement.
    pub open spec fn is_advertisement(self) -> bool {
        match self.tag {
            TypeTag::Text(kind) => is_ignored_type(kind@) && self.has_ad_id,
            _ => false,
        }
    }
}

impl SearchResult {
    /// Reads an entry of a category page. An advertisement is told apart
    /// from a failure: it is expected, and skipped without being counted.
    pub fn from_json_value(value: RawResult) -> (r: Result<SearchResult, Error>)
        ensures
            match value.tag {
                TypeTag::Text(kind) => if is_ignored_type(kind@) && value.has_ad_id {
                    r == Err::<SearchResult, Error>(Error::AdResult)
                } else {
                    match value.decoded {
                        Ok(result) => r == Ok::<SearchResult, Error>(result),
                        Err(reason) => r == Err::<SearchResult, Error>(Error::SerdeJson(reason)),
                    }
                },
                _ => r matches Err(error) && error is Anyhow,
            },
    {
        let kind = match value.tag {
            TypeTag::NotAnObject => {
                return Err(Error::Anyhow("Invalid object type value".to_owned()));
            },
            TypeTag::Missing => {
                return Err(Error::Anyhow("Missing key _type".to_owned()));
            },
            TypeTag::NotText => {
                return Err(Error::Anyhow("Invalid type for _type, expected string".to_owned()));
            },
            TypeTag::Text(kind) => kind,
        };
        if (same_text(kind.as_str(), "SINGLE_TILE") || same_text(
            kind.as_str(),
            "CONTENT_ASSOCIATION",
        )) && value.has_ad_id {
            return Err(Error::AdResult);
        }
        match value.decoded {
            Ok(result) => Ok(result),
            Err(reason) => Err(Error::SerdeJson(reason)),
        }
    }

    pub open spec fn spec_category(self) -> Option<CategoryCode> {
        match self.online_heirs {
            Some(heirs) => category_of_names(heir_names(heirs@)),
            None => None,
        }
    }

    /// The category of the product, if the store files it under one that
    /// is known.
    pub fn category(&self) -> (r: Option<CategoryCode>)
        ensures
            r == self.spec_category(),
    {
        match &self.online_heirs {
            Some(heirs) => get_category_from_names(heirs),
            None => None,
        }
    }

    /// The name of the product with its brand before it, where it has one.
    pub open spec fn full_name(self) -> Seq<char> {
        if self.brand@.len() == 0 {
            self.name@
        } else {
            self.brand@ + " "@ + self.name@
        }
    }

    /// The size of the product, where its size text is not empty and states one.
    pub open spec fn spec_size(self) -> Option<(Quantity, Unit)> {
        if self.size@.len() == 0 {
            None
        } else {
            parsed_size(self.size@)
        }
    }

    /// Whether the snapshot is what this product gives on the day.
    pub open spec fn gives(self, date: Date, snapshot: ProductSnapshot) -> bool {
        &&& self.pricing is Some
        &&& self.spec_size() is Some
        &&& snapshot.info().id == self.id
        &&& snapshot.info().name@ == self.full_name()
        &&& snapshot.info().description == self.description
        &&& snapshot.info().is_weighted == (self.pricing.unwrap().unit.is_weighted == Some(true))
        &&& snapshot.info().unit == self.spec_size().unwrap().1
        &&& snapshot.info().quantity == self.spec_size().unwrap().0
        &&& snapshot.info().store == Store::Coles
        &&& snapshot.info().category == self.spec_category()
        &&& snapshot.observed() == (PriceSnapshot { date, price: self.pricing.unwrap().now })
    }
}

/// Reads the size text of a product. An empty text is a conversion error.
pub fn get_quantity_and_unit(item: &SearchResult) -> (r: Result<(Quantity, Unit), Error>)
    ensures
        match r {
            Ok(size) => item.spec_size() == Some(size),
            Err(error) => item.spec_size() is None && error is ProductConversion,
        },
{
    if item.size.as_str().is_empty() {
        return Err(Error::conversion("empty field size"));
    }
    parse_str_unit(item.size.as_str())
}

impl Product for SearchResult {
    fn store() -> (r: Store)
        ensures
            r == Store::Coles,
    {
        Store::Coles
    }

    /// A product without a price, and one whose size cannot be read, fail
    /// with a conversion error.
    fn try_into_snapshot_and_date(self, date: Date) -> (r: Result<ProductSnapshot, Error>)
        ensures
            match r {
                Ok(snapshot) => self.gives(date, snapshot),
                Err(error) => error is ProductConversion && (self.pricing is None
                    || self.spec_size() is None),
            },
            self.pricing is None ==> (r matches Err(Error::ProductConversion(reason)) && reason@
                == "missing field pricing"@),
    {
        let category = self.category();
        let size = get_quantity_and_unit(&self);
        let SearchResult { id, name, brand, description, size: _, pricing, online_heirs: _ } = self;
        let pricing = match pricing {
            Some(pricing) => pricing,
            None => {
                return Err(Error::conversion("missing field pricing"));
            },
        };
        let name = if brand.as_str().is_empty() {
            name
        } else {
            brand.concat(" ").concat(name.as_str())
        };
        let (quantity, unit) = size?;
        let product_info = ProductInfo::new(
            id,
            name,
            description,
            pricing.unit.is_weighted,
            unit,
            quantity,
            Store::Coles,
            category,
        );
        Ok(ProductSnapshot::new(product_info, pricing.now, date))
    }
}

} // verus!

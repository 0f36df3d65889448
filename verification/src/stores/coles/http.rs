//! The addresses of the Coles site.
use vstd::prelude::*;
use crate::errors::Error;
use crate::text::{integer, integer_text};

verus! {

pub open spec fn spec_base_url() -> Seq<char> {
    "https://www.coles.com.au"@
}

pub fn base_url() -> (r: &'static str)
    ensures
        r@ == spec_base_url(),
{
    "https://www.coles.com.au"
}

/// The number of the store whose prices are asked for.
pub open spec fn spec_store_id() -> Seq<char> {
    "0584"@
}

pub open spec fn spec_categories_url() -> Seq<char> {
    spec_base_url() + "/api/bff/products/categories?storeId="@ + spec_store_id()
}

/// The address of the list of categories.
pub fn categories_url() -> (r: String)
    ensures
        r@ == spec_categories_url(),
{
    base_url().to_owned().concat("/api/bff/products/categories?storeId=").concat("0584")
}

pub open spec fn spec_category_url(version: Seq<char>, slug: Seq<char>, page: int) -> Seq<char> {
    spec_base_url() + "/_next/data/"@ + version + "/en/browse/"@ + slug + ".json?page="@
        + integer_text(page) + "&slug="@ + slug
}

/// The address of a page of a category. It holds the version of the site,
/// which has to be known.
pub fn category_url(version: &Option<String>, slug: &str, page: i32) -> (r: Result<String, Error>)
    ensures
        match (r, *version) {
            (Ok(url), Some(version)) => url@ == spec_category_url(version@, slug@, page as int),
            (Err(Error::Anyhow(reason)), None) => reason@ == "Must set version"@,
            _ => false,
        },
{
    match version {
        Some(version) => Ok(
            base_url().to_owned().concat("/_next/data/").concat(version.as_str()).concat(
                "/en/browse/",
            ).concat(slug).concat(".json?page=").concat(integer(page as i64).as_str()).concat(
                "&slug=",
            ).concat(slug),
        ),
        None => Err(Error::Anyhow("Must set version".to_owned())),
    }
}

} // verus!

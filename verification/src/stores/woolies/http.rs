//! The addresses of the Woolworths site.
use vstd::prelude::*;

verus! {

pub open spec fn spec_base_url() -> Seq<char> {
    "https://www.woolworths.com.au"@
}

pub fn base_url() -> (r: &'static str)
    ensures
        r@ == spec_base_url(),
{
    "https://www.woolworths.com.au"
}

/// The page that requests are said to come from.
pub open spec fn spec_referer() -> Seq<char> {
    spec_base_url() + "/shop/browse/fruit-veg"@
}

pub fn referer() -> (r: String)
    ensures
        r@ == spec_referer(),
{
    base_url().to_owned().concat("/shop/browse/fruit-veg")
}

pub open spec fn spec_categories_url() -> Seq<char> {
    spec_base_url() + "/apis/ui/PiesCategoriesWithSpecials"@
}

/// The address of the list of categories.
pub fn categories_url() -> (r: String)
    ensures
        r@ == spec_categories_url(),
{
    base_url().to_owned().concat("/apis/ui/PiesCategoriesWithSpecials")
}

pub open spec fn spec_category_url() -> Seq<char> {
    spec_base_url() + "/apis/ui/browse/category"@
}

/// The address that the pages of every category are asked from.
pub fn category_url() -> (r: String)
    ensures
        r@ == spec_category_url(),
{
    base_url().to_owned().concat("/apis/ui/browse/category")
}

/// How many products a page of a category is asked to hold.
pub open spec fn spec_page_size() -> int {
    36
}

pub fn page_size() -> (r: i32)
    ensures
        r == spec_page_size(),
{
    36
}

} // verus!

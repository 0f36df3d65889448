use vstd::prelude::*;
use crate::category::{Category as ProductCategory, CategoryCode, FruitAndVeg};
use crate::conversion::Decoded;
use crate::errors::Error;
use crate::stores::woolies::product::{Bundle, BundleProduct};
use crate::text::same_text;

verus! {

#[derive(Debug)]
pub struct CategoryInfo {
    pub node_id: String,
    pub description: String,
    pub is_special: bool,
}

#[derive(Debug)]
pub struct SubCategory {
    pub category_info: CategoryInfo,
}

/// A category of the catalogue, with the bundles fetched for it: each as it
/// was read, or the reason why it could not be read.
#[derive(Debug)]
pub struct Category {
    pub category_info: CategoryInfo,
    pub children: Vec<SubCategory>,
    pub products: Vec<Result<Bundle, String>>,
}

/// Whether the category is left out: advertisements, things that other
/// categories hold too, and alcohol.
pub open spec fn is_ignored(info: CategoryInfo) -> bool {
    ||| info.node_id@ == "specialsgroup"@
    ||| info.node_id@ == "1_8E4DA6F"@
    ||| info.description@ == "Front of Store"@
    ||| info.description@ == "Beer, Wine & Spirits"@
}

/// The category that a node of the catalogue stands for.
pub open spec fn category_of_node(node_id: Seq<char>) -> Option<ProductCategory> {
    if node_id == "1-5931EE89"@ {
        Some(ProductCategory::FruitAndVeg(FruitAndVeg::Fruit))
    } else if node_id == "1_AC17EDD"@ {
        Some(ProductCategory::FruitAndVeg(FruitAndVeg::Veg))
    } else if node_id == "1_2684504"@ {
        Some(ProductCategory::FruitAndVeg(FruitAndVeg::SaladAndHerbs))
    } else {
        None
    }
}

/// Whether one of the names is this text.
pub open spec fn names_hold(names: Seq<String>, text: Seq<char>) -> bool {
    exists|i: int| 0 <= i < names.len() && (#[trigger] names[i])@ == text
}

/// Whether a product filed under these names belongs to the child: a
/// child for special offers never has it.
pub open spec fn child_matches(child: SubCategory, names: Seq<String>) -> bool {
    !child.category_info.is_special && names_hold(names, child.category_info.description@)
}

/// The code of the first child that the product belongs to, where the
/// child's node stands for a category.
pub open spec fn code_of(children: Seq<SubCategory>, names: Seq<String>) -> Option<CategoryCode>
    decreases children.len(),
{
    if children.len() == 0 {
        None
    } else if child_matches(children[0], names) {
        match category_of_node(children[0].category_info.node_id@) {
            Some(category) => Some(CategoryCode { category }),
            None => None,
        }
    } else {
        code_of(children.drop_first(), names)
    }
}

fn holds_name(names: &Vec<String>, text: &str) -> (r: bool)
    ensures
        r == names_hold(names@, text@),
{
    let mut i: usize = 0;
    while i < names.len()
        invariant
            i <= names.len(),
            forall|k: int| 0 <= k < i ==> (#[trigger] names[k])@ != text@,
        decreases names.len() - i,
    {
        if same_text(names[i].as_str(), text) {
            return true;
        }
        i += 1;
    }
    false
}

fn category_from_node(node_id: &str) -> (r: Option<ProductCategory>)
    ensures
        r == category_of_node(node_id@),
{
    if same_text(node_id, "1-5931EE89") {
        Some(ProductCategory::FruitAndVeg(FruitAndVeg::Fruit))
    } else if same_text(node_id, "1_AC17EDD") {
        Some(ProductCategory::FruitAndVeg(FruitAndVeg::Veg))
    } else if same_text(node_id, "1_2684504") {
        Some(ProductCategory::FruitAndVeg(FruitAndVeg::SaladAndHerbs))
    } else {
        None
    }
}

/// What a bundle is to the conversion: its one product, with the category
/// that its names give it among the children; a failure for a bundle
/// that does not hold exactly one product; the reason for one that could
/// not be read.
pub open spec fn stands_for(
    item: Decoded<BundleProduct>,
    bundle: Result<Bundle, String>,
    children: Seq<SubCategory>,
) -> bool {
    match bundle {
        Ok(bundle) => if bundle.products.len() == 1 {
            item matches Decoded::Item(product) && product == (BundleProduct {
                category: code_of(children, bundle.products[0].subcategory_names@),
                ..bundle.products[0]
            })
        } else {
            item matches Decoded::Failed(error) && error is Anyhow
        },
        Err(reason) => item == Decoded::<BundleProduct>::Failed(Error::SerdeJson(reason)),
    }
}

impl Category {
    /// The category of a product that the store files under the given
    /// names. A product that belongs to no child, or to a child that
    /// stands for no category, has none; that is no failure.
    pub fn code(&self, subcategory_names: &Vec<String>) -> (r: Result<Option<CategoryCode>, Error>)
        ensures
            r == Ok::<Option<CategoryCode>, Error>(code_of(self.children@, subcategory_names@)),
    {
        Ok(find_code(&self.children, subcategory_names))
    }
}

fn find_code(children: &Vec<SubCategory>, names: &Vec<String>) -> (r: Option<CategoryCode>)
    ensures
        r == code_of(children@, names@),
{
    let mut i: usize = 0;
    assert(children@.skip(0) =~= children@);
    while i < children.len()
        invariant
            i <= children.len(),
            code_of(children@, names@) == code_of(children@.skip(i as int), names@),
        decreases children.len() - i,
    {
        let child = &children[i];
        assert(children@.skip(i as int)[0] == *child);
        assert(children@.skip(i as int).drop_first() =~= children@.skip(i + 1));
        if !child.category_info.is_special && holds_name(
            names,
            child.category_info.description.as_str(),
        ) {
            return match category_from_node(child.category_info.node_id.as_str()) {
                Some(category) => Some(CategoryCode { category }),
                None => None,
            };
        }
        i += 1;
    }
    None
}

impl crate::conversion::Category<Decoded<BundleProduct>> for Category {
    fn is_filtered(&self) -> (r: bool)
        ensures
            r == is_ignored(self.category_info),
    {
        let node_id = self.category_info.node_id.as_str();
        let description = self.category_info.description.as_str();
        same_text(node_id, "specialsgroup") || same_text(node_id, "1_8E4DA6F") || same_text(
            description,
            "Front of Store",
        ) || same_text(description, "Beer, Wine & Spirits")
    }

    /// One item for each bundle, in their order.
    fn into_products(self) -> (r: Result<Vec<Decoded<BundleProduct>>, Error>)
        ensures
            r is Ok,
            r.unwrap().len() == self.products.len(),
            forall|i: int|
                0 <= i < self.products.len() ==> stands_for(
                    #[trigger] r.unwrap()[i],
                    self.products[i],
                    self.children@,
                ),
    {
        let Category { category_info: _, children, products } = self;
        let ghost all = products@;
        let mut items: Vec<Decoded<BundleProduct>> = Vec::new();
        for bundle in iter: products
            invariant
                iter.seq() == all,
                items.len() == iter.index(),
                forall|i: int|
                    0 <= i < iter.index() ==> stands_for(#[trigger] items[i], all[i], children@),
        {
            let item = match bundle {
                Ok(bundle) => {
                    let mut products = bundle.products;
                    if products.len() == 1 {
                        let mut product = products.remove(0);
                        product.category = find_code(&children, &product.subcategory_names);
                        Decoded::Item(product)
                    } else {
                        Decoded::Failed(
                            Error::Anyhow("Invalid number of products in bundle".to_owned()),
                        )
                    }
                },
                Err(reason) => Decoded::Failed(Error::SerdeJson(reason)),
            };
            items.push(item);
        }
        Ok(items)
    }
}

} // verus!

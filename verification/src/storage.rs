//! Where the files of a run lie, and which records go into which file.
use vstd::prelude::*;
use crate::date::Date;
use crate::paths::{join, joined_path};
use crate::product::ProductHistory;
use crate::stores::Store;

verus! {

/// The name of the file that holds the histories of all stores.
pub open spec fn spec_history_file_name() -> Seq<char> {
    "latest-canonical.json.gz"@
}

pub fn history_file_name() -> (r: &'static str)
    ensures
        r@ == spec_history_file_name(),
{
    "latest-canonical.json.gz"
}

/// The name of the file that holds a store's capture of a day.
pub open spec fn spec_snapshot_file_name(day: Date) -> Seq<char> {
    day.spec_text() + ".json.gz"@
}

pub fn snapshot_file_name(day: Date) -> (r: String)
    ensures
        r@ == spec_snapshot_file_name(day),
{
    day.text().concat(".json.gz")
}

/// The path of a store's capture of a day: below the output directory, in
/// the directory of the store, under the day.
pub open spec fn spec_snapshot_path(output_dir: Seq<char>, store: Store, day: Date) -> Seq<char> {
    joined_path(joined_path(output_dir, store.spec_name()), spec_snapshot_file_name(day))
}

pub fn get_snapshot_path(output_dir: &str, store: Store, day: Date) -> (r: String)
    ensures
        r@ == spec_snapshot_path(output_dir@, store, day),
{
    let store_dir = join(output_dir, store.name());
    join(store_dir.as_str(), snapshot_file_name(day).as_str())
}

/// The name of the file that the site reads for a store.
pub open spec fn spec_site_file_name(store: Store, compress: bool) -> Seq<char> {
    "latest-canonical."@ + store.spec_name() + ".compressed.json"@ + if compress {
        ".gz"@
    } else {
        Seq::<char>::empty()
    }
}

pub fn site_file_name(store: Store, compress: bool) -> (r: String)
    ensures
        r@ == spec_site_file_name(store, compress),
{
    let name = "latest-canonical.".to_owned().concat(store.name()).concat(".compressed.json");
    if compress {
        name.concat(".gz")
    } else {
        assert(name@ + Seq::<char>::empty() =~= name@);
        name
    }
}

/// The histories of one store, in their order.
pub open spec fn of_store(products: Seq<ProductHistory>, store: Store) -> Seq<ProductHistory>
    decreases products.len(),
{
    if products.len() == 0 {
        Seq::empty()
    } else if products.last().info().store == store {
        of_store(products.drop_last(), store).push(products.last())
    } else {
        of_store(products.drop_last(), store)
    }
}

/// The histories that go into the file of a store.
pub fn products_of_store(products: &Vec<ProductHistory>, store: Store) -> (r: Vec<&ProductHistory>)
    ensures
        r@.map_values(|p: &ProductHistory| *p) == of_store(products@, store),
{
    let mut chosen: Vec<&ProductHistory> = Vec::new();
    let mut i: usize = 0;
    while i < products.len()
        invariant
            i <= products.len(),
            chosen@.map_values(|p: &ProductHistory| *p) == of_store(products@.take(i as int), store),
        decreases products.len() - i,
    {
        proof {
            assert(products@.take(i + 1).drop_last() =~= products@.take(i as int));
            assert(products@.take(i + 1).last() == products[i as int]);
        }
        let ghost before = chosen@;
        if products[i].store() == store {
            chosen.push(&products[i]);
            assert(chosen@.map_values(|p: &ProductHistory| *p) =~= before.map_values(
                |p: &ProductHistory| *p,
            ).push(products[i as int]));
        }
        i += 1;
    }
    assert(products@.take(products.len() as int) =~= products@);
    chosen
}

} // verus!

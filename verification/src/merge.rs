//! Folding a day's snapshots into the price histories.
use vstd::prelude::*;
use std::collections::{HashMap, HashSet};
use crate::product::{
    distinct_days, holds_day, lemma_update_first, lemma_update_length, newest_first, precedes,
    ProductHistory, ProductSnapshot,
};
use crate::stores::Store;

verus! {

broadcast use vstd::std_specs::hash::group_hash_axioms;

/// The number under which a product is looked up: twice its number within
/// the store, plus the store's index.
pub open spec fn key_code(key: (Store, i64)) -> int {
    key.1 * 2 + key.0.index()
}

proof fn lemma_key_code_injective(a: (Store, i64), b: (Store, i64))
    ensures
        key_code(a) == key_code(b) <==> a == b,
{
}

fn code_of(store: Store, id: i64) -> (r: i128)
    ensures
        r == key_code((store, id)),
{
    let index: i128 = match store {
        Store::Coles => 0,
        Store::Woolies => 1,
    };
    (id as i128) * 2 + index
}

/// No earlier snapshot of the batch is of the same product.
pub open spec fn first_of_its_key(batch: Seq<ProductSnapshot>, i: int) -> bool {
    forall|k: int| 0 <= k < i ==> (#[trigger] batch[k]).key() != batch[i].key()
}

/// The batch without the snapshots of a product that an earlier snapshot
/// is of, in the order of the batch.
pub open spec fn deduplicated(batch: Seq<ProductSnapshot>) -> Seq<ProductSnapshot>
    decreases batch.len(),
{
    if batch.len() == 0 {
        Seq::empty()
    } else if first_of_its_key(batch, batch.len() - 1) {
        deduplicated(batch.drop_last()).push(batch.last())
    } else {
        deduplicated(batch.drop_last())
    }
}

proof fn lemma_first_stable(batch: Seq<ProductSnapshot>, i: int)
    requires
        0 <= i < batch.len() - 1,
    ensures
        first_of_its_key(batch.drop_last(), i) == first_of_its_key(batch, i),
{
    let init = batch.drop_last();
    if first_of_its_key(init, i) {
        assert forall|k: int| 0 <= k < i implies (#[trigger] batch[k]).key() != batch[i].key() by {
            assert(init[k].key() != init[i].key());
        }
    }
    if first_of_its_key(batch, i) {
        assert forall|k: int| 0 <= k < i implies (#[trigger] init[k]).key() != init[i].key() by {
            assert(batch[k].key() != batch[i].key());
        }
    }
}

/// Whether the snapshot is, in the batch, the first of its product.
pub open spec fn leads_its_product(batch: Seq<ProductSnapshot>, snapshot: ProductSnapshot) -> bool {
    exists|i: int| 0 <= i < batch.len() && #[trigger] first_of_its_key(batch, i) && batch[i] == snapshot
}

/// Whether one of the snapshots is of the product with this key.
pub open spec fn has_product(snapshots: Seq<ProductSnapshot>, key: (Store, i64)) -> bool {
    exists|j: int| 0 <= j < snapshots.len() && (#[trigger] snapshots[j]).key() == key
}

proof fn lemma_kept_are_first(batch: Seq<ProductSnapshot>, j: int) -> (i: int)
    requires
        0 <= j < deduplicated(batch).len(),
    ensures
        0 <= i < batch.len(),
        first_of_its_key(batch, i),
        batch[i] == deduplicated(batch)[j],
    decreases batch.len(),
{
    let init = batch.drop_last();
    if j < deduplicated(init).len() {
        let i = lemma_kept_are_first(init, j);
        lemma_first_stable(batch, i);
        i
    } else {
        batch.len() - 1
    }
}

proof fn lemma_first_are_kept(batch: Seq<ProductSnapshot>, i: int) -> (j: int)
    requires
        0 <= i < batch.len(),
        first_of_its_key(batch, i),
    ensures
        0 <= j < deduplicated(batch).len(),
        deduplicated(batch)[j] == batch[i],
    decreases batch.len(),
{
    let init = batch.drop_last();
    if i < batch.len() - 1 {
        lemma_first_stable(batch, i);
        lemma_first_are_kept(init, i)
    } else {
        deduplicated(batch).len() - 1
    }
}

proof fn lemma_kept_distinct(batch: Seq<ProductSnapshot>, j: int, k: int)
    requires
        0 <= j < k < deduplicated(batch).len(),
    ensures
        deduplicated(batch)[j].key() != deduplicated(batch)[k].key(),
    decreases batch.len(),
{
    let init = batch.drop_last();
    if k < deduplicated(init).len() {
        lemma_kept_distinct(init, j, k);
    } else {
        let i = lemma_kept_are_first(init, j);
        assert(batch[i].key() != batch[batch.len() - 1].key());
    }
}

proof fn lemma_every_key_kept(batch: Seq<ProductSnapshot>, i: int) -> (j: int)
    requires
        0 <= i < batch.len(),
    ensures
        0 <= j < deduplicated(batch).len(),
        deduplicated(batch)[j].key() == batch[i].key(),
    decreases batch.len(),
{
    let init = batch.drop_last();
    let last = batch.len() - 1;
    if i < last {
        lemma_every_key_kept(init, i)
    } else if first_of_its_key(batch, last) {
        deduplicated(batch).len() - 1
    } else {
        let k = choose|k: int| 0 <= k < last && batch[k].key() == batch[last].key();
        lemma_every_key_kept(init, k)
    }
}

proof fn lemma_deduplicated_len(batch: Seq<ProductSnapshot>)
    ensures
        deduplicated(batch).len() <= batch.len(),
    decreases batch.len(),
{
    if batch.len() > 0 {
        lemma_deduplicated_len(batch.drop_last());
    }
}

/// Of the snapshots of one product in a batch, `deduplicated` keeps exactly
/// one, and it is the first of them: every snapshot kept is the first of its
/// product, every first snapshot is kept, no two kept snapshots are of the same
/// product, and every product of the batch has a snapshot among those kept.
pub proof fn lemma_deduplicated(batch: Seq<ProductSnapshot>)
    ensures
        forall|j: int|
            0 <= j < deduplicated(batch).len() ==> leads_its_product(
                batch,
                #[trigger] deduplicated(batch)[j],
            ),
        forall|i: int|
            0 <= i < batch.len() && #[trigger] first_of_its_key(batch, i) ==> deduplicated(
                batch,
            ).contains(batch[i]),
        forall|j: int, k: int|
            0 <= j < k < deduplicated(batch).len() ==> (#[trigger] deduplicated(batch)[j]).key()
                != (#[trigger] deduplicated(batch)[k]).key(),
        forall|i: int|
            0 <= i < batch.len() ==> has_product(deduplicated(batch), (#[trigger] batch[i]).key()),
        deduplicated(batch).len() <= batch.len(),
{
    let kept = deduplicated(batch);
    assert forall|j: int| 0 <= j < kept.len() implies leads_its_product(
        batch,
        #[trigger] kept[j],
    ) by {
        let i = lemma_kept_are_first(batch, j);
    }
    assert forall|i: int| 0 <= i < batch.len() && #[trigger] first_of_its_key(
        batch,
        i,
    ) implies kept.contains(batch[i]) by {
        let j = lemma_first_are_kept(batch, i);
    }
    assert forall|j: int, k: int| 0 <= j < k < kept.len() implies (#[trigger] kept[j]).key() != (
    #[trigger] kept[k]).key() by {
        lemma_kept_distinct(batch, j, k);
    }
    assert forall|i: int| 0 <= i < batch.len() implies has_product(
        kept,
        (#[trigger] batch[i]).key(),
    ) by {
        let j = lemma_every_key_kept(batch, i);
    }
    lemma_deduplicated_len(batch);
}

/// Keeps, of the snapshots of one product, the first.
pub fn deduplicate_products(products: Vec<ProductSnapshot>) -> (r: Vec<ProductSnapshot>)
    ensures
        r@ == deduplicated(products@),
{
    let ghost batch = products@;
    let mut lookup: HashSet<i128> = HashSet::new();
    let mut dedup_products: Vec<ProductSnapshot> = Vec::new();
    for product in iter: products
        invariant
            iter.seq() == batch,
            dedup_products@ == deduplicated(batch.take(iter.index() as int)),
            forall|key: (Store, i64)|
                lookup@.contains(#[trigger] key_code(key) as i128) <==> exists|k: int|
                    0 <= k < iter.index() && batch[k].key() == key,
    {
        let ghost i = iter.index() as int;
        let product_key = code_of(product.store(), product.id());
        let seen = lookup.contains(&product_key);
        proof {
            assert(batch.take(i + 1).drop_last() =~= batch.take(i));
            assert(batch.take(i + 1).last() == batch[i]);
            assert(first_of_its_key(batch.take(i + 1), i) <==> !seen) by {
                if seen {
                    let k = choose|k: int| 0 <= k < i && batch[k].key() == batch[i].key();
                    assert(batch.take(i + 1)[k].key() == batch.take(i + 1)[i].key());
                } else {
                    assert forall|k: int| 0 <= k < i implies (#[trigger] batch.take(i + 1)[k]).key()
                        != batch.take(i + 1)[i].key() by {
                        assert(batch[k].key() == batch.take(i + 1)[k].key());
                    }
                }
            }
        }
        if !seen {
            lookup.insert(product_key);
            dedup_products.push(product);
        }
        proof {
            assert forall|key: (Store, i64)|
                lookup@.contains(#[trigger] key_code(key) as i128) <==> exists|k: int|
                    0 <= k < i + 1 && batch[k].key() == key by {
                lemma_key_code_injective(key, batch[i].key());
                if exists|k: int| 0 <= k < i + 1 && batch[k].key() == key {
                    let k = choose|k: int| 0 <= k < i + 1 && batch[k].key() == key;
                    if k < i {
                        assert(exists|k: int| 0 <= k < i && batch[k].key() == key);
                    }
                }
            }
        }
    }
    assert(batch.take(batch.len() as int) =~= batch);
    dedup_products
}

/// Whether a merge restricted to `filter` leaves this history as it is.
pub open spec fn passes_through(history: ProductHistory, filter: Option<Store>) -> bool {
    !history.info().store.spec_selected(filter)
}

/// The histories that a merge restricted to `filter` hands on untouched, in
/// their order.
pub open spec fn passed_through(histories: Seq<ProductHistory>, filter: Option<Store>) -> Seq<
    ProductHistory,
>
    decreases histories.len(),
{
    if histories.len() == 0 {
        Seq::empty()
    } else if passes_through(histories.last(), filter) {
        passed_through(histories.drop_last(), filter).push(histories.last())
    } else {
        passed_through(histories.drop_last(), filter)
    }
}

/// The other histories by product. Of two histories of one product the later
/// one in the sequence is the one found.
pub open spec fn indexed(histories: Seq<ProductHistory>, filter: Option<Store>) -> Map<
    (Store, i64),
    ProductHistory,
>
    decreases histories.len(),
{
    if histories.len() == 0 {
        Map::empty()
    } else if passes_through(histories.last(), filter) {
        indexed(histories.drop_last(), filter)
    } else {
        indexed(histories.drop_last(), filter).insert(histories.last().key(), histories.last())
    }
}

/// Whether `merged` is what the merge gives: first the histories passed
/// through; then one history for each product of the snapshots, in the
/// order in which the products first appear. Of the snapshots of one
/// product the first counts. It updates the history of the product, where
/// there is one among the others, and else starts a history.
pub open spec fn is_merge_of(
    merged: Seq<ProductHistory>,
    old_items: Seq<ProductHistory>,
    new_items: Seq<ProductSnapshot>,
    store_filter: Option<Store>,
) -> bool {
    let kept = passed_through(old_items, store_filter);
    let index = indexed(old_items, store_filter);
    let batch = deduplicated(new_items);
    &&& merged.len() == kept.len() + batch.len()
    &&& forall|i: int| 0 <= i < kept.len() ==> #[trigger] merged[i] == kept[i]
    &&& forall|j: int|
        0 <= j < batch.len() ==> merged_entry(index, batch[j], #[trigger] merged[kept.len() + j])
}

/// What the merge gives for a snapshot that counts.
pub open spec fn merged_entry(
    index: Map<(Store, i64), ProductHistory>,
    snapshot: ProductSnapshot,
    entry: ProductHistory,
) -> bool {
    if index.contains_key(snapshot.key()) {
        entry.updated_from(index[snapshot.key()], snapshot)
    } else {
        entry.created_from(snapshot)
    }
}

/// Folds a day's snapshots into the histories. Of the snapshots of one
/// product only the first counts. With a store filter, the histories of
/// other stores pass through untouched. A history that no snapshot matches
/// is dropped.
pub fn merge_price_history(
    old_items: Vec<ProductHistory>,
    new_items: Vec<ProductSnapshot>,
    store_filter: Option<Store>,
) -> (result: Vec<ProductHistory>)
    ensures
        is_merge_of(result@, old_items@, new_items@, store_filter),
        forall|i: int| 0 <= i < result.len() ==> (#[trigger] result[i]).is_valid(),
{
    let ghost old_seq = old_items@;
    let ghost given = new_items@;
    let new_items = deduplicate_products(new_items);
    let ghost new_seq = new_items@;
    let mut result: Vec<ProductHistory> = Vec::new();
    let mut old_map: HashMap<i128, ProductHistory> = HashMap::new();
    for item in iter: old_items
        invariant
            iter.seq() == old_seq,
            result@ == passed_through(old_seq.take(iter.index() as int), store_filter),
            forall|i: int| 0 <= i < result.len() ==> (#[trigger] result[i]).is_valid(),
            forall|key: (Store, i64)|
                old_map@.contains_key(#[trigger] key_code(key) as i128) <==> indexed(
                    old_seq.take(iter.index() as int),
                    store_filter,
                ).contains_key(key),
            forall|key: (Store, i64)|
                old_map@.contains_key(#[trigger] key_code(key) as i128) ==> old_map@[key_code(
                    key,
                ) as i128] == indexed(old_seq.take(iter.index() as int), store_filter)[key],
    {
        let ghost i = iter.index() as int;
        let ghost before = indexed(old_seq.take(i), store_filter);
        proof {
            assert(old_seq.take(i + 1).drop_last() =~= old_seq.take(i));
            assert(old_seq.take(i + 1).last() == old_seq[i]);
        }
        if !item.store().selected(store_filter) {
            proof {
                use_type_invariant(&item);
            }
            result.push(item);
        } else {
            let code = code_of(item.store(), item.id());
            old_map.insert(code, item);
            proof {
                let after = indexed(old_seq.take(i + 1), store_filter);
                assert(after == before.insert(old_seq[i].key(), old_seq[i]));
                assert forall|key: (Store, i64)|
                    old_map@.contains_key(#[trigger] key_code(key) as i128)
                        <==> after.contains_key(key) by {
                    lemma_key_code_injective(key, old_seq[i].key());
                }
                assert forall|key: (Store, i64)|
                    old_map@.contains_key(#[trigger] key_code(key) as i128) implies old_map@[key_code(
                        key,
                    ) as i128] == after[key] by {
                    lemma_key_code_injective(key, old_seq[i].key());
                }
            }
        }
    }
    proof {
        assert(old_seq.take(old_seq.len() as int) =~= old_seq);
    }
    let ghost kept = passed_through(old_seq, store_filter);
    let ghost index = indexed(old_seq, store_filter);
    for new in iter: new_items
        invariant
            iter.seq() == new_seq,
            new_seq == deduplicated(given),
            kept == passed_through(old_seq, store_filter),
            index == indexed(old_seq, store_filter),
            result.len() == kept.len() + iter.index(),
            forall|i: int| 0 <= i < result.len() ==> (#[trigger] result[i]).is_valid(),
            forall|i: int| 0 <= i < kept.len() ==> #[trigger] result[i] == kept[i],
            forall|j: int|
                0 <= j < iter.index() ==> merged_entry(
                    index,
                    new_seq[j],
                    #[trigger] result[kept.len() + j],
                ),
            forall|key: (Store, i64)|
                old_map@.contains_key(#[trigger] key_code(key) as i128) <==> (index.contains_key(
                    key,
                ) && !has_product(new_seq.take(iter.index() as int), key)),
            forall|key: (Store, i64)|
                old_map@.contains_key(#[trigger] key_code(key) as i128) ==> old_map@[key_code(
                    key,
                ) as i128] == index[key],
    {
        let ghost j = iter.index() as int;
        let ghost key = new_seq[j].key();
        let ghost earlier = result@;
        let code = code_of(new.store(), new.id());
        proof {
            assert(!has_product(new_seq.take(j), key)) by {
                if has_product(new_seq.take(j), key) {
                    let k = choose|k: int|
                        0 <= k < new_seq.take(j).len() && (#[trigger] new_seq.take(j)[k]).key()
                            == key;
                    lemma_kept_distinct(given, k, j);
                }
            }
        }
        let found = old_map.remove(&code);
        match found {
            Some(mut old) => {
                old.update_from_snapshot(new);
                result.push(old);
            },
            None => {
                result.push(ProductHistory::from_snapshot(new));
            },
        }
        proof {
            assert(merged_entry(index, new_seq[j], result[kept.len() + j]));
            assert forall|k: int| 0 <= k < j + 1 implies merged_entry(
                index,
                new_seq[k],
                #[trigger] result[kept.len() + k],
            ) by {
                if k < j {
                    assert(result[kept.len() + k] == earlier[kept.len() + k]);
                }
            }
            assert forall|other: (Store, i64)|
                old_map@.contains_key(#[trigger] key_code(other) as i128) <==> (index.contains_key(
                    other,
                ) && !has_product(new_seq.take(j + 1), other)) by {
                lemma_key_code_injective(other, key);
                if has_product(new_seq.take(j + 1), other) {
                    let k = choose|k: int|
                        0 <= k < new_seq.take(j + 1).len() && (#[trigger] new_seq.take(
                            j + 1,
                        )[k]).key() == other;
                    if k < j {
                        assert(new_seq.take(j)[k].key() == other);
                    }
                }
                if has_product(new_seq.take(j), other) {
                    let k = choose|k: int|
                        0 <= k < new_seq.take(j).len() && (#[trigger] new_seq.take(j)[k]).key()
                            == other;
                    assert(new_seq.take(j + 1)[k].key() == other);
                }
                if other == key {
                    assert(new_seq.take(j + 1)[j].key() == other);
                }
            }
            assert forall|other: (Store, i64)|
                old_map@.contains_key(#[trigger] key_code(other) as i128) implies old_map@[key_code(
                    other,
                ) as i128] == index[other] by {
                lemma_key_code_injective(other, key);
            }
        }
    }
    result
}

proof fn lemma_passed_through_from(histories: Seq<ProductHistory>, filter: Option<Store>, i: int) -> (k:
    int)
    requires
        0 <= i < passed_through(histories, filter).len(),
    ensures
        0 <= k < histories.len(),
        histories[k] == passed_through(histories, filter)[i],
        passes_through(histories[k], filter),
    decreases histories.len(),
{
    let init = histories.drop_last();
    if i < passed_through(init, filter).len() {
        lemma_passed_through_from(init, filter, i)
    } else {
        histories.len() - 1
    }
}

/// The histories of a merge are all in order, the latest price first and
/// no two prices of one day, whatever the snapshots: a history passed
/// through is one of those given, unchanged, and a history made from a
/// snapshot is put in order.
pub proof fn lemma_merge_sorted(
    merged: Seq<ProductHistory>,
    old_items: Seq<ProductHistory>,
    new_items: Seq<ProductSnapshot>,
    store_filter: Option<Store>,
)
    requires
        is_merge_of(merged, old_items, new_items, store_filter),
        forall|k: int| 0 <= k < old_items.len() ==> (#[trigger] old_items[k]).is_valid(),
    ensures
        forall|i: int| 0 <= i < merged.len() ==> newest_first((#[trigger] merged[i]).points()),
        forall|i: int| 0 <= i < merged.len() ==> distinct_days((#[trigger] merged[i]).points()),
        forall|i: int|
            0 <= i < passed_through(old_items, store_filter).len() ==> old_items.contains(
                #[trigger] merged[i],
            ),
{
    let kept = passed_through(old_items, store_filter);
    let index = indexed(old_items, store_filter);
    let batch = deduplicated(new_items);
    assert forall|i: int| 0 <= i < merged.len() implies newest_first(
        (#[trigger] merged[i]).points(),
    ) by {
        if i < kept.len() {
            let k = lemma_passed_through_from(old_items, store_filter, i);
            assert(merged[i] == kept[i]);
        } else {
            let j = i - kept.len();
            assert(merged_entry(index, batch[j], merged[kept.len() + j]));
        }
    }
    assert forall|i: int| 0 <= i < merged.len() implies distinct_days(
        (#[trigger] merged[i]).points(),
    ) by {
        let points = merged[i].points();
        assert forall|x: int, y: int| 0 <= x < y < points.len() implies (#[trigger] points[x]).day != (
        #[trigger] points[y]).day by {
            assert(precedes(points[x], points[y]));
        }
    }
    assert forall|i: int| 0 <= i < kept.len() implies old_items.contains(#[trigger] merged[i]) by {
        let k = lemma_passed_through_from(old_items, store_filter, i);
        assert(merged[i] == kept[i]);
    }
}

/// The histories that a merge makes from the snapshots are of distinct
/// products: of the snapshots of one product one history comes, and it
/// is made from the first of them.
pub proof fn lemma_merge_one_per_product(
    merged: Seq<ProductHistory>,
    old_items: Seq<ProductHistory>,
    new_items: Seq<ProductSnapshot>,
    store_filter: Option<Store>,
)
    requires
        is_merge_of(merged, old_items, new_items, store_filter),
    ensures
        forall|i: int, j: int|
            passed_through(old_items, store_filter).len() <= i < j < merged.len() ==> (
            #[trigger] merged[i]).key() != (#[trigger] merged[j]).key(),
        forall|i: int|
            passed_through(old_items, store_filter).len() <= i < merged.len() ==> leads_its_product(
                new_items,
                deduplicated(new_items)[i - passed_through(old_items, store_filter).len()],
            ) && (#[trigger] merged[i]).info() == deduplicated(new_items)[i - passed_through(
                old_items,
                store_filter,
            ).len()].info(),
{
    let kept = passed_through(old_items, store_filter);
    let index = indexed(old_items, store_filter);
    let batch = deduplicated(new_items);
    lemma_deduplicated(new_items);
    assert forall|i: int| kept.len() <= i < merged.len() implies leads_its_product(
        new_items,
        batch[i - kept.len()],
    ) && (#[trigger] merged[i]).info() == batch[i - kept.len()].info() by {
        let j = i - kept.len();
        assert(merged_entry(index, batch[j], merged[kept.len() + j]));
    }
    assert forall|i: int, j: int| kept.len() <= i < j < merged.len() implies (
    #[trigger] merged[i]).key() != (#[trigger] merged[j]).key() by {
        let x = i - kept.len();
        let y = j - kept.len();
        assert(merged_entry(index, batch[x], merged[kept.len() + x]));
        assert(merged_entry(index, batch[y], merged[kept.len() + y]));
        assert(batch[x].key() != batch[y].key());
    }
}

/// Merging one snapshot into the one history of its product gives one
/// history. At the price that the history begins with it is as long as
/// before, and so it is where the history holds the day of the snapshot.
/// At another price and of a day that the history does not hold, it is
/// longer by one. At another price it begins with the snapshot's point
/// where the snapshot is of no earlier day than the latest price so far.
pub proof fn lemma_merge_of_pair(
    merged: Seq<ProductHistory>,
    history: ProductHistory,
    snapshot: ProductSnapshot,
    store_filter: Option<Store>,
)
    requires
        is_merge_of(merged, seq![history], seq![snapshot], store_filter),
        history.key() == snapshot.key(),
        !passes_through(history, store_filter),
        history.is_valid(),
    ensures
        merged.len() == 1,
        merged[0].updated_from(history, snapshot),
        history.points()[0].cents == snapshot.point().cents ==> merged[0].points()
            == history.points(),
        holds_day(history.points(), snapshot.point().day) ==> merged[0].points().len()
            == history.points().len(),
        history.points()[0].cents != snapshot.point().cents && !holds_day(
            history.points(),
            snapshot.point().day,
        ) ==> merged[0].points().len() == history.points().len() + 1,
        history.points()[0].cents != snapshot.point().cents && snapshot.point().day
            >= history.points()[0].day ==> merged[0].points()[0] == snapshot.point(),
        newest_first(merged[0].points()),
{
    let old_items = seq![history];
    let new_items = seq![snapshot];
    assert(old_items.drop_last() =~= Seq::<ProductHistory>::empty());
    assert(old_items.last() == history);
    assert(passed_through(old_items.drop_last(), store_filter) =~= Seq::<ProductHistory>::empty());
    assert(indexed(old_items.drop_last(), store_filter) =~= Map::<
        (Store, i64),
        ProductHistory,
    >::empty());
    assert(passed_through(old_items, store_filter).len() == 0);
    let index = indexed(old_items, store_filter);
    assert(index.contains_key(snapshot.key()) && index[snapshot.key()] == history);
    assert(new_items.drop_last() =~= Seq::<ProductSnapshot>::empty());
    assert(deduplicated(new_items.drop_last()) =~= Seq::<ProductSnapshot>::empty());
    assert(first_of_its_key(new_items, 0));
    assert(deduplicated(new_items) =~= seq![snapshot]);
    let kept_len = passed_through(old_items, store_filter).len() as int;
    assert(merged_entry(index, deduplicated(new_items)[0], merged[kept_len + 0]));
    lemma_update_length(merged[0], history, snapshot);
    if history.points()[0].cents != snapshot.point().cents && snapshot.point().day
        >= history.points()[0].day {
        lemma_update_first(merged[0], history, snapshot);
    }
}

} // verus!

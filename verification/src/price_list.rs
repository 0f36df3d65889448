//! The `nonempty` crate's list, as the price history holds it.
//!
//! A history keeps its price points in a `NonEmpty` of integer pairs. Verus
//! does not look inside that type: what a list holds is named by
//! [`list_items`], and each method the library calls is stated over that name.
use vstd::prelude::*;

verus! {

/// The list of the `nonempty` crate, declared so that it can stand in fields
/// and signatures. Nothing inside a list is visible to a proof.
#[verifier::external_type_specification]
#[verifier::external_body]
#[verifier::reject_recursive_types(T)]
pub struct ExNonEmpty<T>(nonempty::NonEmpty<T>);

/// The items of a list, first to last.
pub uninterp spec fn list_items(list: nonempty::NonEmpty<(i32, i32)>) -> Seq<(i32, i32)>;

/// The order that `Ord` gives to pairs of integers: by the first component,
/// then by the second.
pub open spec fn pair_le(a: (i32, i32), b: (i32, i32)) -> bool {
    a.0 < b.0 || (a.0 == b.0 && a.1 <= b.1)
}

/// No item is followed by a smaller one.
pub open spec fn ascending(items: Seq<(i32, i32)>) -> bool {
    forall|i: int, j: int| 0 <= i < j < items.len() ==> pair_le(#[trigger] items[i], #[trigger] items[j])
}

/// Calls `NonEmpty::from` on a head and a tail. Trusted: the list holds the
/// head, then the tail in its order.
#[verifier::external_body]
pub(crate) fn list_from_parts(head: (i32, i32), tail: Vec<(i32, i32)>) -> (r: nonempty::NonEmpty<
    (i32, i32),
>)
    ensures
        list_items(r) == seq![head] + tail@,
{
    nonempty::NonEmpty::from((head, tail))
}

/// Calls `NonEmpty::first`. Trusted: the result is the first item, so that the
/// list is that item followed by the rest; a list is never empty.
#[verifier::external_body]
pub(crate) fn list_first(list: &nonempty::NonEmpty<(i32, i32)>) -> (r: (i32, i32))
    ensures
        list_items(*list) == seq![r] + list_items(*list).skip(1),
{
    *list.first()
}

/// Calls `NonEmpty::insert`, which panics for an index beyond the length and
/// for no other. Trusted: the item stands at `index` and the items from there
/// on have moved one place back.
#[verifier::external_body]
pub(crate) fn list_insert(list: &mut nonempty::NonEmpty<(i32, i32)>, index: usize, item: (i32, i32))
    requires
        index <= list_items(*old(list)).len(),
    ensures
        list_items(*final(list)) == list_items(*old(list)).insert(index as int, item),
    no_unwind
{
    list.insert(index, item)
}

/// Calls `NonEmpty::sort`. Trusted: the list holds the same items as before,
/// each as often as before, in ascending order; and the call returns, since
/// comparing integers cannot fail.
#[verifier::external_body]
pub(crate) fn list_sort(list: &mut nonempty::NonEmpty<(i32, i32)>)
    ensures
        list_items(*final(list)).to_multiset() == list_items(*old(list)).to_multiset(),
        ascending(list_items(*final(list))),
    no_unwind
{
    list.sort()
}

/// Walks the list with `NonEmpty::iter` and copies each item. Trusted: the
/// vector holds the items of the list in their order.
#[verifier::external_body]
pub(crate) fn list_to_vec(list: &nonempty::NonEmpty<(i32, i32)>) -> (r: Vec<(i32, i32)>)
    ensures
        r@ == list_items(*list),
{
    list.iter().copied().collect()
}

} // verus!

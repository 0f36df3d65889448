use vstd::prelude::*;
use vstd::seq_lib::{to_multiset_build, to_multiset_contains, to_multiset_insert};
use crate::category::{Category, CategoryCode};
use crate::date::{calendar_text, Date};
use crate::price_list::{
    ascending, list_first, list_from_parts, list_insert, list_items, list_sort,
    list_to_vec, pair_le,
};
use crate::stores::Store;
use crate::unit::{Quantity, Unit};

verus! {

/// An amount of money in cents.
#[derive(Debug, Clone, Copy, PartialEq, Eq, Structural)]
pub struct Price {
    pub price: i32,
}

impl Price {
    pub fn from_cents(cents: i32) -> (r: Price)
        ensures
            r.price == cents,
    {
        Price { price: cents }
    }

    pub fn cents(&self) -> (r: i32)
        ensures
            r == self.price,
    {
        self.price
    }
}

/// A price on a day, as contracts speak of it: the day's Julian day number
/// and the price in cents.
pub struct PricePoint {
    pub day: int,
    pub cents: int,
}

/// The order of a price history: the point of a later day comes first.
pub open spec fn precedes(a: PricePoint, b: PricePoint) -> bool {
    a.day > b.day
}

/// Every point is of a later day than all points that come after it: the
/// latest price is the first, and no two points are of one day.
pub open spec fn newest_first(points: Seq<PricePoint>) -> bool {
    forall|i: int, j: int|
        0 <= i < j < points.len() ==> precedes(#[trigger] points[i], #[trigger] points[j])
}

/// Whether one of the points is of this day.
pub open spec fn holds_day(points: Seq<PricePoint>, day: int) -> bool {
    exists|i: int| 0 <= i < points.len() && (#[trigger] points[i]).day == day
}

/// Where the point of this day stands, among points that hold the day.
pub open spec fn day_index(points: Seq<PricePoint>, day: int) -> int {
    choose|i: int| 0 <= i < points.len() && (#[trigger] points[i]).day == day
}

/// No two of the points are of one day.
pub open spec fn distinct_days(points: Seq<PricePoint>) -> bool {
    forall|i: int, j: int|
        0 <= i < j < points.len() ==> (#[trigger] points[i]).day != (#[trigger] points[j]).day
}

/// The price of a product on one day.
#[derive(Debug, Clone, Copy, PartialEq, Eq, Structural)]
pub struct PriceSnapshot {
    pub date: Date,
    pub price: Price,
}

impl PriceSnapshot {
    pub open spec fn point(self) -> PricePoint {
        PricePoint { day: self.date.day_number(), cents: self.price.price as int }
    }

    pub fn new(date: Date, price: Price) -> (r: PriceSnapshot)
        ensures
            r.date == date,
            r.price == price,
    {
        PriceSnapshot { date, price }
    }

    pub open spec fn spec_sorts_before(self, other: PriceSnapshot) -> bool {
        self.date.day_number() > other.date.day_number()
    }

    /// Whether this price is of a later day than `other`, and so stands before
    /// it in a history.
    pub fn sorts_before(&self, other: &PriceSnapshot) -> (r: bool)
        ensures
            r == self.spec_sorts_before(*other),
    {
        self.date.is_after(&other.date)
    }
}

/// What is known of a product apart from its price.
#[derive(Debug)]
pub struct ProductInfo {
    pub id: i64,
    pub name: String,
    pub description: String,
    pub is_weighted: bool,
    pub unit: Unit,
    pub quantity: Quantity,
    pub store: Store,
    pub category: Option<CategoryCode>,
}

impl ProductInfo {
    /// A product that is not said to be sold by weight is not.
    pub fn new(
        id: i64,
        name: String,
        description: String,
        is_weighted: Option<bool>,
        unit: Unit,
        quantity: Quantity,
        store: Store,
        category: Option<CategoryCode>,
    ) -> (r: Self)
        ensures
            r.id == id,
            r.name == name,
            r.description == description,
            r.is_weighted == (is_weighted == Some(true)),
            r.unit == unit,
            r.quantity == quantity,
            r.store == store,
            r.category == category,
    {
        let is_weighted = match is_weighted {
            Some(flag) => flag,
            None => false,
        };
        Self { id, name, description, is_weighted, unit, quantity, store, category }
    }

    /// The store and the number that together identify the product.
    pub open spec fn key(self) -> (Store, i64) {
        (self.store, self.id)
    }
}

/// One day's observation of one product.
#[derive(Debug)]
pub struct ProductSnapshot {
    product_info: ProductInfo,
    price_snapshot: PriceSnapshot,
}

impl ProductSnapshot {
    pub closed spec fn info(self) -> ProductInfo {
        self.product_info
    }

    pub closed spec fn observed(self) -> PriceSnapshot {
        self.price_snapshot
    }

    pub open spec fn key(self) -> (Store, i64) {
        self.info().key()
    }

    pub open spec fn point(self) -> PricePoint {
        self.observed().point()
    }

    pub fn new(product_info: ProductInfo, price: Price, date: Date) -> (r: Self)
        ensures
            r.info() == product_info,
            r.observed() == (PriceSnapshot { date, price }),
    {
        Self { product_info, price_snapshot: PriceSnapshot { date, price } }
    }

    pub fn id(&self) -> (r: i64)
        ensures
            r == self.info().id,
    {
        self.product_info.id
    }

    pub fn name(&self) -> (r: &str)
        ensures
            r@ == self.info().name@,
    {
        self.product_info.name.as_str()
    }

    pub fn description(&self) -> (r: &str)
        ensures
            r@ == self.info().description@,
    {
        self.product_info.description.as_str()
    }

    pub fn is_weighted(&self) -> (r: bool)
        ensures
            r == self.info().is_weighted,
    {
        self.product_info.is_weighted
    }

    pub fn store(&self) -> (r: Store)
        ensures
            r == self.info().store,
    {
        self.product_info.store
    }

    pub fn unit(&self) -> (r: Unit)
        ensures
            r == self.info().unit,
    {
        self.product_info.unit
    }

    pub fn quantity(&self) -> (r: Quantity)
        ensures
            r == self.info().quantity,
    {
        self.product_info.quantity
    }

    pub fn category(&self) -> (r: Option<Category>)
        ensures
            r == match self.info().category {
                Some(code) => Some(code.category),
                None => None,
            },
    {
        match &self.product_info.category {
            Some(code) => Some(code.category),
            None => None,
        }
    }

    pub fn price(&self) -> (r: Price)
        ensures
            r == self.observed().price,
    {
        self.price_snapshot.price
    }

    pub fn date(&self) -> (r: Date)
        ensures
            r == self.observed().date,
    {
        self.price_snapshot.date
    }
}

/// The point that an item of the list stands for. The first number of an
/// item falls as the day rises, so that the list's ascending order is the
/// history's order.
pub open spec fn point_of(item: (i32, i32)) -> PricePoint {
    PricePoint { day: -1 - item.0, cents: item.1 as int }
}

pub open spec fn points_of(items: Seq<(i32, i32)>) -> Seq<PricePoint> {
    items.map_values(|item: (i32, i32)| point_of(item))
}

proof fn lemma_points_count(items: Seq<(i32, i32)>, item: (i32, i32))
    ensures
        points_of(items).to_multiset().count(point_of(item)) == items.to_multiset().count(item),
    decreases items.len(),
{
    if items.len() == 0 {
        to_multiset_contains(items, item);
        to_multiset_contains(points_of(items), point_of(item));
    } else {
        let init = items.drop_last();
        let last = items.last();
        assert(items =~= init.push(last));
        assert(points_of(items) =~= points_of(init).push(point_of(last)));
        to_multiset_build(init, last);
        to_multiset_build(points_of(init), point_of(last));
        lemma_points_count(init, item);
        assert(point_of(last) == point_of(item) <==> last == item);
    }
}

proof fn lemma_points_same_multiset(a: Seq<(i32, i32)>, b: Seq<(i32, i32)>)
    requires
        a.to_multiset() == b.to_multiset(),
    ensures
        points_of(a).to_multiset() == points_of(b).to_multiset(),
{
    assert forall|p: PricePoint|
        points_of(a).to_multiset().count(p) == points_of(b).to_multiset().count(p) by {
        if exists|item: (i32, i32)| point_of(item) == p {
            let item = choose|item: (i32, i32)| point_of(item) == p;
            lemma_points_count(a, item);
            lemma_points_count(b, item);
        } else {
            to_multiset_contains(points_of(a), p);
            to_multiset_contains(points_of(b), p);
            if points_of(a).contains(p) {
                let i = choose|i: int| 0 <= i < points_of(a).len() && points_of(a)[i] == p;
                assert(point_of(a[i]) == p);
            }
            if points_of(b).contains(p) {
                let i = choose|i: int| 0 <= i < points_of(b).len() && points_of(b)[i] == p;
                assert(point_of(b[i]) == p);
            }
        }
    }
    assert(points_of(a).to_multiset() =~= points_of(b).to_multiset());
}

/// No two items have the same first number: no two stand for points of
/// one day.
spec fn distinct_keys(items: Seq<(i32, i32)>) -> bool {
    forall|i: int, j: int|
        0 <= i < j < items.len() ==> (#[trigger] items[i]).0 != (#[trigger] items[j]).0
}

/// The first numbers of the items rise from each item to the next.
spec fn strictly_ascending(items: Seq<(i32, i32)>) -> bool {
    forall|i: int, j: int|
        0 <= i < j < items.len() ==> (#[trigger] items[i]).0 < (#[trigger] items[j]).0
}

proof fn lemma_strictly_ascending_is_newest_first(items: Seq<(i32, i32)>)
    requires
        strictly_ascending(items),
    ensures
        newest_first(points_of(items)),
{
    assert forall|i: int, j: int| 0 <= i < j < points_of(items).len() implies precedes(
        #[trigger] points_of(items)[i],
        #[trigger] points_of(items)[j],
    ) by {
        assert(items[i].0 < items[j].0);
    }
}

proof fn lemma_newest_first_is_strictly_ascending(items: Seq<(i32, i32)>)
    requires
        newest_first(points_of(items)),
    ensures
        strictly_ascending(items),
{
    assert forall|i: int, j: int| 0 <= i < j < items.len() implies (#[trigger] items[i]).0 < (
    #[trigger] items[j]).0 by {
        assert(precedes(points_of(items)[i], points_of(items)[j]));
    }
}

/// Items in ascending order that hold what items of distinct days hold are
/// in strictly ascending order.
proof fn lemma_sorted_distinct(sorted: Seq<(i32, i32)>, unsorted: Seq<(i32, i32)>)
    requires
        ascending(sorted),
        sorted.to_multiset() == unsorted.to_multiset(),
        distinct_keys(unsorted),
    ensures
        strictly_ascending(sorted),
{
    assert(unsorted.no_duplicates()) by {
        assert forall|i: int, j: int|
            0 <= i < unsorted.len() && 0 <= j < unsorted.len() && i != j implies unsorted[i]
            != unsorted[j] by {
            if i < j {
                assert(unsorted[i].0 != unsorted[j].0);
            } else {
                assert(unsorted[j].0 != unsorted[i].0);
            }
        }
    }
    unsorted.lemma_multiset_has_no_duplicates();
    sorted.lemma_multiset_has_no_duplicates_conv();
    assert forall|i: int, j: int| 0 <= i < j < sorted.len() implies (#[trigger] sorted[i]).0 < (
    #[trigger] sorted[j]).0 by {
        assert(pair_le(sorted[i], sorted[j]));
        if sorted[i].0 == sorted[j].0 {
            to_multiset_contains(sorted, sorted[i]);
            to_multiset_contains(unsorted, sorted[i]);
            to_multiset_contains(sorted, sorted[j]);
            to_multiset_contains(unsorted, sorted[j]);
            assert(sorted.contains(sorted[i]));
            assert(sorted.contains(sorted[j]));
            let a = choose|a: int| 0 <= a < unsorted.len() && unsorted[a] == sorted[i];
            let b = choose|b: int| 0 <= b < unsorted.len() && unsorted[b] == sorted[j];
            if a < b {
                assert(unsorted[a].0 != unsorted[b].0);
            } else if b < a {
                assert(unsorted[b].0 != unsorted[a].0);
            }
            assert(sorted[i] != sorted[j]);
        }
    }
}

/// Items that hold what items in strictly ascending order hold are of
/// distinct days.
proof fn lemma_distinct_back(sorted: Seq<(i32, i32)>, unsorted: Seq<(i32, i32)>)
    requires
        strictly_ascending(sorted),
        sorted.to_multiset() == unsorted.to_multiset(),
    ensures
        distinct_keys(unsorted),
{
    assert(sorted.no_duplicates()) by {
        assert forall|i: int, j: int|
            0 <= i < sorted.len() && 0 <= j < sorted.len() && i != j implies sorted[i]
            != sorted[j] by {
            if i < j {
                assert(sorted[i].0 < sorted[j].0);
            } else {
                assert(sorted[j].0 < sorted[i].0);
            }
        }
    }
    sorted.lemma_multiset_has_no_duplicates();
    unsorted.lemma_multiset_has_no_duplicates_conv();
    assert forall|i: int, j: int| 0 <= i < j < unsorted.len() implies (#[trigger] unsorted[i]).0 != (
    #[trigger] unsorted[j]).0 by {
        if unsorted[i].0 == unsorted[j].0 {
            to_multiset_contains(sorted, unsorted[i]);
            to_multiset_contains(unsorted, unsorted[i]);
            to_multiset_contains(sorted, unsorted[j]);
            to_multiset_contains(unsorted, unsorted[j]);
            assert(unsorted.contains(unsorted[i]));
            assert(unsorted.contains(unsorted[j]));
            let a = choose|a: int| 0 <= a < sorted.len() && sorted[a] == unsorted[i];
            let b = choose|b: int| 0 <= b < sorted.len() && sorted[b] == unsorted[j];
            if a < b {
                assert(sorted[a].0 < sorted[b].0);
            } else if b < a {
                assert(sorted[b].0 < sorted[a].0);
            }
            assert(unsorted[i] != unsorted[j]);
        }
    }
}

/// The item that stands for a price on a day.
fn item_for(observed: &PriceSnapshot) -> (r: (i32, i32))
    ensures
        point_of(r) == observed.point(),
        calendar_text(-1 - r.0) is Some,
{
    let day = observed.date.to_julian_day();
    (-1 - day, observed.price.price)
}

/// Every item stands for a point of a day of the calendar.
pub open spec fn on_calendar(items: Seq<(i32, i32)>) -> bool {
    forall|i: int| 0 <= i < items.len() ==> calendar_text(-1 - (#[trigger] items[i]).0) is Some
}

/// What holds of the points of every history: there is one at least, they
/// are in order, the latest first and no two of one day, and each is of a
/// day of the calendar.
pub open spec fn valid_points(points: Seq<PricePoint>) -> bool {
    &&& points.len() >= 1
    &&& newest_first(points)
    &&& forall|i: int| 0 <= i < points.len() ==> calendar_text((#[trigger] points[i]).day) is Some
}

proof fn lemma_on_calendar_kept(sorted: Seq<(i32, i32)>, unsorted: Seq<(i32, i32)>)
    requires
        sorted.to_multiset() == unsorted.to_multiset(),
        on_calendar(unsorted),
    ensures
        on_calendar(sorted),
        sorted.len() == unsorted.len(),
{
    vstd::seq_lib::to_multiset_len(sorted);
    vstd::seq_lib::to_multiset_len(unsorted);
    assert forall|i: int| 0 <= i < sorted.len() implies calendar_text(
        -1 - (#[trigger] sorted[i]).0,
    ) is Some by {
        to_multiset_contains(sorted, sorted[i]);
        to_multiset_contains(unsorted, sorted[i]);
        assert(sorted.contains(sorted[i]));
        let k = choose|k: int| 0 <= k < unsorted.len() && unsorted[k] == sorted[i];
        assert(calendar_text(-1 - unsorted[k].0) is Some);
    }
}

proof fn lemma_valid_items(items: Seq<(i32, i32)>)
    requires
        items.len() >= 1,
        strictly_ascending(items),
        on_calendar(items),
    ensures
        valid_points(points_of(items)),
{
    lemma_strictly_ascending_is_newest_first(items);
    assert forall|i: int| 0 <= i < points_of(items).len() implies calendar_text(
        (#[trigger] points_of(items)[i]).day,
    ) is Some by {
        assert(calendar_text(-1 - items[i].0) is Some);
    }
}

/// Puts items of distinct days in ascending order, which is the order of
/// a history.
fn sort_items(list: &mut nonempty::NonEmpty<(i32, i32)>)
    requires
        list_items(*old(list)).len() >= 1,
        on_calendar(list_items(*old(list))),
        distinct_keys(list_items(*old(list))),
    ensures
        valid_points(points_of(list_items(*final(list)))),
        points_of(list_items(*final(list))).to_multiset() == points_of(
            list_items(*old(list)),
        ).to_multiset(),
    no_unwind
{
    let ghost unsorted = list_items(*list);
    list_sort(list);
    proof {
        let sorted = list_items(*list);
        lemma_points_same_multiset(sorted, unsorted);
        lemma_on_calendar_kept(sorted, unsorted);
        lemma_sorted_distinct(sorted, unsorted);
        lemma_valid_items(sorted);
    }
}

/// Whether, of items in ascending order, two stand for points of one day.
fn has_repeated_key(items: &Vec<(i32, i32)>) -> (r: bool)
    requires
        ascending(items@),
    ensures
        r == !strictly_ascending(items@),
{
    if items.len() == 0 {
        return false;
    }
    let mut k: usize = 1;
    while k < items.len()
        invariant
            1 <= k <= items.len(),
            ascending(items@),
            strictly_ascending(items@.take(k as int)),
        decreases items.len() - k,
    {
        if items[k - 1].0 == items[k].0 {
            return true;
        }
        proof {
            assert forall|i: int, j: int| 0 <= i < j < k + 1 implies (#[trigger] items@.take(
                k + 1,
            )[i]).0 < (#[trigger] items@.take(k + 1)[j]).0 by {
                if j < k {
                    assert(items@.take(k as int)[i].0 < items@.take(k as int)[j].0);
                } else {
                    assert(pair_le(items[k - 1], items[k as int]));
                    if i < k - 1 {
                        assert(items@.take(k as int)[i].0 < items@.take(k as int)[k - 1].0);
                    }
                }
            }
        }
        k += 1;
    }
    proof {
        assert(items@.take(items.len() as int) =~= items@);
    }
    false
}

/// Adds an item of a day that the history does not hold to its items, and
/// puts them in order.
fn add_item(list: &mut nonempty::NonEmpty<(i32, i32)>, item: (i32, i32))
    requires
        valid_points(points_of(list_items(*old(list)))),
        calendar_text(-1 - item.0) is Some,
        !holds_day(points_of(list_items(*old(list))), point_of(item).day),
    ensures
        valid_points(points_of(list_items(*final(list)))),
        points_of(list_items(*final(list))).to_multiset() == points_of(
            list_items(*old(list)),
        ).to_multiset().insert(point_of(item)),
    no_unwind
{
    let ghost before = list_items(*list);
    list_insert(list, 0, item);
    proof {
        assert(points_of(before.insert(0, item)) =~= points_of(before).insert(0, point_of(item)));
        to_multiset_insert(points_of(before), 0, point_of(item));
        lemma_newest_first_is_strictly_ascending(before);
        let longer = list_items(*list);
        assert forall|i: int| 0 <= i < longer.len() implies calendar_text(
            -1 - (#[trigger] longer[i]).0,
        ) is Some by {
            if i > 0 {
                assert(points_of(before)[i - 1].day == -1 - before[i - 1].0);
            }
        }
        assert forall|i: int, j: int| 0 <= i < j < longer.len() implies (#[trigger] longer[i]).0 != (
        #[trigger] longer[j]).0 by {
            if i == 0 {
                assert(points_of(before)[j - 1].day != point_of(item).day);
            } else {
                assert(before[i - 1].0 < before[j - 1].0);
            }
        }
    }
    sort_items(list);
}

/// Where the item with the given first number stands, if there is one.
fn find_key(items: &Vec<(i32, i32)>, key: i32) -> (r: Option<usize>)
    ensures
        match r {
            Some(i) => i < items.len() && items[i as int].0 == key,
            None => forall|i: int| 0 <= i < items.len() ==> (#[trigger] items[i]).0 != key,
        },
{
    let mut i: usize = 0;
    while i < items.len()
        invariant
            i <= items.len(),
            forall|k: int| 0 <= k < i ==> (#[trigger] items[k]).0 != key,
        decreases items.len() - i,
    {
        if items[i].0 == key {
            return Some(i);
        }
        i += 1;
    }
    None
}

/// The points of a history that is given its prices one by one.
pub open spec fn given_points(first: PriceSnapshot, rest: Seq<PriceSnapshot>) -> Seq<PricePoint> {
    seq![first.point()] + rest.map_values(|p: PriceSnapshot| p.point())
}

/// Points in order are in their only order: two sequences in order that hold
/// the same points are the same.
pub proof fn lemma_order_is_unique(a: Seq<PricePoint>, b: Seq<PricePoint>)
    requires
        newest_first(a),
        newest_first(b),
        a.to_multiset() == b.to_multiset(),
    ensures
        a == b,
    decreases a.len(),
{
    vstd::seq_lib::to_multiset_len(a);
    vstd::seq_lib::to_multiset_len(b);
    if a.len() == 0 {
        assert(a =~= b);
    } else {
        to_multiset_contains(a, a[0]);
        to_multiset_contains(b, a[0]);
        to_multiset_contains(a, b[0]);
        to_multiset_contains(b, b[0]);
        assert(a.contains(a[0]));
        assert(b.contains(b[0]));
        let i = choose|i: int| 0 <= i < b.len() && b[i] == a[0];
        let j = choose|j: int| 0 <= j < a.len() && a[j] == b[0];
        if i > 0 {
            assert(precedes(b[0], b[i]));
        }
        if j > 0 {
            assert(precedes(a[0], a[j]));
        }
        assert(a[0] == b[0]);
        vstd::seq_lib::to_multiset_remove(a, 0);
        vstd::seq_lib::to_multiset_remove(b, 0);
        assert(a.remove(0) =~= a.drop_first());
        assert(b.remove(0) =~= b.drop_first());
        assert forall|x: int, y: int| 0 <= x < y < a.drop_first().len() implies precedes(
            #[trigger] a.drop_first()[x],
            #[trigger] a.drop_first()[y],
        ) by {
            assert(precedes(a[x + 1], a[y + 1]));
        }
        assert forall|x: int, y: int| 0 <= x < y < b.drop_first().len() implies precedes(
            #[trigger] b.drop_first()[x],
            #[trigger] b.drop_first()[y],
        ) by {
            assert(precedes(b[x + 1], b[y + 1]));
        }
        lemma_order_is_unique(a.drop_first(), b.drop_first());
        assert(a =~= seq![a[0]] + a.drop_first());
        assert(b =~= seq![b[0]] + b.drop_first());
    }
}

/// The record of a product: what is known of it, and its prices over time,
/// the latest first and one for a day at most.
#[derive(Debug)]
pub struct ProductHistory {
    product_info: ProductInfo,
    price_history: nonempty::NonEmpty<(i32, i32)>,
}

impl ProductHistory {
    /// A history holds a price at least, its prices are in order, the
    /// latest first, no two of them are of one day, and each is of a day of
    /// the calendar.
    #[verifier::type_invariant]
    pub open spec fn is_valid(self) -> bool {
        valid_points(self.points())
    }

    pub closed spec fn info(self) -> ProductInfo {
        self.product_info
    }

    /// The price points, in the order in which the history holds them.
    pub closed spec fn points(self) -> Seq<PricePoint> {
        points_of(list_items(self.price_history))
    }

    pub open spec fn key(self) -> (Store, i64) {
        self.info().key()
    }

    /// The history of a product seen for the first time.
    pub fn from_snapshot(product_snapshot: ProductSnapshot) -> (r: Self)
        ensures
            r.created_from(product_snapshot),
            r.is_valid(),
    {
        let item = item_for(&product_snapshot.price_snapshot);
        let price_history = list_from_parts(item, Vec::new());
        assert(list_items(price_history) =~= seq![item]);
        assert(points_of(list_items(price_history)) =~= seq![product_snapshot.point()]);
        Self { product_info: product_snapshot.product_info, price_history }
    }

    /// A history with the given prices, put in order: prices given with
    /// the latest first stay as they are. There is no history with two
    /// prices of one day: `None` for such prices.
    pub fn from_parts(product_info: ProductInfo, first: PriceSnapshot, rest: Vec<PriceSnapshot>) -> (r:
        Option<Self>)
        ensures
            r is Some == distinct_days(given_points(first, rest@)),
            r matches Some(history) ==> {
                &&& history.info() == product_info
                &&& history.is_valid()
                &&& history.points().to_multiset() == given_points(first, rest@).to_multiset()
                &&& newest_first(given_points(first, rest@)) ==> history.points() == given_points(
                    first,
                    rest@,
                )
            },
    {
        let head = item_for(&first);
        let mut tail: Vec<(i32, i32)> = Vec::new();
        let mut i: usize = 0;
        while i < rest.len()
            invariant
                i <= rest.len(),
                tail.len() == i,
                forall|k: int| 0 <= k < i ==> point_of(#[trigger] tail[k]) == rest[k].point(),
                forall|k: int| 0 <= k < i ==> calendar_text(-1 - (#[trigger] tail[k]).0) is Some,
            decreases rest.len() - i,
        {
            let item = item_for(&rest[i]);
            tail.push(item);
            i += 1;
        }
        let mut price_history = list_from_parts(head, tail);
        let ghost given = list_items(price_history);
        proof {
            assert(points_of(given) =~= given_points(first, rest@));
            assert(distinct_keys(given) == distinct_days(points_of(given))) by {
                if distinct_keys(given) {
                    assert forall|i: int, j: int| 0 <= i < j < points_of(given).len() implies (
                    #[trigger] points_of(given)[i]).day != (#[trigger] points_of(given)[j]).day by {
                        assert(given[i].0 != given[j].0);
                    }
                }
                if distinct_days(points_of(given)) {
                    assert forall|i: int, j: int| 0 <= i < j < given.len() implies (
                    #[trigger] given[i]).0 != (#[trigger] given[j]).0 by {
                        assert(points_of(given)[i].day != points_of(given)[j].day);
                    }
                }
            }
        }
        list_sort(&mut price_history);
        let items = list_to_vec(&price_history);
        proof {
            lemma_points_same_multiset(items@, given);
            lemma_on_calendar_kept(items@, given);
        }
        if has_repeated_key(&items) {
            proof {
                if distinct_keys(given) {
                    lemma_sorted_distinct(items@, given);
                }
            }
            return None;
        }
        proof {
            lemma_distinct_back(items@, given);
            lemma_valid_items(items@);
            if newest_first(given_points(first, rest@)) {
                lemma_order_is_unique(
                    points_of(list_items(price_history)),
                    given_points(first, rest@),
                );
            }
        }
        Some(Self { product_info, price_history })
    }

    /// Takes over what the snapshot knows of the product, and its price where
    /// that differs from the first price of the history, which is the latest.
    /// The price of a day that the history holds already takes the place of
    /// that day's price. The history stays in order. Returns whether the
    /// price differed.
    pub fn update_from_snapshot(&mut self, snapshot: ProductSnapshot) -> (has_new_price: bool)
        ensures
            final(self).updated_from(*old(self), snapshot),
            final(self).is_valid(),
            has_new_price == (old(self).points()[0].cents != snapshot.point().cents),
    {
        proof {
            use_type_invariant(&*self);
        }
        let first = list_first(&self.price_history);
        let item = item_for(&snapshot.price_snapshot);
        let has_new_price = first.1 != snapshot.price_snapshot.price.price;
        let ghost before = list_items(self.price_history);
        assert(before[0] == first);
        self.product_info = snapshot.product_info;
        if has_new_price {
            let mut items = list_to_vec(&self.price_history);
            match find_key(&items, item.0) {
                Some(at) => {
                    items.set(at, item);
                    let ghost replaced = items@;
                    proof {
                        assert(points_of(before)[at as int].day == point_of(item).day);
                        assert(holds_day(points_of(before), point_of(item).day));
                        let chosen = day_index(points_of(before), point_of(item).day);
                        if chosen < at {
                            assert(precedes(points_of(before)[chosen], points_of(before)[at as int]));
                        } else if at < chosen {
                            assert(precedes(points_of(before)[at as int], points_of(before)[chosen]));
                        }
                        assert(points_of(replaced) =~= points_of(before).update(
                            at as int,
                            point_of(item),
                        ));
                        assert forall|i: int, j: int|
                            0 <= i < j < points_of(replaced).len() implies precedes(
                            #[trigger] points_of(replaced)[i],
                            #[trigger] points_of(replaced)[j],
                        ) by {
                            assert(precedes(points_of(before)[i], points_of(before)[j]));
                        }
                        assert forall|i: int| 0 <= i < points_of(replaced).len() implies calendar_text(
                            (#[trigger] points_of(replaced)[i]).day,
                        ) is Some by {
                            assert(calendar_text(points_of(before)[i].day) is Some);
                        }
                    }
                    let head = items.remove(0);
                    let price_history = list_from_parts(head, items);
                    assert(list_items(price_history) =~= replaced);
                    self.price_history = price_history;
                },
                None => {
                    proof {
                        if holds_day(points_of(before), point_of(item).day) {
                            let i = day_index(points_of(before), point_of(item).day);
                            assert(before[i].0 != item.0);
                        }
                    }
                    add_item(&mut self.price_history, item);
                },
            }
        }
        has_new_price
    }

    /// Whether this history is what `before` becomes on meeting `snapshot`.
    /// It carries the snapshot's description of the product. At the first
    /// price of `before` its points are those of `before`. At another price
    /// the snapshot's point takes the place of the point of its day, where
    /// `before` holds that day; else the points are those of `before` and
    /// the snapshot's, in order.
    pub open spec fn updated_from(self, before: ProductHistory, snapshot: ProductSnapshot) -> bool {
        &&& self.info() == snapshot.info()
        &&& newest_first(self.points())
        &&& if before.points()[0].cents == snapshot.point().cents {
            self.points() == before.points()
        } else if holds_day(before.points(), snapshot.point().day) {
            self.points() == before.points().update(
                day_index(before.points(), snapshot.point().day),
                snapshot.point(),
            )
        } else {
            self.points().to_multiset() == before.points().to_multiset().insert(snapshot.point())
        }
    }

    /// Whether this history is that of a product first seen in `snapshot`.
    pub open spec fn created_from(self, snapshot: ProductSnapshot) -> bool {
        &&& self.info() == snapshot.info()
        &&& self.points() == seq![snapshot.point()]
    }

    pub fn id(&self) -> (r: i64)
        ensures
            r == self.info().id,
    {
        self.product_info.id
    }

    pub fn store(&self) -> (r: Store)
        ensures
            r == self.info().store,
    {
        self.product_info.store
    }

    pub fn product_info(&self) -> (r: &ProductInfo)
        ensures
            *r == self.info(),
    {
        &self.product_info
    }

    /// The prices of the history, the latest first.
    pub fn price_history(&self) -> (r: Vec<PriceSnapshot>)
        ensures
            r.len() >= 1,
            r@.map_values(|p: PriceSnapshot| p.point()) == self.points(),
            self.is_valid(),
    {
        proof {
            use_type_invariant(self);
        }
        let items = list_to_vec(&self.price_history);
        proof {
            assert forall|k: int| 0 <= k < items.len() implies calendar_text(
                -1 - (#[trigger] items[k]).0,
            ) is Some by {
                assert(self.points()[k].day == -1 - items[k].0);
            }
        }
        let mut out: Vec<PriceSnapshot> = Vec::new();
        let mut i: usize = 0;
        while i < items.len()
            invariant
                i <= items.len(),
                out.len() == i,
                forall|k: int|
                    0 <= k < items.len() ==> calendar_text(-1 - (#[trigger] items[k]).0) is Some,
                forall|k: int| 0 <= k < i ==> (#[trigger] out[k]).point() == point_of(items[k]),
            decreases items.len() - i,
        {
            let item = items[i];
            let date = Date::from_julian_day(-1 - item.0).unwrap();
            out.push(PriceSnapshot { date, price: Price { price: item.1 } });
            i += 1;
        }
        assert(out@.map_values(|p: PriceSnapshot| p.point()) =~= self.points());
        out
    }
}

/// A snapshot at the price that the history begins with adds no point,
/// and neither does one of a day that the history holds. A snapshot at
/// another price, of a day that the history does not hold, adds exactly one.
pub proof fn lemma_update_length(
    after: ProductHistory,
    before: ProductHistory,
    snapshot: ProductSnapshot,
)
    requires
        after.updated_from(before, snapshot),
    ensures
        before.points()[0].cents == snapshot.point().cents ==> after.points().len()
            == before.points().len(),
        holds_day(before.points(), snapshot.point().day) ==> after.points().len()
            == before.points().len(),
        before.points()[0].cents != snapshot.point().cents && !holds_day(
            before.points(),
            snapshot.point().day,
        ) ==> after.points().len() == before.points().len() + 1,
{
    vstd::seq_lib::to_multiset_len(after.points());
    vstd::seq_lib::to_multiset_len(before.points());
}

/// An updated history is in order: each of its points is of a later day
/// than the next, so that it holds no two points of one day.
pub proof fn lemma_update_sorted(
    after: ProductHistory,
    before: ProductHistory,
    snapshot: ProductSnapshot,
)
    requires
        after.updated_from(before, snapshot),
    ensures
        newest_first(after.points()),
        distinct_days(after.points()),
        forall|i: int|
            0 < i < after.points().len() ==> (#[trigger] after.points()[i]).day
                < after.points()[i - 1].day,
{
    assert forall|i: int| 0 < i < after.points().len() implies (#[trigger] after.points()[i]).day
        < after.points()[i - 1].day by {
        assert(precedes(after.points()[i - 1], after.points()[i]));
    }
    assert forall|i: int, j: int| 0 <= i < j < after.points().len() implies (
    #[trigger] after.points()[i]).day != (#[trigger] after.points()[j]).day by {
        assert(precedes(after.points()[i], after.points()[j]));
    }
}

/// Where a snapshot at a new price is of no earlier day than the first
/// point of the history, its point is the first of the updated history.
pub proof fn lemma_update_first(
    after: ProductHistory,
    before: ProductHistory,
    snapshot: ProductSnapshot,
)
    requires
        after.updated_from(before, snapshot),
        before.is_valid(),
        before.points()[0].cents != snapshot.point().cents,
        snapshot.point().day >= before.points()[0].day,
    ensures
        after.points()[0] == snapshot.point(),
{
    let new_point = snapshot.point();
    let points = after.points();
    let old_points = before.points();
    if holds_day(old_points, new_point.day) {
        let at = day_index(old_points, new_point.day);
        if at > 0 {
            assert(precedes(old_points[0], old_points[at]));
        }
    } else {
        vstd::seq_lib::to_multiset_len(points);
        vstd::seq_lib::to_multiset_len(old_points);
        to_multiset_contains(points, new_point);
        to_multiset_contains(points, points[0]);
        to_multiset_contains(old_points, points[0]);
        assert(points.contains(new_point));
        let k = choose|k: int| 0 <= k < points.len() && points[k] == new_point;
        if k > 0 {
            assert(precedes(points[0], points[k]));
            assert(points.contains(points[0]));
            assert(old_points.contains(points[0]));
            let i = choose|i: int| 0 <= i < old_points.len() && old_points[i] == points[0];
            if i > 0 {
                assert(precedes(old_points[0], old_points[i]));
            }
        }
    }
}

} // verus!

//! From a store's items to snapshots, with a limit on how many may fail.
use vstd::prelude::*;
use crate::date::Date;
use crate::errors::Error;
use crate::product::ProductSnapshot;
use crate::stores::Store;
use crate::text::{decimal, decimal_text, digit_text};

verus! {

/// A group of a store's catalogue, with the items fetched for it.
pub trait Category<T> {
    /// Whether the group is left out of the conversion.
    fn is_filtered(&self) -> bool;

    /// The items of the group.
    fn into_products(self) -> Result<Vec<T>, Error>;
}

/// An item of a store's catalogue.
pub trait Product {
    /// The item as the snapshot of a day.
    fn try_into_snapshot_and_date(self, date: Date) -> Result<ProductSnapshot, Error>;

    /// The store whose items these are.
    fn store() -> Store;
}

/// How many items of a batch became snapshots, and how many did not.
#[derive(Debug, Clone, Copy, PartialEq, Eq, Structural)]
pub struct ConversionMetrics {
    pub success: usize,
    pub failure: usize,
}

impl ConversionMetrics {
    /// More than one item in twenty failed.
    pub open spec fn spec_exceeds_threshold(self) -> bool {
        self.failure * 20 > self.success + self.failure
    }

    /// Whether the failures are more than five in a hundred of the batch.
    /// Exactly five in a hundred is within the limit, and so is an empty batch.
    pub fn exceeds_threshold(&self) -> (r: bool)
        ensures
            r == self.spec_exceeds_threshold(),
            r == (self.failure * 100 > 5 * (self.success + self.failure)),
    {
        (self.failure as u128) * 20 > (self.success as u128) + (self.failure as u128)
    }
}

impl ConversionMetrics {
    /// The share of failures in hundredths of a percent, rounded to the
    /// nearest; `None` for an empty batch, which has no such share.
    pub open spec fn spec_rate_hundredths(self) -> Option<nat> {
        if self.success + self.failure == 0 {
            None
        } else {
            Some(
                ((20000 * self.failure + (self.success + self.failure)) / (2 * (self.success
                    + self.failure))) as nat,
            )
        }
    }

    pub fn rate_hundredths(&self) -> (r: Option<u64>)
        ensures
            match r {
                Some(rate) => self.spec_rate_hundredths() == Some(rate as nat) && rate <= 10000,
                None => self.spec_rate_hundredths() is None,
            },
    {
        let total: u128 = (self.success as u128) + (self.failure as u128);
        if total == 0 {
            None
        } else {
            let failure: u128 = self.failure as u128;
            let rate: u128 = (20000 * failure + total) / (2 * total);
            assert(rate <= 10000) by (nonlinear_arith)
                requires
                    rate == (20000 * failure + total) / (2 * total),
                    0 <= failure <= total,
                    total > 0,
            ;
            Some(rate as u64)
        }
    }

    /// The share of failures as a percentage with two decimals.
    pub open spec fn spec_rate_text(self) -> Seq<char> {
        match self.spec_rate_hundredths() {
            None => "NaN"@,
            Some(rate) => decimal_text(rate / 100) + "."@ + digit_text(rate % 100 / 10)
                + digit_text(rate % 10),
        }
    }

    pub open spec fn spec_describe(self) -> Seq<char> {
        "Success: "@ + decimal_text(self.success as nat) + ", Fail Product: "@ + decimal_text(
            self.failure as nat,
        ) + ", Failure rate: "@ + self.spec_rate_text() + "%"@
    }

    /// The counts and the share of failures, for a log or an error.
    pub fn describe(&self) -> (r: String)
        ensures
            r@ == self.spec_describe(),
    {
        let rate = match self.rate_hundredths() {
            None => "NaN".to_owned(),
            Some(rate) => decimal(rate / 100).concat(".").concat(
                decimal(rate % 100 / 10).as_str(),
            ).concat(decimal(rate % 10).as_str()),
        };
        "Success: ".to_owned().concat(decimal(self.success as u64).as_str()).concat(
            ", Fail Product: ",
        ).concat(decimal(self.failure as u64).as_str()).concat(", Failure rate: ").concat(
            rate.as_str(),
        ).concat("%")
    }
}

/// The snapshots among the outcomes, in their order.
pub open spec fn successes(outcomes: Seq<Result<ProductSnapshot, Error>>) -> Seq<ProductSnapshot>
    decreases outcomes.len(),
{
    if outcomes.len() == 0 {
        Seq::empty()
    } else {
        match outcomes.last() {
            Ok(snapshot) => successes(outcomes.drop_last()).push(snapshot),
            Err(_) => successes(outcomes.drop_last()),
        }
    }
}

/// How many of the outcomes are snapshots, and how many are failures.
pub open spec fn metrics_of(outcomes: Seq<Result<ProductSnapshot, Error>>) -> ConversionMetrics {
    ConversionMetrics {
        success: successes(outcomes).len() as usize,
        failure: (outcomes.len() - successes(outcomes).len()) as usize,
    }
}

proof fn lemma_successes_len(outcomes: Seq<Result<ProductSnapshot, Error>>)
    ensures
        successes(outcomes).len() <= outcomes.len(),
    decreases outcomes.len(),
{
    if outcomes.len() > 0 {
        lemma_successes_len(outcomes.drop_last());
    }
}

/// What a batch that failed too often is refused with.
pub open spec fn threshold_message(store: Store, date: Date, metrics: ConversionMetrics) -> Seq<
    char,
> {
    "Error threshold of 0.05 for conversion of "@ + store.spec_name() + "/"@ + date.spec_text()
        + " exceeded: "@ + metrics.spec_describe()
}

/// Whether `r` is what a batch with these outcomes comes to: the snapshots
/// among them, where no more than five in a hundred failed; else the error
/// that names the store, the day and the counts.
pub open spec fn is_batch_result(
    outcomes: Seq<Result<ProductSnapshot, Error>>,
    store: Store,
    date: Date,
    r: Result<Vec<ProductSnapshot>, Error>,
) -> bool {
    match r {
        Ok(snapshots) => snapshots@ == successes(outcomes) && !metrics_of(
            outcomes,
        ).spec_exceeds_threshold(),
        Err(error) => metrics_of(outcomes).spec_exceeds_threshold() && (error matches Error::ProductConversion(
            reason,
        ) && reason@ == threshold_message(store, date, metrics_of(outcomes))),
    }
}

/// Decides on a batch by the outcomes of its items. Where more than five
/// in a hundred failed, the batch is refused with an error that names the
/// store, the day and the counts. Otherwise the snapshots are handed on and
/// the failures dropped.
pub fn collect_batch(outcomes: Vec<Result<ProductSnapshot, Error>>, store: Store, date: Date) -> (r:
    Result<Vec<ProductSnapshot>, Error>)
    ensures
        is_batch_result(outcomes@, store, date, r),
{
    let ghost all = outcomes@;
    let total = outcomes.len();
    let mut success: Vec<ProductSnapshot> = Vec::new();
    for outcome in iter: outcomes
        invariant
            iter.seq() == all,
            success@ == successes(all.take(iter.index() as int)),
    {
        proof {
            let i = iter.index() as int;
            assert(all.take(i + 1).drop_last() =~= all.take(i));
            assert(all.take(i + 1).last() == all[i]);
        }
        match outcome {
            Ok(snapshot) => {
                success.push(snapshot);
            },
            Err(_) => {},
        }
    }
    proof {
        assert(all.take(all.len() as int) =~= all);
        lemma_successes_len(all);
    }
    let metrics = ConversionMetrics { success: success.len(), failure: total - success.len() };
    assert(metrics == metrics_of(all));
    if metrics.exceeds_threshold() {
        let reason = "Error threshold of 0.05 for conversion of ".to_owned().concat(
            store.name(),
        ).concat("/").concat(date.text().as_str()).concat(" exceeded: ").concat(
            metrics.describe().as_str(),
        );
        return Err(Error::ProductConversion(reason));
    }
    Ok(success)
}

/// Whether the outcomes are, item by item, what the items' conversion to a
/// snapshot of the day may give.
pub open spec fn outcomes_of<T: Product>(
    items: Seq<T>,
    date: Date,
    outcomes: Seq<Result<ProductSnapshot, Error>>,
) -> bool {
    &&& outcomes.len() == items.len()
    &&& forall|i: int|
        0 <= i < items.len() ==> call_ensures(
            T::try_into_snapshot_and_date,
            (#[trigger] items[i], date),
            outcomes[i],
        )
}

/// Whether the outcomes are what the items' conversion may give, and the
/// store is the store of the items.
pub open spec fn is_conversion_of<T: Product>(
    items: Seq<T>,
    date: Date,
    outcomes: Seq<Result<ProductSnapshot, Error>>,
    store: Store,
) -> bool {
    outcomes_of(items, date, outcomes) && call_ensures(T::store, (), store)
}

/// Makes each item into a snapshot of the day and decides on the batch as
/// [`collect_batch`] does, for the store of the items.
pub fn convert<T: Product>(success: Vec<T>, date: Date) -> (r: Result<Vec<ProductSnapshot>, Error>)
    ensures
        exists|outcomes: Seq<Result<ProductSnapshot, Error>>, store: Store|
            #[trigger] is_conversion_of::<T>(success@, date, outcomes, store) && is_batch_result(
                outcomes,
                store,
                date,
                r,
            ),
{
    let ghost items = success@;
    let mut outcomes: Vec<Result<ProductSnapshot, Error>> = Vec::new();
    for item in iter: success
        invariant
            iter.seq() == items,
            outcomes.len() == iter.index(),
            forall|i: int|
                0 <= i < iter.index() ==> call_ensures(
                    T::try_into_snapshot_and_date,
                    (#[trigger] items[i], date),
                    outcomes[i],
                ),
    {
        let outcome = item.try_into_snapshot_and_date(date);
        outcomes.push(outcome);
    }
    let store = T::store();
    let r = collect_batch(outcomes, store, date);
    proof {
        assert(is_conversion_of::<T>(items, date, outcomes@, store));
    }
    r
}

/// The batches laid end to end.
pub open spec fn flattened<T>(batches: Seq<Vec<T>>) -> Seq<T>
    decreases batches.len(),
{
    if batches.len() == 0 {
        Seq::empty()
    } else {
        flattened(batches.drop_last()) + batches.last()@
    }
}

/// Whether each batch is what its category may give as its items.
pub open spec fn batches_of<C: Category<T>, T>(categories: Seq<C>, batches: Seq<Vec<T>>) -> bool {
    &&& batches.len() == categories.len()
    &&& forall|i: int|
        0 <= i < categories.len() ==> call_ensures(
            C::into_products,
            (#[trigger] categories[i],),
            Ok(batches[i]),
        )
}

/// Asks each category for its items, in order. The items of all of them
/// come back as one list; the first category that fails ends the work with
/// its error.
pub fn convert_all<C: Category<T>, T: Product>(categories: Vec<C>) -> (r: Result<Vec<T>, Error>)
    ensures
        match r {
            Ok(products) => exists|batches: Seq<Vec<T>>|
                #[trigger] batches_of(categories@, batches) && products@ == flattened(batches),
            Err(error) => exists|k: int|
                0 <= k < categories.len() && call_ensures(
                    C::into_products,
                    (#[trigger] categories[k],),
                    Err(error),
                ),
        },
{
    let ghost all = categories@;
    let ghost mut batches: Seq<Vec<T>> = Seq::empty();
    let mut products: Vec<T> = Vec::new();
    for category in iter: categories
        invariant
            iter.seq() == all,
            batches_of(all.take(iter.index() as int), batches),
            products@ == flattened(batches),
    {
        let ghost i = iter.index() as int;
        match category.into_products() {
            Ok(mut batch) => {
                proof {
                    let longer = batches.push(batch);
                    assert(longer.drop_last() =~= batches);
                    assert forall|k: int| 0 <= k < i + 1 implies call_ensures(
                        C::into_products,
                        (#[trigger] all.take(i + 1)[k],),
                        Ok(longer[k]),
                    ) by {
                        if k < i {
                            assert(all.take(i)[k] == all.take(i + 1)[k]);
                        }
                    }
                    batches = longer;
                }
                products.append(&mut batch);
            },
            Err(error) => {
                assert(call_ensures(C::into_products, (all[i],), Err::<Vec<T>, Error>(error)));
                return Err(error);
            },
        }
    }
    proof {
        assert(all.take(all.len() as int) =~= all);
    }
    Ok(products)
}

/// Whether the flags say, category by category, what the categories may
/// answer when asked whether they are left out.
pub open spec fn flags_of<C: Category<T>, T>(categories: Seq<C>, flags: Seq<bool>) -> bool {
    &&& flags.len() == categories.len()
    &&& forall|i: int|
        0 <= i < categories.len() ==> call_ensures(
            C::is_filtered,
            (&#[trigger] categories[i],),
            flags[i],
        )
}

/// The categories whose flag is not set, in their order.
pub open spec fn kept_by<C>(categories: Seq<C>, flags: Seq<bool>) -> Seq<C>
    decreases categories.len(),
{
    if categories.len() == 0 || flags.len() != categories.len() {
        Seq::empty()
    } else if flags.last() {
        kept_by(categories.drop_last(), flags.drop_last())
    } else {
        kept_by(categories.drop_last(), flags.drop_last()).push(categories.last())
    }
}

/// The categories that the conversion does not leave out, in their order.
pub fn unfiltered<C: Category<T>, T>(categories: Vec<C>) -> (r: Vec<C>)
    ensures
        exists|flags: Seq<bool>| #[trigger]
            flags_of(categories@, flags) && r@ == kept_by(categories@, flags),
{
    let ghost all = categories@;
    let ghost mut flags: Seq<bool> = Seq::empty();
    let mut kept: Vec<C> = Vec::new();
    for category in iter: categories
        invariant
            iter.seq() == all,
            flags_of(all.take(iter.index() as int), flags),
            kept@ == kept_by(all.take(iter.index() as int), flags),
    {
        let ghost i = iter.index() as int;
        let filtered = category.is_filtered();
        proof {
            let longer = flags.push(filtered);
            assert(all.take(i + 1).drop_last() =~= all.take(i));
            assert(longer.drop_last() =~= flags);
            assert forall|k: int| 0 <= k < i + 1 implies call_ensures(
                C::is_filtered,
                (&#[trigger] all.take(i + 1)[k],),
                longer[k],
            ) by {
                if k < i {
                    assert(all.take(i)[k] == all.take(i + 1)[k]);
                }
            }
            flags = longer;
        }
        if !filtered {
            kept.push(category);
        }
    }
    proof {
        assert(all.take(all.len() as int) =~= all);
    }
    kept
}

/// Whether `items` are what the categories give when those that are left
/// out are passed over and the others are asked for their items, in order.
pub open spec fn is_catalogue_of<C: Category<T>, T>(categories: Seq<C>, items: Seq<T>) -> bool {
    exists|flags: Seq<bool>, batches: Seq<Vec<T>>|
        #![trigger flags_of(categories, flags), batches_of(kept_by(categories, flags), batches)]
        flags_of(categories, flags) && batches_of(kept_by(categories, flags), batches) && items
            == flattened(batches)
}

/// Whether one of the categories that are not left out may fail with this
/// error when asked for its items.
pub open spec fn category_failed<C: Category<T>, T>(categories: Seq<C>, error: Error) -> bool {
    exists|flags: Seq<bool>, k: int|
        #![trigger flags_of(categories, flags), kept_by(categories, flags)[k]]
        flags_of(categories, flags) && 0 <= k < kept_by(categories, flags).len() && call_ensures(
            C::into_products,
            (kept_by(categories, flags)[k],),
            Err::<Vec<T>, Error>(error),
        )
}

/// Whether `r` is what the conversion of the categories' items comes to.
pub open spec fn is_conversion_result<C: Category<T>, T: Product>(
    categories: Seq<C>,
    date: Date,
    r: Result<Vec<ProductSnapshot>, Error>,
) -> bool {
    exists|items: Seq<T>, outcomes: Seq<Result<ProductSnapshot, Error>>, store: Store|
        #![trigger is_catalogue_of(categories, items), is_conversion_of::<T>(items, date, outcomes, store)]
        is_catalogue_of(categories, items) && is_conversion_of::<T>(items, date, outcomes, store)
            && is_batch_result(outcomes, store, date, r)
}

/// Converts a store's catalogue of a day: the categories that are not left
/// out give their items, and the items become snapshots as [`convert`]
/// says. A category that fails ends the conversion with its error.
pub fn from_categories<C: Category<T>, T: Product>(categories: Vec<C>, date: Date) -> (r: Result<
    Vec<ProductSnapshot>,
    Error,
>)
    ensures
        match r {
            Ok(_) => is_conversion_result::<C, T>(categories@, date, r),
            Err(error) => category_failed(categories@, error) || is_conversion_result::<C, T>(
                categories@,
                date,
                r,
            ),
        },
{
    let ghost given = categories@;
    let categories = unfiltered(categories);
    let ghost kept = categories@;
    let ghost flags = choose|flags: Seq<bool>| #[trigger]
        flags_of(given, flags) && kept == kept_by(given, flags);
    let products = match convert_all::<C, T>(categories) {
        Ok(products) => products,
        Err(error) => {
            proof {
                let k = choose|k: int|
                    0 <= k < kept.len() && call_ensures(
                        C::into_products,
                        (#[trigger] kept[k],),
                        Err::<Vec<T>, Error>(error),
                    );
                assert(flags_of(given, flags) && 0 <= k < kept_by(given, flags).len());
                assert(call_ensures(
                    C::into_products,
                    (kept_by(given, flags)[k],),
                    Err::<Vec<T>, Error>(error),
                ));
            }
            return Err(error);
        },
    };
    let ghost items = products@;
    proof {
        let batches = choose|batches: Seq<Vec<T>>| #[trigger]
            batches_of(kept, batches) && items == flattened(batches);
        assert(flags_of(given, flags) && batches_of(kept_by(given, flags), batches));
        assert(is_catalogue_of(given, items));
    }
    let r = convert(products, date);
    proof {
        let (outcomes, store) = choose|
            outcomes: Seq<Result<ProductSnapshot, Error>>,
            store: Store,
        | #[trigger]
            is_conversion_of::<T>(items, date, outcomes, store) && is_batch_result(
                outcomes,
                store,
                date,
                r,
            );
        assert(is_catalogue_of(given, items) && is_conversion_of::<T>(items, date, outcomes, store));
    }
    r
}

/// An item that was read from a store's data, or the reason why it could
/// not be read.
pub enum Decoded<P> {
    Item(P),
    Failed(Error),
}

impl<P: Product> Product for Decoded<P> {
    /// An item that could not be read fails with the reason; one that could
    /// becomes what the item itself becomes.
    fn try_into_snapshot_and_date(self, date: Date) -> (r: Result<ProductSnapshot, Error>)
        ensures
            match self {
                Decoded::Item(item) => call_ensures(P::try_into_snapshot_and_date, (item, date), r),
                Decoded::Failed(error) => r == Err::<ProductSnapshot, Error>(error),
            },
    {
        match self {
            Decoded::Item(item) => item.try_into_snapshot_and_date(date),
            Decoded::Failed(error) => Err(error),
        }
    }

    /// The store of an item that was read, or could not be, is the store
    /// whose items these are.
    fn store() -> (r: Store)
        ensures
            call_ensures(P::store, (), r),
    {
        P::store()
    }
}

} // verus!

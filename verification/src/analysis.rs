//! Which days a run works on, and what a day does to the histories.
use vstd::prelude::*;
use vstd::seq_lib::{to_multiset_build, to_multiset_insert};
use crate::date::Date;
use crate::errors::Error;
use crate::merge::{is_merge_of, merge_price_history};
use crate::product::{ProductHistory, ProductSnapshot};
use crate::stores::Store;
use crate::text::chars_of;

verus! {

/// What a run works on: one day, or every day of which a capture is kept.
#[derive(Debug, Clone, Copy)]
pub enum AnalysisType {
    Day(Date),
    History,
}

/// Where the first full stop of a name stands; the length of a name without one.
pub open spec fn stem_length(name: Seq<char>) -> int
    decreases name.len(),
{
    if name.len() == 0 {
        0
    } else if name[0] == '.' {
        0
    } else {
        1 + stem_length(name.drop_first())
    }
}

/// The name of a file up to its first full stop.
pub open spec fn stem(name: Seq<char>) -> Seq<char> {
    name.take(stem_length(name))
}

proof fn lemma_stem_length(name: Seq<char>, n: int)
    requires
        0 <= n <= name.len(),
        forall|k: int| 0 <= k < n ==> name[k] != '.',
        n == name.len() || name[n] == '.',
    ensures
        stem_length(name) == n,
    decreases n,
{
    if n > 0 {
        let rest = name.drop_first();
        assert forall|k: int| 0 <= k < n - 1 implies rest[k] != '.' by {
            assert(rest[k] == name[k + 1]);
        }
        lemma_stem_length(rest, n - 1);
    }
}

/// The name of a file up to its first full stop.
pub fn stem_of(name: &str) -> (r: String)
    ensures
        r@ == stem(name@),
{
    let chars = chars_of(name);
    let mut n: usize = 0;
    while n < chars.len() && chars[n] != '.'
        invariant
            n <= chars.len(),
            forall|k: int| 0 <= k < n ==> chars[k] != '.',
        decreases chars.len() - n,
    {
        n += 1;
    }
    proof {
        lemma_stem_length(name@, n as int);
    }
    name.substring_char(0, n).to_owned()
}

/// The day that a capture is of, by the name of its file.
pub open spec fn day_of_file(name: Seq<char>) -> Option<int> {
    Date::spec_parse(stem(name))
}

/// The days of the files, in the order of the files.
pub open spec fn file_days(names: Seq<String>) -> Seq<int> {
    names.map_values(|name: String| day_of_file(name@).unwrap())
}

/// The Julian day numbers of the days.
pub open spec fn day_numbers(days: Seq<Date>) -> Seq<int> {
    days.map_values(|day: Date| day.day_number())
}

/// No day is followed by an earlier one.
pub open spec fn in_calendar_order(days: Seq<Date>) -> bool {
    forall|i: int, j: int|
        0 <= i < j < days.len() ==> (#[trigger] days[i]).day_number() <= (
        #[trigger] days[j]).day_number()
}

/// Puts a day into a list in calendar order, behind the days that are
/// not later.
fn insert_day(days: &mut Vec<Date>, day: Date)
    requires
        in_calendar_order(old(days)@),
    ensures
        in_calendar_order(final(days)@),
        day_numbers(final(days)@).to_multiset() == day_numbers(old(days)@).to_multiset().insert(
            day.day_number(),
        ),
{
    let mut at: usize = days.len();
    while at > 0 && days[at - 1].is_after(&day)
        invariant
            at <= days.len(),
            days@ == old(days)@,
            forall|k: int| at <= k < days.len() ==> (#[trigger] days[k]).day_number() > day.day_number(),
        decreases at,
    {
        at -= 1;
    }
    let ghost before = days@;
    days.insert(at, day);
    proof {
        assert(day_numbers(before.insert(at as int, day)) =~= day_numbers(before).insert(
            at as int,
            day.day_number(),
        ));
        to_multiset_insert(day_numbers(before), at as int, day.day_number());
        assert forall|i: int, j: int| 0 <= i < j < days.len() implies (#[trigger] days[i]).day_number()
            <= (#[trigger] days[j]).day_number() by {
            if i < at && j > at {
                assert(before[i].day_number() <= before[j - 1].day_number());
            } else if i < at && j < at {
                assert(before[i].day_number() <= before[j].day_number());
            } else if i > at {
                assert(before[i - 1].day_number() <= before[j - 1].day_number());
            }
        }
    }
}

/// The days of which captures are kept, by the names of their files, in
/// calendar order; a day is there as often as it has files. A file whose
/// name, up to its first full stop, is no day fails the whole.
pub fn history_days(file_names: &Vec<String>) -> (r: Result<Vec<Date>, Error>)
    ensures
        match r {
            Ok(days) => {
                &&& forall|i: int|
                    0 <= i < file_names.len() ==> day_of_file((#[trigger] file_names[i])@) is Some
                &&& in_calendar_order(days@)
                &&& day_numbers(days@).to_multiset() == file_days(file_names@).to_multiset()
            },
            Err(error) => error is Anyhow && exists|i: int|
                0 <= i < file_names.len() && day_of_file((#[trigger] file_names[i])@) is None,
        },
{
    let mut entries: Vec<Date> = Vec::new();
    let mut i: usize = 0;
    assert(day_numbers(entries@) =~= file_days(file_names@.take(0)));
    while i < file_names.len()
        invariant
            i <= file_names.len(),
            forall|k: int| 0 <= k < i ==> day_of_file((#[trigger] file_names[k])@) is Some,
            in_calendar_order(entries@),
            day_numbers(entries@).to_multiset() == file_days(
                file_names@.take(i as int),
            ).to_multiset(),
        decreases file_names.len() - i,
    {
        let basename = stem_of(file_names[i].as_str());
        let date = match Date::parse(basename.as_str()) {
            Some(date) => date,
            None => {
                return Err(
                    Error::Anyhow(
                        "Cannot convert ".to_owned().concat(basename.as_str()).concat(" to date"),
                    ),
                );
            },
        };
        proof {
            let earlier = file_days(file_names@.take(i as int));
            assert(file_days(file_names@.take(i + 1)) =~= earlier.push(date.day_number()));
            to_multiset_build(earlier, date.day_number());
        }
        insert_day(&mut entries, date);
        i += 1;
    }
    assert(file_names@.take(file_names.len() as int) =~= file_names@);
    Ok(entries)
}

impl AnalysisType {
    /// The days to work on: the one day, or the days of the files that
    /// hold the captures.
    pub fn days(self, file_names: &Vec<String>) -> (r: Result<Vec<Date>, Error>)
        ensures
            match r {
                Ok(days) => are_days_of(self, file_names@, days@),
                Err(error) => self is History && error is Anyhow && exists|i: int|
                    0 <= i < file_names.len() && day_of_file((#[trigger] file_names[i])@) is None,
            },
    {
        match self {
            AnalysisType::History => history_days(file_names),
            AnalysisType::Day(day) => {
                let mut days: Vec<Date> = Vec::new();
                days.push(day);
                assert(days@ =~= seq![day]);
                Ok(days)
            },
        }
    }

    /// The histories that a run starts from: those that were loaded. Where
    /// none could be loaded, a run over the whole history starts from
    /// nothing; a run for one day fails.
    pub fn starting_products<E>(&self, loaded: Result<Vec<ProductHistory>, E>) -> (r: Result<
        Vec<ProductHistory>,
        E,
    >)
        ensures
            match (loaded, *self) {
                (Ok(products), _) => r == Ok::<Vec<ProductHistory>, E>(products),
                (Err(_), AnalysisType::History) => r matches Ok(products) && products@
                    == Seq::<ProductHistory>::empty(),
                (Err(error), AnalysisType::Day(_)) => r == Err::<Vec<ProductHistory>, E>(error),
            },
    {
        match loaded {
            Ok(products) => Ok(products),
            Err(error) => match self {
                AnalysisType::History => Ok(Vec::new()),
                AnalysisType::Day(_) => Err(error),
            },
        }
    }
}

/// Whether `states` are the histories as a run has them before the first
/// day, after each day, and at its end: each day's snapshots are what
/// `load_daily_snapshot` may give for the day, and each state comes from the
/// one before as the merge of the day's snapshots says.
pub open spec fn is_run_over<D: Fn(Date) -> Result<Vec<ProductSnapshot>, Error>>(
    states: Seq<Seq<ProductHistory>>,
    days: Seq<Date>,
    load_daily_snapshot: D,
    store: Option<Store>,
) -> bool {
    &&& states.len() == days.len() + 1
    &&& forall|k: int|
        0 <= k < days.len() ==> exists|snapshots: Vec<ProductSnapshot>|
            call_ensures(load_daily_snapshot, (#[trigger] days[k],), Ok(snapshots)) && is_merge_of(
                states[k + 1],
                states[k],
                snapshots@,
                store,
            )
}

/// Whether `days` are the days that a run works on, in their order.
pub open spec fn are_days_of(analysis_type: AnalysisType, file_names: Seq<String>, days: Seq<Date>) -> bool {
    match analysis_type {
        AnalysisType::Day(day) => days == seq![day],
        AnalysisType::History => {
            &&& forall|i: int|
                0 <= i < file_names.len() ==> day_of_file((#[trigger] file_names[i])@) is Some
            &&& in_calendar_order(days)
            &&& day_numbers(days).to_multiset() == file_days(file_names).to_multiset()
        },
    }
}

/// The histories that a run starts from; `None` where it cannot start.
pub open spec fn start_of(
    analysis_type: AnalysisType,
    previous_products: Result<Vec<ProductHistory>, Error>,
) -> Option<Seq<ProductHistory>> {
    match (previous_products, analysis_type) {
        (Ok(products), _) => Some(products@),
        (Err(_), AnalysisType::History) => Some(Seq::empty()),
        (Err(_), AnalysisType::Day(_)) => None,
    }
}

/// Works the days of a run into the histories, one day after the other in
/// calendar order, and gives the histories to write. `previous_products`
/// is what loading the histories gave, `file_names` are the names of the
/// capture files of the stores that the run covers, and
/// `load_daily_snapshot` gives the snapshots of a day. The first failure
/// ends the run: nothing is to be written then.
pub fn do_analysis<D: Fn(Date) -> Result<Vec<ProductSnapshot>, Error>>(
    analysis_type: AnalysisType,
    store: Option<Store>,
    previous_products: Result<Vec<ProductHistory>, Error>,
    file_names: &Vec<String>,
    load_daily_snapshot: D,
) -> (r: Result<Vec<ProductHistory>, Error>)
    requires
        forall|day: Date| call_requires(load_daily_snapshot, (day,)),
    ensures
        match r {
            Ok(products) => exists|days: Seq<Date>, states: Seq<Seq<ProductHistory>>|
                {
                    &&& #[trigger] is_run_over(states, days, load_daily_snapshot, store)
                    &&& are_days_of(analysis_type, file_names@, days)
                    &&& Some(states[0]) == start_of(analysis_type, previous_products)
                    &&& states.last() == products@
                },
            Err(error) => {
                ||| previous_products == Err::<Vec<ProductHistory>, Error>(error) && start_of(
                    analysis_type,
                    previous_products,
                ) is None
                ||| analysis_type is History && exists|i: int|
                    0 <= i < file_names.len() && day_of_file((#[trigger] file_names[i])@) is None
                ||| exists|day: Date| #[trigger]
                    call_ensures(
                        load_daily_snapshot,
                        (day,),
                        Err::<Vec<ProductSnapshot>, Error>(error),
                    )
            },
        },
{
    let mut products = match analysis_type.starting_products(previous_products) {
        Ok(products) => products,
        Err(error) => {
            return Err(error);
        },
    };
    let days = match analysis_type.days(file_names) {
        Ok(days) => days,
        Err(error) => {
            return Err(error);
        },
    };
    let ghost mut states: Seq<Seq<ProductHistory>> = seq![products@];
    let mut i: usize = 0;
    while i < days.len()
        invariant
            i <= days.len(),
            forall|day: Date| call_requires(load_daily_snapshot, (day,)),
            is_run_over(states, days@.take(i as int), load_daily_snapshot, store),
            Some(states[0]) == start_of(analysis_type, previous_products),
            states.last() == products@,
        decreases days.len() - i,
    {
        let new_products = match load_daily_snapshot(days[i]) {
            Ok(new_products) => new_products,
            Err(error) => {
                return Err(error);
            },
        };
        let ghost before = states;
        let ghost loaded = new_products;
        products = merge_price_history(products, new_products, store);
        proof {
            states = before.push(products@);
            let longer = days@.take(i + 1);
            assert forall|k: int| 0 <= k < longer.len() implies exists|
                snapshots: Vec<ProductSnapshot>,
            |
                call_ensures(load_daily_snapshot, (#[trigger] longer[k],), Ok(snapshots))
                    && is_merge_of(states[k + 1], states[k], snapshots@, store) by {
                if k < i {
                    assert(days@.take(i as int)[k] == longer[k]);
                    assert(before[k + 1] == states[k + 1]);
                    assert(before[k] == states[k]);
                } else {
                    assert(call_ensures(load_daily_snapshot, (longer[k],), Ok(loaded)));
                    assert(is_merge_of(states[k + 1], states[k], loaded@, store));
                }
            }
        }
        i += 1;
    }
    proof {
        assert(days@.take(days.len() as int) =~= days@);
    }
    Ok(products)
}

} // verus!

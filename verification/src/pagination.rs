//! Walking the pages of a category, one item at a time.
//!
//! The walk itself asks for nothing: [`PaginatedCategoryIterator::advance`]
//! says what is next, an item, the end, or the number of the page to fetch,
//! and the caller hands the page in with `accept_page`, or reports with `fail`
//! that it could not be had.
use vstd::prelude::*;
use std::collections::VecDeque;

verus! {

/// Where a walk stands, apart from the items it still holds.
pub struct Progress {
    /// The number of the next page to ask for.
    pub page: int,
    /// How many items the pages so far have brought.
    pub received: nat,
    /// Whether no further page will be asked for.
    pub finished: bool,
    /// Whether the walk ends with its first page.
    pub quick: bool,
}

/// The highest page number, and the number of items beyond which they
/// are no longer counted.
pub open spec fn last_page() -> int {
    i32::MAX as int
}

pub open spec fn most_items() -> nat {
    u64::MAX as nat
}

/// Where a walk stands after a page with `count` items that reports
/// `total` items for the category. A finished walk takes no page. Otherwise
/// the walk is finished if the items received have reached the reported
/// total, if the page brought nothing, if the walk is a quick one, or if
/// the page numbers are used up.
pub open spec fn after_page(before: Progress, count: nat, total: int) -> Progress {
    if before.finished {
        before
    } else {
        let received = if before.received + count > most_items() {
            most_items()
        } else {
            before.received + count
        };
        Progress {
            page: if before.page < last_page() {
                before.page + 1
            } else {
                before.page
            },
            received,
            finished: received >= total || count == 0 || before.quick || before.page
                >= last_page(),
            quick: before.quick,
        }
    }
}

/// Where a walk that starts at `start` stands after the pages given, each as
/// the number of its items and the total it reports.
pub open spec fn after_pages(start: Progress, pages: Seq<(nat, int)>) -> Progress
    decreases pages.len(),
{
    if pages.len() == 0 {
        start
    } else {
        after_page(after_pages(start, pages.drop_last()), pages.last().0, pages.last().1)
    }
}

/// The start of a walk.
pub open spec fn at_start(quick: bool) -> Progress {
    Progress { page: 1, received: 0, finished: false, quick }
}

/// A walk that is not finished has taken every page given, each page
/// brought an item, and the items are fewer than the last page reported.
/// So a walk ends although the store reports more items than it
/// delivers: it ends with the first empty page, and while every page reports
/// at most `n` items it cannot take `n` pages without ending.
pub proof fn lemma_walk_ends(quick: bool, pages: Seq<(nat, int)>)
    ensures
        !after_pages(at_start(quick), pages).finished ==> {
            &&& after_pages(at_start(quick), pages).page == 1 + pages.len()
            &&& after_pages(at_start(quick), pages).received >= pages.len()
            &&& pages.len() < last_page()
            &&& forall|i: int| 0 <= i < pages.len() ==> (#[trigger] pages[i]).0 > 0
            &&& pages.len() > 0 ==> after_pages(at_start(quick), pages).received < pages.last().1
            &&& pages.len() > 0 ==> !quick
        },
    decreases pages.len(),
{
    if pages.len() > 0 {
        lemma_walk_ends(quick, pages.drop_last());
        if !after_pages(at_start(quick), pages).finished {
            let before = after_pages(at_start(quick), pages.drop_last());
            assert(!before.finished);
            assert forall|i: int| 0 <= i < pages.len() implies (#[trigger] pages[i]).0 > 0 by {
                if i < pages.len() - 1 {
                    assert(pages.drop_last()[i] == pages[i]);
                }
            }
        }
    }
}

/// What a walk has next.
#[derive(Debug)]
pub enum Step<T> {
    /// The next item.
    Item(T),
    /// Nothing is held: the page with this number is to be fetched.
    Fetch(i32),
    /// The walk is over.
    End,
}

/// A single pass over the items of a category.
#[derive(Debug)]
pub struct PaginatedCategoryIterator<T> {
    page: i32,
    buffer: VecDeque<T>,
    received: u64,
    finished: bool,
    quick: bool,
}

impl<T> PaginatedCategoryIterator<T> {
    pub closed spec fn progress(self) -> Progress {
        Progress {
            page: self.page as int,
            received: self.received as nat,
            finished: self.finished,
            quick: self.quick,
        }
    }

    /// The items held that were not handed out yet, in their order.
    pub closed spec fn buffer(self) -> Seq<T> {
        self.buffer@
    }

    /// A walk at its start. A quick walk ends with its first page.
    pub fn new(quick: bool) -> (r: Self)
        ensures
            r.progress() == at_start(quick),
            r.buffer() == Seq::<T>::empty(),
    {
        Self { page: 1, buffer: VecDeque::new(), received: 0, finished: false, quick }
    }

    /// Hands out the next item held, if there is one. Else says that the
    /// next page is to be fetched or, for a finished walk, that it is over.
    pub fn advance(&mut self) -> (r: Step<T>)
        ensures
            final(self).progress() == old(self).progress(),
            match r {
                Step::Item(item) => old(self).buffer().len() > 0 && item == old(self).buffer()[0]
                    && final(self).buffer() == old(self).buffer().skip(1),
                Step::Fetch(page) => old(self).buffer().len() == 0 && !old(self).progress().finished
                    && page == old(self).progress().page && final(self).buffer() == old(
                    self,
                ).buffer(),
                Step::End => old(self).buffer().len() == 0 && old(self).progress().finished
                    && final(self).buffer() == old(self).buffer(),
            },
    {
        match self.buffer.pop_front() {
            Some(item) => {
                assert(self.buffer@ =~= old(self).buffer@.skip(1));
                Step::Item(item)
            },
            None => {
                assert(self.buffer@ =~= old(self).buffer@);
                if self.finished {
                    Step::End
                } else {
                    Step::Fetch(self.page)
                }
            },
        }
    }

    /// Takes a page: its items join those held, in their order, and the
    /// walk goes on as [`after_page`] says. A finished walk ignores the page.
    pub fn accept_page(&mut self, items: Vec<T>, total_record_count: i64)
        ensures
            final(self).progress() == after_page(
                old(self).progress(),
                items.len() as nat,
                total_record_count as int,
            ),
            final(self).buffer() == if old(self).progress().finished {
                old(self).buffer()
            } else {
                old(self).buffer() + items@
            },
    {
        if self.finished {
            return ;
        }
        let count = items.len();
        let ghost all = items@;
        let ghost held = self.buffer@;
        for item in iter: items
            invariant
                iter.seq() == all,
                self.buffer@ == held + all.take(iter.index() as int),
                self.page == old(self).page,
                self.received == old(self).received,
                self.finished == old(self).finished,
                self.quick == old(self).quick,
        {
            self.buffer.push_back(item);
            assert(self.buffer@ =~= held + all.take(iter.index() + 1));
        }
        assert(all.take(all.len() as int) =~= all);
        let received: u64 = if count as u64 > u64::MAX - self.received {
            u64::MAX
        } else {
            self.received + count as u64
        };
        let reached = total_record_count <= 0 || received >= total_record_count as u64;
        let last = self.page == i32::MAX;
        self.received = received;
        self.finished = reached || count == 0 || self.quick || last;
        if !last {
            self.page = self.page + 1;
        }
    }

    /// Ends the walk after a page could not be had. The items held are
    /// dropped: the category has failed.
    pub fn fail(&mut self)
        ensures
            final(self).progress() == (Progress { finished: true, ..old(self).progress() }),
            final(self).buffer() == Seq::<T>::empty(),
    {
        self.finished = true;
        self.buffer.clear();
    }

    pub fn is_finished(&self) -> (r: bool)
        ensures
            r == self.progress().finished,
    {
        self.finished
    }

    /// How many items the pages have brought.
    pub fn received(&self) -> (r: u64)
        ensures
            r == self.progress().received,
    {
        self.received
    }
}

/// The items of the pages, in the order of the pages.
pub open spec fn all_items<T>(pages: Seq<(Vec<T>, i64)>) -> Seq<T>
    decreases pages.len(),
{
    if pages.len() == 0 {
        Seq::empty()
    } else {
        all_items(pages.drop_last()) + pages.last().0@
    }
}

/// Of each page, how many items it holds and the total it reports.
pub open spec fn page_counts<T>(pages: Seq<(Vec<T>, i64)>) -> Seq<(nat, int)> {
    pages.map_values(|page: (Vec<T>, i64)| (page.0.len() as nat, page.1 as int))
}

/// Whether `pages` are the pages of a whole walk: page by page what
/// `fetch_page` may give for the numbers from one on, with the walk
/// finished after the last of them and not before.
pub open spec fn is_walk_of<T, E, F: Fn(i32) -> Result<(Vec<T>, i64), E>>(
    pages: Seq<(Vec<T>, i64)>,
    fetch_page: F,
    quick: bool,
) -> bool {
    &&& forall|k: int|
        0 <= k < pages.len() ==> call_ensures(
            fetch_page,
            ((k + 1) as i32,),
            Ok::<(Vec<T>, i64), E>(#[trigger] pages[k]),
        )
    &&& after_pages(at_start(quick), page_counts(pages)).finished
    &&& forall|n: int|
        0 <= n < pages.len() ==> !(#[trigger] after_pages(
            at_start(quick),
            page_counts(pages.take(n)),
        )).finished
}

/// Whether `pages` are the pages of a walk that failed: page by page what
/// `fetch_page` may give for the numbers from one on, with the walk not
/// finished after any of them, and `error` what `fetch_page` may fail with
/// for the number of the next page.
pub open spec fn is_failed_walk_of<T, E, F: Fn(i32) -> Result<(Vec<T>, i64), E>>(
    pages: Seq<(Vec<T>, i64)>,
    fetch_page: F,
    quick: bool,
    error: E,
) -> bool {
    &&& pages.len() < last_page()
    &&& forall|k: int|
        0 <= k < pages.len() ==> call_ensures(
            fetch_page,
            ((k + 1) as i32,),
            Ok::<(Vec<T>, i64), E>(#[trigger] pages[k]),
        )
    &&& forall|n: int|
        0 <= n <= pages.len() ==> !(#[trigger] after_pages(
            at_start(quick),
            page_counts(pages.take(n)),
        )).finished
    &&& call_ensures(fetch_page, ((pages.len() + 1) as i32,), Err::<(Vec<T>, i64), E>(error))
}

/// Fetches the items of a category, page by page from the first, until
/// the walk is finished. `fetch_page` gives, for the number of a page, its
/// items and the total that it reports. A page that cannot be had ends the
/// work with its error: no further page is asked for. The work always ends: the numbers of pages are
/// bounded, and an empty page finishes the walk.
pub fn fetch_products<T, E, F: Fn(i32) -> Result<(Vec<T>, i64), E>>(fetch_page: F, quick: bool) -> (r:
    Result<Vec<T>, E>)
    requires
        forall|page: i32| page >= 1 ==> call_requires(fetch_page, (page,)),
    ensures
        match r {
            Ok(products) => exists|pages: Seq<(Vec<T>, i64)>|
                #[trigger] is_walk_of(pages, fetch_page, quick) && products@ == all_items(pages),
            Err(error) => exists|pages: Seq<(Vec<T>, i64)>|
                #[trigger] is_failed_walk_of(pages, fetch_page, quick, error),
        },
{
    let mut walk: PaginatedCategoryIterator<T> = PaginatedCategoryIterator::new(quick);
    let mut products: Vec<T> = Vec::new();
    let ghost mut pages: Seq<(Vec<T>, i64)> = Seq::empty();
    proof {
        assert(page_counts(pages) =~= Seq::<(nat, int)>::empty());
        assert(products@ + walk.buffer() =~= all_items(pages));
    }
    loop
        invariant
            forall|page: i32| page >= 1 ==> call_requires(fetch_page, (page,)),
            walk.progress() == after_pages(at_start(quick), page_counts(pages)),
            products@ + walk.buffer() == all_items(pages),
            forall|k: int|
                0 <= k < pages.len() ==> call_ensures(
                    fetch_page,
                    ((k + 1) as i32,),
                    Ok::<(Vec<T>, i64), E>(#[trigger] pages[k]),
                ),
            forall|n: int|
                0 <= n < pages.len() ==> !(#[trigger] after_pages(
                    at_start(quick),
                    page_counts(pages.take(n)),
                )).finished,
            !walk.progress().finished ==> walk.progress().page == pages.len() + 1,
            1 <= walk.progress().page <= last_page(),
            pages.len() <= last_page(),
        decreases
                if walk.progress().finished {
                    0
                } else {
                    last_page() - walk.progress().page + 1
                },
                walk.buffer().len(),
    {
        let ghost held = walk.buffer();
        let ghost so_far = products@;
        match walk.advance() {
            Step::Item(item) => {
                products.push(item);
                assert(products@ + walk.buffer() =~= so_far + held);
            },
            Step::Fetch(page) => {
                let (items, total) = match fetch_page(page) {
                    Ok(found) => found,
                    Err(error) => {
                        let failed: Result<Vec<T>, E> = Err(error);
                        proof {
                            assert(pages.take(pages.len() as int) =~= pages);
                            assert(failed matches Err(e) && is_failed_walk_of(
                                pages,
                                fetch_page,
                                quick,
                                e,
                            ));
                        }
                        return failed;
                    },
                };
                proof {
                    let longer = pages.push((items, total));
                    assert forall|k: int| 0 <= k < longer.len() implies call_ensures(
                        fetch_page,
                        ((k + 1) as i32,),
                        Ok::<(Vec<T>, i64), E>(#[trigger] longer[k]),
                    ) by {
                        if k < pages.len() {
                            assert(longer[k] == pages[k]);
                        } else {
                            assert((k + 1) as i32 == page);
                        }
                    }
                    assert(longer.drop_last() =~= pages);
                    assert(page_counts(longer).drop_last() =~= page_counts(pages));
                    assert(page_counts(longer).last() == (items.len() as nat, total as int));
                    assert forall|n: int| 0 <= n < longer.len() implies !(#[trigger] after_pages(
                        at_start(quick),
                        page_counts(longer.take(n)),
                    )).finished by {
                        if n < pages.len() {
                            assert(longer.take(n) =~= pages.take(n));
                        } else {
                            assert(longer.take(n) =~= pages);
                        }
                    }
                    pages = longer;
                }
                walk.accept_page(items, total);
                assert(products@ + walk.buffer() =~= all_items(pages));
            },
            Step::End => {
                proof {
                    assert(products@ + walk.buffer() =~= products@);
                    assert(is_walk_of(pages, fetch_page, quick));
                }
                return Ok(products);
            },
        }
    }
}

} // verus!

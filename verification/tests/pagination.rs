use hotprices_au_rs::pagination::{fetch_products, PaginatedCategoryIterator, Step};
use std::cell::RefCell;

/// Fetches a whole category from a store that answers every request with
/// the same page, and counts the requests.
fn pagination_fetch(bundles: Vec<i32>, total: i64) -> (Vec<i32>, Vec<i32>) {
    let asked = RefCell::new(Vec::new());
    let products = fetch_products(
        |page| -> Result<(Vec<i32>, i64), String> {
            asked.borrow_mut().push(page);
            Ok((bundles.clone(), total))
        },
        false,
    )
    .unwrap();
    (products, asked.into_inner())
}

fn pagination_walk(pages: Vec<(Vec<i32>, i64)>, quick: bool) -> (Vec<i32>, Vec<i32>) {
    let mut walk: PaginatedCategoryIterator<i32> = PaginatedCategoryIterator::new(quick);
    let mut pages = pages.into_iter();
    let mut items = Vec::new();
    let mut asked = Vec::new();
    loop {
        match walk.advance() {
            Step::Item(item) => items.push(item),
            Step::Fetch(page) => {
                asked.push(page);
                let (bundles, total) = pages.next().expect("asked for more pages than expected");
                walk.accept_page(bundles, total);
            }
            Step::End => break,
        }
    }
    (items, asked)
}

#[test]
fn test_fetch_products() {
    let (products, asked) = pagination_fetch(vec![1, 2], 2);
    assert_eq!(products.len(), 2);
    assert_eq!(asked, vec![1]);
}

#[test]
fn test_fetch_products_paginated() {
    let (products, asked) = pagination_fetch(vec![1, 2], 4);
    assert_eq!(products.len(), 4);
    assert_eq!(products, vec![1, 2, 1, 2]);
    assert_eq!(asked, vec![1, 2]);
}

// API "lies" and returns fewer products than it claims to
#[test]
fn test_fetch_products_empty() {
    let (products, asked) = pagination_fetch(vec![], 1);
    assert_eq!(products.len(), 0);
    assert_eq!(asked, vec![1]);
}

#[test]
fn a_page_that_cannot_be_had_fails_the_category() {
    let asked = RefCell::new(Vec::new());
    let result = fetch_products(
        |page| -> Result<(Vec<i32>, i64), String> {
            asked.borrow_mut().push(page);
            if page == 3 {
                Err(String::from("no network"))
            } else {
                Ok((vec![page], 10))
            }
        },
        false,
    );
    assert_eq!(result, Err(String::from("no network")));
    assert_eq!(asked.into_inner(), vec![1, 2, 3]);
}

#[test]
fn a_quick_fetch_asks_for_one_page() {
    let asked = RefCell::new(0);
    let products = fetch_products(
        |_| -> Result<(Vec<i32>, i64), String> {
            *asked.borrow_mut() += 1;
            Ok((vec![1, 2], 100))
        },
        true,
    )
    .unwrap();
    assert_eq!(products, vec![1, 2]);
    assert_eq!(asked.into_inner(), 1);
}

#[test]
fn the_walk_gives_what_the_fetch_gives() {
    let (products, asked) = pagination_walk(vec![(vec![1, 2], 4), (vec![1, 2], 4)], false);
    assert_eq!(products, vec![1, 2, 1, 2]);
    assert_eq!(asked, vec![1, 2]);
}

#[test]
fn a_walk_ends_with_the_first_empty_page() {
    let (products, asked) =
        pagination_walk(vec![(vec![1, 2], 100), (vec![3], 100), (vec![], 100)], false);
    assert_eq!(products, vec![1, 2, 3]);
    assert_eq!(asked, vec![1, 2, 3]);
}

#[test]
fn a_quick_walk_ends_with_its_first_page() {
    let (products, asked) = pagination_walk(vec![(vec![1, 2], 100)], true);
    assert_eq!(products, vec![1, 2]);
    assert_eq!(asked, vec![1]);
}

#[test]
fn a_walk_ends_when_more_came_than_reported() {
    let (products, asked) = pagination_walk(vec![(vec![1, 2, 3], 2)], false);
    assert_eq!(products, vec![1, 2, 3]);
    assert_eq!(asked, vec![1]);
    let (products, _) = pagination_walk(vec![(vec![1], -5)], false);
    assert_eq!(products, vec![1]);
}

#[test]
fn a_failed_page_ends_the_walk() {
    let mut walk: PaginatedCategoryIterator<i32> = PaginatedCategoryIterator::new(false);
    assert!(matches!(walk.advance(), Step::Fetch(1)));
    walk.accept_page(vec![1, 2], 10);
    assert_eq!(walk.received(), 2);
    assert!(!walk.is_finished());
    assert!(matches!(walk.advance(), Step::Item(1)));
    assert!(matches!(walk.advance(), Step::Item(2)));
    assert!(matches!(walk.advance(), Step::Fetch(2)));
    // asking again before the page is there asks for the same page
    assert!(matches!(walk.advance(), Step::Fetch(2)));
    walk.fail();
    assert!(walk.is_finished());
    assert!(matches!(walk.advance(), Step::End));
    // a finished walk takes no further page
    walk.accept_page(vec![7], 10);
    assert!(matches!(walk.advance(), Step::End));
    assert_eq!(walk.received(), 2);
}

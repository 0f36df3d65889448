use hotprices_au_rs::cache::{page_key, FsCache};
use hotprices_au_rs::errors::Error;
use std::cell::RefCell;
use std::collections::HashMap;

struct CacheDisk {
    files: RefCell<HashMap<String, String>>,
}

fn cache_disk() -> CacheDisk {
    CacheDisk {
        files: RefCell::new(HashMap::new()),
    }
}

fn cache_get(cache: &FsCache, disk: &CacheDisk, key: &str, fetched: &str) -> Result<String, Error> {
    cache.get_or_fetch(
        String::from(key),
        |path| Ok(disk.files.borrow().get(&path).cloned()),
        || Ok(String::from(fetched)),
        |path, content| {
            disk.files.borrow_mut().insert(path, content);
            Ok(())
        },
    )
}

#[test]
fn it_fetches() {
    let disk = cache_disk();
    let cache = FsCache::new(String::from("tmp"));
    let res = cache_get(&cache, &disk, "test", "1").unwrap();
    assert_eq!(res, "1");
}

#[test]
fn it_forgets_cache() {
    let disk = cache_disk();
    let cache = FsCache::new(String::from("tmp-one"));
    cache_get(&cache, &disk, "test", "1").unwrap();
    let cache = FsCache::new(String::from("tmp-two"));
    let res = cache_get(&cache, &disk, "test", "2").unwrap();
    assert_eq!(res, "2");
}

#[test]
fn it_caches() {
    let disk = cache_disk();
    let cache = FsCache::new(String::from("tmp"));
    cache_get(&cache, &disk, "test", "1").unwrap();
    // Result changed but cache should return first result
    let res = cache_get(&cache, &disk, "test", "2").unwrap();
    assert_eq!(res, "1");
}

#[test]
fn it_caches_by_key() {
    let disk = cache_disk();
    let cache = FsCache::new(String::from("tmp"));
    cache_get(&cache, &disk, "test", "1").unwrap();
    // Different key, different cache
    let res = cache_get(&cache, &disk, "test2", "2").unwrap();
    assert_eq!(res, "2");
}

#[test]
fn a_hit_neither_fetches_nor_stores() {
    let cache = FsCache::new(String::from("tmp"));
    let fetches = RefCell::new(0);
    let stores = RefCell::new(0);
    let res = cache
        .get_or_fetch(
            String::from("test"),
            |path| {
                assert_eq!(path, std::path::Path::new("tmp").join("test").to_string_lossy());
                Ok(Some(String::from("kept")))
            },
            || {
                *fetches.borrow_mut() += 1;
                Ok(String::from("fetched"))
            },
            |_, _| {
                *stores.borrow_mut() += 1;
                Ok(())
            },
        )
        .unwrap();
    assert_eq!(res, "kept");
    assert_eq!(fetches.into_inner(), 0);
    assert_eq!(stores.into_inner(), 0);
}

#[test]
fn a_failure_to_fetch_or_store_is_handed_on() {
    let cache = FsCache::new(String::from("tmp"));
    let stores = RefCell::new(0);
    let res = cache.get_or_fetch(
        String::from("test"),
        |_| Ok(None),
        || Err(Error::Anyhow(String::from("no network"))),
        |_, _| {
            *stores.borrow_mut() += 1;
            Ok(())
        },
    );
    assert!(matches!(res, Err(Error::Anyhow(reason)) if reason == "no network"));
    assert_eq!(stores.into_inner(), 0);
    let res = cache.get_or_fetch(
        String::from("test"),
        |_| Ok(None),
        || Ok(String::from("fetched")),
        |_, _| Err(Error::Anyhow(String::from("disk full"))),
    );
    assert!(matches!(res, Err(Error::Anyhow(reason)) if reason == "disk full"));
    let res = cache.get_or_fetch(
        String::from("test"),
        |_| Err(Error::Anyhow(String::from("unreadable"))),
        || Ok(String::from("fetched")),
        |_, _| Ok(()),
    );
    assert!(matches!(res, Err(Error::Anyhow(reason)) if reason == "unreadable"));
}

#[test]
fn pages_are_kept_by_category_and_number() {
    assert_eq!(page_key("fruit", 1), "categories/fruit/page_1.json");
    assert_eq!(page_key("1-E5BEE36E", 12), "categories/1-E5BEE36E/page_12.json");
    assert_eq!(page_key("x", -3), "categories/x/page_-3.json");
    assert_eq!(
        page_key("x", i32::MIN),
        "categories/x/page_-2147483648.json"
    );
    let cache = FsCache::new(String::from("cache/coles/2024-01-01"));
    assert_eq!(
        cache.entry_path(&page_key("fruit", 2)),
        std::path::Path::new("cache/coles/2024-01-01")
            .join("categories/fruit/page_2.json")
            .to_string_lossy()
    );
}

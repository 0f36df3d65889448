//! Keeping what was fetched, so that a run that failed can go on where it stopped.
//!
//! The cache decides; it touches no file itself. What reads a file, what
//! fetches and what writes are handed to it as functions.
use vstd::prelude::*;
use crate::errors::Error;
use crate::paths::{join, joined_path};
use crate::text::{integer, integer_text};

verus! {

/// A directory of files, one for each thing fetched.
#[derive(Debug)]
pub struct FsCache {
    path: String,
}

/// The name under which a page of a category is kept.
pub open spec fn spec_page_key(category: Seq<char>, page: int) -> Seq<char> {
    "categories/"@ + category + "/page_"@ + integer_text(page) + ".json"@
}

pub fn page_key(category: &str, page: i32) -> (r: String)
    ensures
        r@ == spec_page_key(category@, page as int),
{
    "categories/".to_owned().concat(category).concat("/page_").concat(
        integer(page as i64).as_str(),
    ).concat(".json")
}

/// Whether `result` is what the cache gives for the file at `path`, with
/// `load` to read it, `fetch` to get its content elsewhere and `store` to
/// write it: the content of the file where `load` finds one; else what
/// `fetch` gives, once `store` has written it. The first failure of any of
/// the three is the result.
pub open spec fn is_cached_or_fetched<L, F, S>(
    path: String,
    load: L,
    fetch: F,
    store: S,
    result: Result<String, Error>,
) -> bool where
    L: Fn(String) -> Result<Option<String>, Error>,
    F: Fn() -> Result<String, Error>,
    S: Fn(String, String) -> Result<(), Error>,
 {
    exists|found: Result<Option<String>, Error>| #[trigger]
        call_ensures(load, (path,), found) && match found {
            Ok(Some(content)) => result == Ok::<String, Error>(content),
            Ok(None) => exists|fetched: Result<String, Error>| #[trigger]
                call_ensures(fetch, (), fetched) && match fetched {
                    Ok(content) => exists|stored: Result<(), Error>| #[trigger]
                        call_ensures(store, (path, content), stored) && match stored {
                            Ok(_) => result == Ok::<String, Error>(content),
                            Err(error) => result == Err::<String, Error>(error),
                        },
                    Err(error) => result == Err::<String, Error>(error),
                },
            Err(error) => result == Err::<String, Error>(error),
        }
}

impl FsCache {
    pub closed spec fn directory(self) -> Seq<char> {
        self.path@
    }

    pub fn new(path: String) -> (r: FsCache)
        ensures
            r.directory() == path@,
    {
        FsCache { path }
    }

    /// The path of the file that keeps what was fetched under this name.
    pub fn entry_path(&self, file: &str) -> (r: String)
        ensures
            r@ == joined_path(self.directory(), file@),
    {
        join(self.path.as_str(), file)
    }

    /// Gives the content kept under the name `file`, and fetches it where
    /// nothing is kept. `load` is asked first, with the path of the file;
    /// where it finds the file, neither `fetch` nor `store` is called. Where
    /// it finds none, `fetch` is called, and `store` with the path and what
    /// was fetched.
    pub fn get_or_fetch<L, F, S>(&self, file: String, load: L, fetch: F, store: S) -> (r: Result<
        String,
        Error,
    >) where
        L: Fn(String) -> Result<Option<String>, Error>,
        F: Fn() -> Result<String, Error>,
        S: Fn(String, String) -> Result<(), Error>,

        requires
            forall|path: String| call_requires(load, (path,)),
            call_requires(fetch, ()),
            forall|path: String, content: String| call_requires(store, (path, content)),
        ensures
            exists|path: String|
                path@ == joined_path(self.directory(), file@) && #[trigger] is_cached_or_fetched(
                    path,
                    load,
                    fetch,
                    store,
                    r,
                ),
    {
        let path = self.entry_path(file.as_str());
        let found = load(path.clone());
        let r = match found {
            Ok(Some(content)) => Ok(content),
            Ok(None) => {
                match fetch() {
                    Ok(content) => {
                        match store(path.clone(), content.clone()) {
                            Ok(_) => Ok(content),
                            Err(error) => Err(error),
                        }
                    },
                    Err(error) => Err(error),
                }
            },
            Err(error) => Err(error),
        };
        assert(is_cached_or_fetched(path, load, fetch, store, r));
        r
    }
}

} // verus!

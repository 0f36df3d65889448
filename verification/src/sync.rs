//! Capturing a store's catalogue of a day.
use vstd::prelude::*;
use crate::date::Date;
use crate::paths::{join, joined_path, lemma_below_joined, path_below, strip_prefix};
use crate::storage::{spec_snapshot_file_name, spec_snapshot_path};
use crate::stores::Store;

verus! {

/// The path of a capture as it is printed: without the directory that all
/// output lies in. `None` for a path that does not lie in that directory.
pub fn get_save_path(snapshot_path: &str, base_dir: &str) -> (r: Option<String>)
    ensures
        match r {
            Some(rest) => path_below(snapshot_path@, base_dir@) == Some(rest@),
            None => path_below(snapshot_path@, base_dir@) is None,
        },
{
    strip_prefix(snapshot_path, base_dir)
}

/// The save path of a capture is the store and the file of the day,
/// whatever the directory that the output lies in.
pub proof fn lemma_save_path(output_dir: Seq<char>, store: Store, day: Date)
    ensures
        path_below(spec_snapshot_path(output_dir, store, day), output_dir) == Some(
            joined_path(store.spec_name(), spec_snapshot_file_name(day)),
        ),
{
    reveal_strlit("coles");
    reveal_strlit("woolies");
    let below = joined_path(store.spec_name(), spec_snapshot_file_name(day));
    assert(spec_snapshot_path(output_dir, store, day) =~= joined_path(output_dir, below));
    lemma_below_joined(output_dir, below);
}

/// What a capture run does.
#[derive(Debug, Clone, Copy, PartialEq, Eq, Structural)]
pub enum SyncStep {
    /// Print where the capture would be written, and nothing else.
    PrintSavePath,
    /// The capture of the day is there already: leave it.
    Skip,
    /// Fetch the catalogue, write the capture and remove the cache.
    Fetch,
}

pub open spec fn spec_plan_sync(
    print_save_path: bool,
    skip_existing: bool,
    snapshot_exists: bool,
) -> SyncStep {
    if print_save_path {
        SyncStep::PrintSavePath
    } else if skip_existing && snapshot_exists {
        SyncStep::Skip
    } else {
        SyncStep::Fetch
    }
}

/// Decides what a capture run does. To print the path is asked before
/// anything else; a capture that is there is left only where the caller
/// asked to skip it.
pub fn plan_sync(print_save_path: bool, skip_existing: bool, snapshot_exists: bool) -> (r: SyncStep)
    ensures
        r == spec_plan_sync(print_save_path, skip_existing, snapshot_exists),
{
    if print_save_path {
        SyncStep::PrintSavePath
    } else if skip_existing && snapshot_exists {
        SyncStep::Skip
    } else {
        SyncStep::Fetch
    }
}

/// The directory that keeps what a store's capture of a day has fetched:
/// below the cache directory, under the store and the day.
pub open spec fn spec_cache_dir(cache_path: Seq<char>, store: Store, day: Date) -> Seq<char> {
    joined_path(joined_path(cache_path, store.spec_name()), day.spec_text())
}

pub fn cache_dir(cache_path: &str, store: Store, day: Date) -> (r: String)
    ensures
        r@ == spec_cache_dir(cache_path@, store, day),
{
    join(join(cache_path, store.name()).as_str(), day.text().as_str())
}

} // verus!

//! The cache freshness policy: whether a run may reuse the stored catalog
//! snapshot or must fetch a fresh one.

use vstd::prelude::*;

verus! {

/// The freshness window in seconds: a cached snapshot whose age exceeds
/// this is stale. Fourteen days.
pub const FRESHNESS_WINDOW_SECS: u64 = 1209600;

/// The relative path of the cache file under the user's home directory.
pub fn cache_relative_path() -> (r: String)
    ensures
        r@ == ".cache/lssaid_cache.json"@,
{
    ".cache/lssaid_cache.json".to_owned()
}

/// Decides whether the catalog must be fetched anew. `cache_age_secs` is
/// the age of the cache file, or nothing when no cache file exists. A fetch
/// is required exactly when a refresh is forced, no cache file exists, or
/// the file's age exceeds the freshness window; otherwise the cached text
/// is reused unchanged.
pub fn must_refresh(force: bool, cache_age_secs: Option<u64>) -> (r: bool)
    ensures
        r == (force || match cache_age_secs {
            None => true,
            Some(age) => age > FRESHNESS_WINDOW_SECS,
        }),
{
    if force {
        true
    } else {
        match cache_age_secs {
            None => true,
            Some(age) => age > FRESHNESS_WINDOW_SECS,
        }
    }
}

} // verus!

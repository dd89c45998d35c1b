//! Options of the listing, cache-clearing and search operations.

use vstd::prelude::*;

verus! {

/// How installed packages are listed.
#[derive(Clone, Debug)]
pub struct ListArgs {
    /// Show every recorded field, not just the name.
    pub verbose: bool,
    /// Show only how many packages are installed.
    pub total_count: bool,
    /// Show one package instead of all.
    pub query: Option<String>,
}

/// How the cache is cleared.
#[derive(Clone, Copy, Debug)]
pub struct ClearCacheArgs {
    /// Skip the confirmation question.
    pub force: bool,
}

/// How a package is searched for.
#[derive(Clone, Copy, Debug)]
pub struct SearchArgs {
    /// Also show the manifest body that was found.
    pub log_metadata: bool,
}

} // verus!

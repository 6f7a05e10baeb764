//! What a cache operation can fail with.

use vstd::prelude::*;

verus! {

/// A failure of the cache. It is reported to the caller, who goes on without
/// caching the entry.
#[derive(Debug, PartialEq, Eq)]
pub enum CacheError {
    /// An entry was turned away because its declared size is more than the
    /// cache can ever hold. `msg` describes the entry.
    StoreFailed { msg: String },
}

impl CacheError {
    /// The failure to store an entry that `msg` describes.
    pub fn store_failed(msg: String) -> (error: CacheError)
        ensures
            error == (CacheError::StoreFailed { msg }),
    {
        CacheError::StoreFailed { msg }
    }
}

} // verus!

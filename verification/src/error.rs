//! The ways a request can fail.

use vstd::prelude::*;

verus! {

/// A write that the store refuses.
#[derive(Clone, Copy, Debug, PartialEq, Eq, Structural)]
pub enum StorageFailure {
    /// A post with this identifier is already stored.
    DuplicatePost,
    /// The slug is already issued.
    DuplicateSlug,
    /// There is no post with this identifier to overwrite.
    MissingPost,
}

/// Why a request was not carried out. Whatever the kind, a failed request
/// leaves the stored state as it was.
#[derive(Clone, Copy, Debug, PartialEq, Eq, Structural)]
pub enum BlogError {
    /// The request itself is malformed; nothing was looked up.
    Invalid,
    /// The post or slug that the request names does not exist.
    NotFound,
    /// The store refused a write.
    Storage(StorageFailure),
    /// A slug names a post that is not stored: the stored state is corrupt.
    Inconsistent,
}

} // verus!

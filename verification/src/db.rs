//! Which database is used.

use vstd::prelude::*;

use crate::text::{has_prefix, same_text};

verus! {

/// Whether a URL stands for a local database: a file, or one in memory.
pub open spec fn is_local(url: Seq<char>) -> bool {
    "file:"@.is_prefix_of(url) || "/"@.is_prefix_of(url) || url == ":memory:"@
}

/// Whether a URL stands for a local database. Any other is remote, with a local replica where that
/// can be had.
pub fn is_local_database(url: &str) -> (local: bool)
    ensures
        local == is_local(url@),
{
    has_prefix(url, "file:") || has_prefix(url, "/") || same_text(url, ":memory:")
}

} // verus!

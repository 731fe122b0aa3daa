//! Errors of the mdx heading parser.

use vstd::prelude::*;

verus! {

#[derive(Debug, Clone, PartialEq, Eq)]
pub enum MDXError {
    /// An ATX heading opened with more than six hashes.
    TooManyHashes,
    /// The input stopped matching the grammar at this byte offset.
    Nom { at: usize },
    /// The input ended where the grammar needed more.
    Incomplete,
    /// An unrecoverable parse failure.
    Failure,
}

} // verus!

//! A registered source module: its current content, tagged with where it
//! came from. Re-registering an id overwrites the content; the query cache
//! notices the change by comparing content, so no explicit invalidation
//! call exists.

use vstd::prelude::*;

verus! {

#[derive(Debug, Clone)]
pub struct Source {
    pub source: String,
    pub kind: SourceKind,
}

#[derive(Debug, Clone)]
pub enum SourceKind {
    /// Discovered on disk; keeps the path it was read from.
    File { relative_path: String },
    /// Supplied dynamically by a page event.
    Raw,
}

} // verus!

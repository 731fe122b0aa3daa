//! Core of an incremental site-build pipeline: a source registry and
//! memoizing query cache for per-target compilation, the normalization and
//! application of dynamically declared page events, and the planning logic of
//! the build coordinator. External collaborators (the JS toolchain, the
//! renderer and data-sourcing subprocesses, the IPC listener) are driven by a
//! thin unverified shell; every decision they depend on is made here.

use vstd::prelude::*;

pub mod breadbox;
pub mod cache;
pub mod cli_args;
pub mod headings;
pub mod mdx;
pub mod mdx_ast;
pub mod mdx_error;
pub mod incremental;
pub mod internal_api;
pub mod node;
pub mod swc_import_map_rewrite;
pub mod json;
pub mod paths;
pub mod sources;
pub mod svg;
pub mod table;

verus! {

/// The error taxonomy of a build run.
///
/// `ToolchainError` carries the source id and the toolchain's message;
/// `SubprocessFailure` carries the subcommand name and the observed exit
/// code; `IOFailure` carries the path and the operation that failed.
#[derive(Debug, Clone, PartialEq, Eq)]
pub enum BuildError {
    NotFound { id: String },
    ToolchainError { id: String, message: String },
    SubprocessFailure { name: String, code: i32 },
    SubprocessSpawnFailure { name: String },
    MalformedEvent { message: String },
    IOFailure { path: String, operation: String },
    UnimplementedSpec { what: String },
}

} // verus!

//! The command-line surface, as plain data. The executable wraps this in
//! its argument parser; the library only ever sees the parsed values.

use vstd::prelude::*;

verus! {

/// The one subcommand: incrementally build an input directory.
#[derive(Debug, Clone)]
pub enum Toast {
    Incremental {
        /// Activate debug mode.
        debug: bool,
        /// The project root directory, already made absolute by the caller.
        input_dir: String,
        /// Output directory; the caller substitutes `<input_dir>/public`
        /// when absent.
        output_dir: Option<String>,
    },
}

} // verus!

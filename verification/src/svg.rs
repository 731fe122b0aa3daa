//! The SVG-import inspection pass. The tree walk over the parsed module
//! lives with the toolchain; the decisions it takes per import declaration
//! are here: which specifiers are SVG imports, and where the referenced
//! file would sit relative to the importing module.

use vstd::prelude::*;
use crate::paths::{spec_ends_with, spec_join_path, spec_parent_dir, str_ends_with, join_path,
    parent_dir};

verus! {

pub struct SVGImportToComponent {
    /// Path of the module whose imports are being inspected.
    pub filepath: String,
    pub npm_bin_dir: String,
}

impl SVGImportToComponent {
    /// An import is an SVG import exactly when its specifier ends in `.svg`.
    pub fn is_svg_import(specifier: &str) -> (r: bool)
        ensures
            r == spec_ends_with(specifier@, ".svg"@),
    {
        str_ends_with(specifier, ".svg")
    }

    /// The imported file's path: the importing module's directory joined
    /// with the specifier; nothing when the module path has no directory.
    pub fn svg_path(&self, specifier: &str) -> (r: Option<String>)
        ensures
            match r {
                Some(p) => {
                    &&& spec_parent_dir(self.filepath@) is Some
                    &&& p@ == spec_join_path(spec_parent_dir(self.filepath@).unwrap(), specifier@)
                },
                None => spec_parent_dir(self.filepath@) is None,
            },
    {
        match parent_dir(self.filepath.as_str()) {
            Some(dir) => Some(join_path(dir.as_str(), specifier)),
            None => None,
        }
    }
}

} // verus!

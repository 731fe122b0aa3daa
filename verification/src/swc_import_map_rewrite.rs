//! The import-rewrite decision applied to every import declaration of a
//! browser build: specifiers found in the import map are replaced by
//! their mapped value; bare relative or absolute specifiers get a `.js`
//! suffix; everything else is left alone. The fold over the parsed module
//! lives with the toolchain and calls in here per declaration.

use vstd::prelude::*;
use crate::breadbox::ImportMap;
use crate::table::{tbl_get, tbl_member};

verus! {

pub struct SWCImportMapRewrite {
    pub import_map: ImportMap,
}

/// A specifier that names project source rather than a package: it starts
/// with `/`, `.` or `\`.
pub open spec fn spec_is_source_import(val: Seq<char>) -> bool {
    val.len() > 0 && (val[0] == '/' || val[0] == '.' || val[0] == '\\')
}

pub fn is_source_import(val: &str) -> (r: bool)
    ensures
        r == spec_is_source_import(val@),
{
    let n = val.unicode_len();
    if n == 0 {
        return false;
    }
    let c = val.get_char(0);
    c == '/' || c == '.' || c == '\\'
}

/// What an import specifier is rewritten to.
pub open spec fn spec_rewrite_import(
    imports: Seq<(String, String)>,
    val: Seq<char>,
) -> Seq<char> {
    match tbl_get(imports, val) {
        Some(mapped) => mapped@,
        None => if spec_is_source_import(val) {
            val + ".js"@
        } else {
            val
        },
    }
}

impl SWCImportMapRewrite {
    /// Rewrites one import declaration's specifier.
    pub fn rewrite_import(&self, specifier: &str) -> (r: String)
        ensures
            r@ == spec_rewrite_import(self.import_map.imports@, specifier@),
    {
        match tbl_member(&self.import_map.imports, specifier) {
            Some(mapped) => mapped.clone(),
            None => {
                if is_source_import(specifier) {
                    let mut out = specifier.to_owned();
                    out.append(".js");
                    out
                } else {
                    specifier.to_owned()
                }
            },
        }
    }
}

} // verus!

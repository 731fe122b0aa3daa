//! An mdx file: for now, a stream of ATX headings.

use vstd::prelude::*;
use crate::mdx_ast::{MdxAst, mdx_ast, spec_mdx_stream, ast_matches};
use crate::mdx_error::MDXError;

verus! {

#[derive(Debug, PartialEq, Eq)]
pub struct MdxFile {
    pub contents: Vec<MdxAst>,
}

/// Parses a whole mdx document: the headings in order, or the first
/// error.
pub fn parse(input: &[u8]) -> (r: Result<MdxFile, MDXError>)
    ensures
        match r {
            Ok(file) => spec_mdx_stream(input@, 0) matches Ok(models) && file.contents@.len()
                == models.len() && (forall|k: int|
                0 <= k < file.contents@.len() ==> ast_matches(
                    #[trigger] file.contents@[k],
                    models[k],
                )),
            Err(e) => spec_mdx_stream(input@, 0) == Err::<Seq<(int, Seq<u8>)>, MDXError>(e),
        },
{
    match mdx_ast(input) {
        Ok(contents) => Ok(MdxFile { contents }),
        Err(e) => Err(e),
    }
}

} // verus!

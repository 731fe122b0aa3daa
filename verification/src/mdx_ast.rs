//! The mdx document stream: ATX headings, one after another, until the
//! end of input.

use vstd::prelude::*;
use crate::headings::{ATXHeading, Heading, atx_heading, spec_atx_heading};
use crate::mdx_error::MDXError;

verus! {

#[derive(Debug, PartialEq, Eq)]
pub enum MdxAst {
    Heading(Heading),
}

/// What the whole input from `pos` parses to: the headings in order, each
/// as its level and title, or the first error. The bounds test on `rest`
/// only justifies termination; a successfully parsed heading always
/// advances within the input.
pub open spec fn spec_mdx_stream(s: Seq<u8>, pos: int) -> Result<Seq<(int, Seq<u8>)>, MDXError>
    decreases s.len() - pos,
{
    if pos >= s.len() {
        Ok(Seq::empty())
    } else {
        match spec_atx_heading(s, pos) {
            Ok((level, vs, ve, rest)) => if pos < rest <= s.len() {
                match spec_mdx_stream(s, rest) {
                    Ok(tail) => Ok(seq![(level, s.subrange(vs, ve))] + tail),
                    Err(e) => Err(e),
                }
            } else {
                Err(MDXError::Failure)
            },
            Err(e) => Err(e),
        }
    }
}

/// An ast node carries exactly this parsed heading.
pub open spec fn ast_matches(m: MdxAst, t: (int, Seq<u8>)) -> bool {
    m matches MdxAst::Heading(Heading::ATXHeading(h)) && h.level as int == t.0 && h.value@ == t.1
}

/// Parses the input as a run of ATX headings ending only at the end of
/// input: exactly `spec_mdx_stream` from the start.
pub fn mdx_ast(input: &[u8]) -> (r: Result<Vec<MdxAst>, MDXError>)
    ensures
        match r {
            Ok(list) => spec_mdx_stream(input@, 0) matches Ok(models) && list@.len()
                == models.len() && (forall|k: int|
                0 <= k < list@.len() ==> ast_matches(#[trigger] list@[k], models[k])),
            Err(e) => spec_mdx_stream(input@, 0) == Err::<Seq<(int, Seq<u8>)>, MDXError>(e),
        },
{
    let n = input.len();
    let mut out: Vec<MdxAst> = Vec::new();
    let ghost mut collected: Seq<(int, Seq<u8>)> = Seq::empty();
    let mut pos: usize = 0;
    while pos < n
        invariant
            pos <= n,
            n == input@.len(),
            out@.len() == collected.len(),
            forall|k: int| 0 <= k < out@.len() ==> ast_matches(#[trigger] out@[k], collected[k]),
            spec_mdx_stream(input@, pos as int) matches Ok(tail) ==> spec_mdx_stream(input@, 0)
                == Ok::<Seq<(int, Seq<u8>)>, MDXError>(collected + tail),
            spec_mdx_stream(input@, pos as int) matches Err(e) ==> spec_mdx_stream(input@, 0)
                == Err::<Seq<(int, Seq<u8>)>, MDXError>(e),
        decreases n - pos,
    {
        let ghost pos0 = pos as int;
        match atx_heading(input, pos) {
            Ok((heading, rest)) => {
                let ghost model = (heading.level as int, heading.value@);
                proof {
                    let step = spec_atx_heading(input@, pos0);
                    assert(step matches Ok((level, vs, ve, sprest)) && model == (
                    level,
                    input@.subrange(vs, ve),
                ) && sprest == rest as int);
                    match spec_mdx_stream(input@, rest as int) {
                        Ok(tail2) => {
                            assert(spec_mdx_stream(input@, pos0) == Ok::<
                                Seq<(int, Seq<u8>)>,
                                MDXError,
                            >(seq![model] + tail2));
                            assert(collected + (seq![model] + tail2) =~= collected.push(model)
                                + tail2);
                        },
                        Err(_) => {
                            assert(spec_mdx_stream(input@, pos0) == spec_mdx_stream(
                                input@,
                                rest as int,
                            ));
                        },
                    }
                    collected = collected.push(model);
                }
                out.push(MdxAst::Heading(Heading::ATXHeading(heading)));
                pos = rest;
            },
            Err(e) => {
                proof {
                    assert(spec_mdx_stream(input@, pos0) == Err::<Seq<(int, Seq<u8>)>, MDXError>(
                        e,
                    ));
                }
                return Err(e);
            },
        }
    }
    proof {
        assert(spec_mdx_stream(input@, pos as int) == Ok::<Seq<(int, Seq<u8>)>, MDXError>(
            Seq::empty(),
        ));
        assert(collected + Seq::<(int, Seq<u8>)>::empty() =~= collected);
    }
    Ok(out)
}

} // verus!

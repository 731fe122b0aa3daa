//! ATX headings: a run of `#` (at most six), optional spaces, an
//! alphanumeric title, and a line ending or the end of input. The grammar
//! is stated positionally over the byte sequence; each parser returns
//! where the rest of the input starts.

use vstd::prelude::*;
use vstd::slice::{slice_subrange, slice_to_vec};
use crate::mdx_error::MDXError;

verus! {

#[derive(Debug, PartialEq, Eq)]
pub struct ATXHeading {
    pub level: usize,
    pub value: Vec<u8>,
}

#[derive(Debug, PartialEq, Eq)]
pub struct SEHeading {}

#[derive(Debug, PartialEq, Eq)]
pub enum Heading {
    ATXHeading(ATXHeading),
    SEHeading(SEHeading),
}

/// `#`
pub open spec fn is_hash(b: u8) -> bool {
    b == 0x23
}

/// Space or horizontal tab.
pub open spec fn is_space_byte(b: u8) -> bool {
    b == 0x20 || b == 0x09
}

/// ASCII digit or letter.
pub open spec fn is_alphanumeric_byte(b: u8) -> bool {
    (0x30 <= b && b <= 0x39) || (0x41 <= b && b <= 0x5a) || (0x61 <= b && b <= 0x7a)
}

/// Length of the run of `#` bytes starting at `from`.
pub open spec fn hash_run(s: Seq<u8>, from: int) -> int
    decreases s.len() - from,
{
    if 0 <= from < s.len() && is_hash(s[from]) {
        1 + hash_run(s, from + 1)
    } else {
        0
    }
}

/// Length of the run of spaces and tabs starting at `from`.
pub open spec fn space_run(s: Seq<u8>, from: int) -> int
    decreases s.len() - from,
{
    if 0 <= from < s.len() && is_space_byte(s[from]) {
        1 + space_run(s, from + 1)
    } else {
        0
    }
}

/// Length of the alphanumeric run starting at `from`.
pub open spec fn alnum_run(s: Seq<u8>, from: int) -> int
    decreases s.len() - from,
{
    if 0 <= from < s.len() && is_alphanumeric_byte(s[from]) {
        1 + alnum_run(s, from + 1)
    } else {
        0
    }
}

/// The alphanumeric run stays within the input.
pub proof fn lemma_alnum_run_bounds(s: Seq<u8>, from: int)
    requires
        0 <= from <= s.len(),
    ensures
        0 <= alnum_run(s, from),
        from + alnum_run(s, from) <= s.len(),
    decreases s.len() - from,
{
    if from < s.len() && is_alphanumeric_byte(s[from]) {
        lemma_alnum_run_bounds(s, from + 1);
    }
}

/// Where the rest of the input starts after a line ending at `pos`: the
/// end of input consumes nothing, `\n` one byte, `\r\n` two; anything
/// else does not end a line.
pub open spec fn spec_end_of_line(s: Seq<u8>, pos: int) -> Option<int> {
    if pos == s.len() {
        Some(pos)
    } else if s[pos] == 0x0a {
        Some(pos + 1)
    } else if s[pos] == 0x0d && pos + 1 < s.len() && s[pos + 1] == 0x0a {
        Some(pos + 2)
    } else {
        None
    }
}

/// Consumes a line ending (or the end of input) at `pos`.
pub fn end_of_line(input: &[u8], pos: usize) -> (r: Result<usize, MDXError>)
    requires
        pos <= input@.len(),
    ensures
        match r {
            Ok(rest) => spec_end_of_line(input@, pos as int) == Some(rest as int) && pos <= rest
                <= input@.len(),
            Err(e) => spec_end_of_line(input@, pos as int) is None && e == (MDXError::Nom {
                at: pos,
            }),
        },
{
    let n = input.len();
    if pos == n {
        Ok(pos)
    } else if input[pos] == 0x0a {
        Ok(pos + 1)
    } else if input[pos] == 0x0d && pos + 1 < n && input[pos + 1] == 0x0a {
        Ok(pos + 2)
    } else {
        Err(MDXError::Nom { at: pos })
    }
}

/// Takes the alphanumeric run at `pos` and the line ending after it;
/// returns where the title ends and where the rest starts.
pub fn rest_of_line(input: &[u8], pos: usize) -> (r: Result<(usize, usize), MDXError>)
    requires
        pos <= input@.len(),
    ensures
        ({
            let val_end = pos + alnum_run(input@, pos as int);
            match r {
                Ok((ve, rest)) => {
                    &&& ve == val_end
                    &&& pos <= ve <= rest <= input@.len()
                    &&& spec_end_of_line(input@, val_end) == Some(rest as int)
                },
                Err(e) => spec_end_of_line(input@, val_end) is None && e == (MDXError::Nom {
                    at: val_end as usize,
                }),
            }
        }),
{
    let n = input.len();
    let mut i = pos;
    while i < n && ((0x30 <= input[i] && input[i] <= 0x39) || (0x41 <= input[i] && input[i]
        <= 0x5a) || (0x61 <= input[i] && input[i] <= 0x7a))
        invariant
            pos <= i <= n,
            n == input@.len(),
            alnum_run(input@, pos as int) == (i - pos) + alnum_run(input@, i as int),
        decreases n - i,
    {
        proof {
            assert(alnum_run(input@, i as int) == 1 + alnum_run(input@, i + 1));
        }
        i = i + 1;
    }
    proof {
        assert(alnum_run(input@, i as int) == 0);
    }
    match end_of_line(input, i) {
        Ok(rest) => Ok((i, rest)),
        Err(e) => Err(e),
    }
}

/// What an ATX heading at `pos` parses to: its level, the bounds of its
/// title, and where the rest of the input starts.
pub open spec fn spec_atx_heading(s: Seq<u8>, pos: int) -> Result<(int, int, int, int), MDXError> {
    let h = hash_run(s, pos);
    let sp = space_run(s, pos + h);
    let al = alnum_run(s, pos + h + sp);
    if h == 0 {
        Err(MDXError::Nom { at: pos as usize })
    } else if h > 6 {
        Err(MDXError::TooManyHashes)
    } else {
        match spec_end_of_line(s, pos + h + sp + al) {
            Some(rest) => Ok((h, pos + h + sp, pos + h + sp + al, rest)),
            None => Err(MDXError::Nom { at: (pos + h + sp + al) as usize }),
        }
    }
}

/// A parsed heading: one to six hashes give the level, spaces are
/// skipped, the alphanumeric title becomes the value.
pub fn atx_heading(input: &[u8], pos: usize) -> (r: Result<(ATXHeading, usize), MDXError>)
    requires
        pos <= input@.len(),
    ensures
        match r {
            Ok((heading, rest)) => {
                &&& spec_atx_heading(input@, pos as int) matches Ok((level, vs, ve, sprest)) && ({
                    &&& heading.level == level
                    &&& heading.value@ == input@.subrange(vs, ve)
                    &&& rest == sprest
                    &&& pos < rest <= input@.len()
                })
            },
            Err(e) => spec_atx_heading(input@, pos as int) == Err::<(int, int, int, int), MDXError>(
                e,
            ),
        },
{
    let n = input.len();
    let mut i = pos;
    while i < n && input[i] == 0x23
        invariant
            pos <= i <= n,
            n == input@.len(),
            hash_run(input@, pos as int) == (i - pos) + hash_run(input@, i as int),
        decreases n - i,
    {
        proof {
            assert(hash_run(input@, i as int) == 1 + hash_run(input@, i + 1));
        }
        i = i + 1;
    }
    proof {
        assert(hash_run(input@, i as int) == 0);
    }
    let hashes = i - pos;
    if hashes == 0 {
        return Err(MDXError::Nom { at: pos });
    }
    if hashes > 6 {
        return Err(MDXError::TooManyHashes);
    }
    let mut j = i;
    while j < n && (input[j] == 0x20 || input[j] == 0x09)
        invariant
            i <= j <= n,
            n == input@.len(),
            space_run(input@, i as int) == (j - i) + space_run(input@, j as int),
        decreases n - j,
    {
        proof {
            assert(space_run(input@, j as int) == 1 + space_run(input@, j + 1));
        }
        j = j + 1;
    }
    proof {
        assert(space_run(input@, j as int) == 0);
    }
    match rest_of_line(input, j) {
        Ok((val_end, rest)) => {
            let value = slice_to_vec(slice_subrange(input, j, val_end));
            Ok((ATXHeading { level: hashes, value }, rest))
        },
        Err(e) => Err(e),
    }
}

} // verus!

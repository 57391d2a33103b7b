//! A trivial byte-slice splitter: the helper under every fixed-width
//! decoder's `parse` entry point.

use vstd::prelude::*;
use vstd::slice::slice_subrange;

verus! {

/// What a parse step yields: the parsed item, if the input sufficed, and the
/// rest of the input.
pub type Parsed<'a, T> = (Option<T>, &'a [u8]);

/// Splits `len` bytes off the front of `input`, or yields nothing and the
/// whole input when it is too short.
pub fn parse_slice<'a>(input: &'a [u8], len: usize) -> (r: Parsed<'a, &'a [u8]>)
    ensures
        match r.0 {
            Some(s) => input@.len() >= len && s@ == input@.take(len as int) && r.1@ == input@.skip(
                len as int,
            ),
            None => input@.len() < len && r.1@ == input@,
        },
{
    if input.len() < len {
        (None, input)
    } else {
        let head = slice_subrange(input, 0, len);
        let rest = slice_subrange(input, len, input.len());
        proof {
            assert(head@ =~= input@.take(len as int));
            assert(rest@ =~= input@.skip(len as int));
        }
        (Some(head), rest)
    }
}

} // verus!

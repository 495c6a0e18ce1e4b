//! Whitespace between tokens.

use vstd::prelude::*;
use crate::lang::scanner::{run, run_end, skip, Class, Fail};
use crate::lang::source::SourceRef;

verus! {

/// Where scanning goes on behind the whitespace at `from`, in what is left of `bytes` up to
/// `to`: behind a run of at least one byte of whitespace, or at `from` where nothing is
/// left at all. Without either there is no whitespace to scan.
pub open spec fn whitespace(bytes: Seq<u8>, from: int, to: int) -> Option<int> {
    if from >= to {
        Some(from)
    } else if run_end(bytes, from, to, Class::Space) > from {
        Some(run_end(bytes, from, to, Class::Space))
    } else {
        None
    }
}

/// Scans whitespace, of which the end of the input is a kind.
pub fn scan<'a>(input: SourceRef<'a>) -> (r: Result<(SourceRef<'a>, ()), Fail>)
    requires
        input.scannable(),
    ensures
        match r {
            Ok((rest, _)) => whitespace(input.bytes(), input.offset as int, input.end()) == Some(
                rest.offset as int,
            ) && rest == input.rest(rest.offset as int) && rest.scannable(),
            Err(why) => why == Fail::Error && whitespace(
                input.bytes(),
                input.offset as int,
                input.end(),
            ) is None,
        },
{
    if input.size == 0 {
        return Ok((input, ()));
    }
    let n: usize = run(&input, Class::Space);
    if n == 0 {
        return Err(Fail::Error);
    }
    Ok((skip(&input, n), ()))
}

} // verus!

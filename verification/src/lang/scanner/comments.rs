//! Comments: from `//` to the end of the line, and from `/*` to `*/`.

use vstd::prelude::*;
use vstd::string::StringSliceAdditionalSpecFns;
use vstd::utf8::valid_utf8;
use crate::lang::scanner::{byte_at, end_of, skip, stands, tag_at, Fail};
use crate::lang::source::{lemma_boundary_at_ascii, SourceRef, NEWLINE};

verus! {

/// The index behind the first line end of `bytes` at or after `i` and before `to`, or `to`
/// where there is none.
pub open spec fn line_ends(bytes: Seq<u8>, i: int, to: int) -> int
    decreases to - i,
{
    if 0 <= i < to <= bytes.len() {
        if bytes[i] == NEWLINE {
            i + 1
        } else {
            line_ends(bytes, i + 1, to)
        }
    } else {
        to
    }
}

/// The index behind the first `*/` of `bytes` that begins at or after `i` and ends at or
/// before `to`, if there is one.
pub open spec fn closes(bytes: Seq<u8>, i: int, to: int) -> Option<int>
    decreases to - i,
{
    if 0 <= i && i + 2 <= to <= bytes.len() {
        if bytes[i] == 42 && bytes[i + 1] == 47 {
            Some(i + 2)
        } else {
            closes(bytes, i + 1, to)
        }
    } else {
        None
    }
}

/// Where scanning goes on behind a comment that begins with `//` at `from`: behind the
/// end of the line, or at the end of the input.
pub open spec fn singleline(bytes: Seq<u8>, from: int, to: int) -> Option<int> {
    if stands(bytes, from, to, "//".spec_bytes()) {
        Some(line_ends(bytes, from + 2, to))
    } else {
        None
    }
}

/// Where scanning goes on behind a comment that begins with `/*` at `from`: behind the
/// first `*/` that follows. A comment that is not closed is none.
pub open spec fn multiline(bytes: Seq<u8>, from: int, to: int) -> Option<int> {
    if stands(bytes, from, to, "/*".spec_bytes()) {
        closes(bytes, from + 2, to)
    } else {
        None
    }
}

/// Where scanning goes on behind the comment at `from`, if there is one.
pub open spec fn comment(bytes: Seq<u8>, from: int, to: int) -> Option<int> {
    match singleline(bytes, from, to) {
        Some(next) => Some(next),
        None => multiline(bytes, from, to),
    }
}

/// Whether the result `found` of a scanner that yields nothing says what `wanted` says:
/// the rest of `input` from the index in `wanted` on, or an error where `wanted` holds
/// none.
pub open spec fn skips(
    input: SourceRef<'_>,
    found: Result<(SourceRef<'_>, ()), Fail>,
    wanted: Option<int>,
) -> bool {
    match found {
        Ok((rest, _)) => wanted == Some(rest.offset as int) && rest == input.rest(
            rest.offset as int,
        ) && rest.scannable() && input.offset <= rest.offset <= input.end(),
        Err(why) => why == Fail::Error && wanted is None,
    }
}

/// The bytes of the two markers of comments.
pub proof fn lemma_comment_marks()
    ensures
        "//".spec_bytes() =~= seq![47u8, 47u8],
        "/*".spec_bytes() =~= seq![47u8, 42u8],
        "*/".spec_bytes() =~= seq![42u8, 47u8],
{
    reveal_strlit("//");
    reveal_strlit("/*");
    reveal_strlit("*/");
    vstd::utf8::is_ascii_chars_encode_utf8("//"@);
    vstd::utf8::is_ascii_chars_encode_utf8("/*"@);
    vstd::utf8::is_ascii_chars_encode_utf8("*/"@);
}

/// Scans a comment that begins with `//`.
pub fn scan_singleline<'a>(input: SourceRef<'a>) -> (r: Result<(SourceRef<'a>, ()), Fail>)
    requires
        input.scannable(),
    ensures
        skips(input, r, singleline(input.bytes(), input.offset as int, input.end())),
        r matches Ok((rest, _)) ==> rest.offset > input.offset,
{
    if !tag_at(&input, input.offset, "//") {
        return Err(Fail::Error);
    }
    proof {
        lemma_comment_marks();
        vstd::utf8::encode_utf8_valid_utf8(input.source@);
    }
    let end: usize = end_of(&input);
    let mut i: usize = input.offset + 2;
    while i < end
        invariant
            input.offset + 2 <= i <= end,
            end == input.end(),
            input.scannable(),
            valid_utf8(input.bytes()),
            stands(input.bytes(), input.offset as int, input.end(), "//".spec_bytes()),
            line_ends(input.bytes(), i as int, end as int) == line_ends(
                input.bytes(),
                input.offset + 2,
                end as int,
            ),
        decreases end - i,
    {
        if byte_at(&input, i) == NEWLINE {
            proof {
                lemma_boundary_at_ascii(input.bytes(), i as int);
            }
            return Ok((skip(&input, i + 1 - input.offset), ()));
        }
        i += 1;
    }
    Ok((skip(&input, input.size), ()))
}

/// Scans a comment that begins with `/*` and ends with `*/`.
pub fn scan_multiline<'a>(input: SourceRef<'a>) -> (r: Result<(SourceRef<'a>, ()), Fail>)
    requires
        input.scannable(),
    ensures
        skips(input, r, multiline(input.bytes(), input.offset as int, input.end())),
        r matches Ok((rest, _)) ==> rest.offset > input.offset,
{
    if !tag_at(&input, input.offset, "/*") {
        return Err(Fail::Error);
    }
    proof {
        lemma_comment_marks();
        vstd::utf8::encode_utf8_valid_utf8(input.source@);
    }
    let end: usize = end_of(&input);
    let mut i: usize = input.offset + 2;
    while end - i >= 2
        invariant
            input.offset + 2 <= i <= end,
            end == input.end(),
            input.scannable(),
            valid_utf8(input.bytes()),
            stands(input.bytes(), input.offset as int, input.end(), "/*".spec_bytes()),
            closes(input.bytes(), i as int, end as int) == closes(
                input.bytes(),
                input.offset + 2,
                end as int,
            ),
        decreases end - i,
    {
        if byte_at(&input, i) == 42 && byte_at(&input, i + 1) == 47 {
            proof {
                lemma_boundary_at_ascii(input.bytes(), i + 1);
            }
            return Ok((skip(&input, i + 2 - input.offset), ()));
        }
        i += 1;
    }
    Err(Fail::Error)
}

/// Scans a comment of either kind.
pub fn scan<'a>(input: SourceRef<'a>) -> (r: Result<(SourceRef<'a>, ()), Fail>)
    requires
        input.scannable(),
    ensures
        skips(input, r, comment(input.bytes(), input.offset as int, input.end())),
        r matches Ok((rest, _)) ==> rest.offset > input.offset,
{
    match scan_singleline(input) {
        Ok(found) => Ok(found),
        Err(_) => scan_multiline(input),
    }
}

} // verus!

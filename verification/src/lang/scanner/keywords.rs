//! Keywords: the headers of the sections.

use vstd::prelude::*;
use vstd::string::StringSliceAdditionalSpecFns;
use crate::lang::scanner::{sound, gives, or_error, stands, symbol, symbol_at, Fail, Lexeme};
use crate::lang::source::SourceRef;
use crate::lang::tokens::{Token, TokenKind};

verus! {

/// The keyword at `from`, if there is one: `[settings]` or `[rules]`.
#[verifier::opaque]
pub open spec fn keyword(bytes: Seq<u8>, from: int, to: int) -> Option<Lexeme> {
    if stands(bytes, from, to, "[settings]".spec_bytes()) {
        Some(symbol_at(TokenKind::SettingsSection, from, 10))
    } else if stands(bytes, from, to, "[rules]".spec_bytes()) {
        Some(symbol_at(TokenKind::RulesSection, from, 7))
    } else {
        None
    }
}

/// Scans one keyword.
pub fn scan<'a>(input: SourceRef<'a>) -> (r: Result<(SourceRef<'a>, Token<SourceRef<'a>>), Fail>)
    requires
        input.scannable(),
    ensures
        gives(input, r, or_error(keyword(input.bytes(), input.offset as int, input.end()))),
        sound(input, r),
{
    proof {
        reveal_strlit("[settings]");
        reveal_strlit("[rules]");
        reveal(keyword);
    }
    if let Some((rest, piece)) = symbol(&input, "[settings]") {
        return Ok((rest, Token::SettingsSection(Some(piece))));
    }
    if let Some((rest, piece)) = symbol(&input, "[rules]") {
        return Ok((rest, Token::RulesSection(Some(piece))));
    }
    Err(Fail::Error)
}

} // verus!

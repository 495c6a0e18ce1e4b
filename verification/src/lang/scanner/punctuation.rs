//! Punctuation: the tokens that are written with one or two signs.

use vstd::prelude::*;
use vstd::string::StringSliceAdditionalSpecFns;
use crate::lang::scanner::{sound, gives, or_error, stands, symbol, symbol_at, Fail, Lexeme};
use crate::lang::source::SourceRef;
use crate::lang::tokens::{Token, TokenKind};

verus! {

/// The punctuation at `from`, if there is any: the first of `->`, `:`, `[`, `]`, `{`, `}`,
/// `/`, `.` and `,` that stands there.
#[verifier::opaque]
pub open spec fn punctuation(bytes: Seq<u8>, from: int, to: int) -> Option<Lexeme> {
    if stands(bytes, from, to, "->".spec_bytes()) {
        Some(symbol_at(TokenKind::Arrow, from, 2))
    } else if stands(bytes, from, to, ":".spec_bytes()) {
        Some(symbol_at(TokenKind::Colon, from, 1))
    } else if stands(bytes, from, to, "[".spec_bytes()) {
        Some(symbol_at(TokenKind::LSquare, from, 1))
    } else if stands(bytes, from, to, "]".spec_bytes()) {
        Some(symbol_at(TokenKind::RSquare, from, 1))
    } else if stands(bytes, from, to, "{".spec_bytes()) {
        Some(symbol_at(TokenKind::LCurly, from, 1))
    } else if stands(bytes, from, to, "}".spec_bytes()) {
        Some(symbol_at(TokenKind::RCurly, from, 1))
    } else if stands(bytes, from, to, "/".spec_bytes()) {
        Some(symbol_at(TokenKind::Slash, from, 1))
    } else if stands(bytes, from, to, ".".spec_bytes()) {
        Some(symbol_at(TokenKind::Dot, from, 1))
    } else if stands(bytes, from, to, ",".spec_bytes()) {
        Some(symbol_at(TokenKind::Comma, from, 1))
    } else {
        None
    }
}

/// The signs of the punctuation are plain ASCII.
pub proof fn lemma_signs()
    ensures
        "->".is_ascii() && "->"@.len() == 2,
        ":".is_ascii() && ":"@.len() == 1,
        "[".is_ascii() && "["@.len() == 1,
        "]".is_ascii() && "]"@.len() == 1,
        "{".is_ascii() && "{"@.len() == 1,
        "}".is_ascii() && "}"@.len() == 1,
        "/".is_ascii() && "/"@.len() == 1,
        ".".is_ascii() && "."@.len() == 1,
        ",".is_ascii() && ","@.len() == 1,
{
    reveal_strlit("->");
    reveal_strlit(":");
    reveal_strlit("[");
    reveal_strlit("]");
    reveal_strlit("{");
    reveal_strlit("}");
    reveal_strlit("/");
    reveal_strlit(".");
    reveal_strlit(",");
}

/// Scans one token of punctuation.
pub fn scan<'a>(input: SourceRef<'a>) -> (r: Result<(SourceRef<'a>, Token<SourceRef<'a>>), Fail>)
    requires
        input.scannable(),
    ensures
        gives(input, r, or_error(punctuation(input.bytes(), input.offset as int, input.end()))),
        sound(input, r),
{
    proof {
        lemma_signs();
        reveal(punctuation);
    }
    if let Some((rest, piece)) = symbol(&input, "->") {
        return Ok((rest, Token::Arrow(Some(piece))));
    }
    if let Some((rest, piece)) = symbol(&input, ":") {
        return Ok((rest, Token::Colon(Some(piece))));
    }
    if let Some((rest, piece)) = symbol(&input, "[") {
        return Ok((rest, Token::LSquare(Some(piece))));
    }
    if let Some((rest, piece)) = symbol(&input, "]") {
        return Ok((rest, Token::RSquare(Some(piece))));
    }
    if let Some((rest, piece)) = symbol(&input, "{") {
        return Ok((rest, Token::LCurly(Some(piece))));
    }
    if let Some((rest, piece)) = symbol(&input, "}") {
        return Ok((rest, Token::RCurly(Some(piece))));
    }
    if let Some((rest, piece)) = symbol(&input, "/") {
        return Ok((rest, Token::Slash(Some(piece))));
    }
    if let Some((rest, piece)) = symbol(&input, ".") {
        return Ok((rest, Token::Dot(Some(piece))));
    }
    if let Some((rest, piece)) = symbol(&input, ",") {
        return Ok((rest, Token::Comma(Some(piece))));
    }
    Err(Fail::Error)
}

} // verus!

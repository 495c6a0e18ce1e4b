//! The scanner as a whole: token by token, from the front of a source text to its end.

use vstd::prelude::*;
use vstd::string::StringSliceAdditionalSpecFns;
use vstd::utf8::encode_utf8;
use crate::lang::errors::{stop_text, ScanError};
use crate::lang::scanner::comments::comment;
use crate::lang::scanner::keywords::keyword;
use crate::lang::scanner::punctuation::punctuation;
use crate::lang::scanner::values::value;
use crate::lang::scanner::whitespace::whitespace;
use crate::lang::scanner::{gives, sound, Fail, Lexeme};
use crate::lang::source::{SourceRef, SourceText};
use crate::lang::tokens::Token;

verus! {

/// What stands at the front of an input.
pub enum Step {
    /// Whitespace or a comment: scanning goes on at `next`.
    Skip { next: int },
    /// A token.
    Token(Lexeme),
    /// Nothing that the language knows.
    Fail(Fail),
}

/// What stands at `from` in what is left of `bytes` up to `to`: the first that is there of
/// whitespace, a comment, punctuation, a keyword and a value.
pub open spec fn token_at(bytes: Seq<u8>, from: int, to: int) -> Step {
    if let Some(next) = whitespace(bytes, from, to) {
        Step::Skip { next }
    } else if let Some(next) = comment(bytes, from, to) {
        Step::Skip { next }
    } else if let Some(lexeme) = punctuation(bytes, from, to) {
        Step::Token(lexeme)
    } else if let Some(lexeme) = keyword(bytes, from, to) {
        Step::Token(lexeme)
    } else {
        match value(bytes, from, to) {
            Ok(lexeme) => Step::Token(lexeme),
            Err(why) => Step::Fail(why),
        }
    }
}

/// The tokens of what is left of `bytes` from `from` up to `to`, or where and how it stops
/// to be made of tokens.
pub open spec fn tokens_from(bytes: Seq<u8>, from: int, to: int) -> Result<Seq<Lexeme>, (int, Fail)>
    decreases to - from,
{
    if from >= to {
        Ok(Seq::empty())
    } else {
        match token_at(bytes, from, to) {
            Step::Skip { next } => if from < next <= to {
                tokens_from(bytes, next, to)
            } else {
                Err((from, Fail::Error))
            },
            Step::Token(lexeme) => if from < lexeme.next <= to {
                match tokens_from(bytes, lexeme.next, to) {
                    Ok(others) => Ok(seq![lexeme] + others),
                    Err(stop) => Err(stop),
                }
            } else {
                Err((from, Fail::Error))
            },
            Step::Fail(why) => Err((from, why)),
        }
    }
}

/// Scans what stands at the front of `input`: a token, or what is passed over.
pub fn scan_token<'a>(input: SourceRef<'a>) -> (r: Result<
    (SourceRef<'a>, Option<Token<SourceRef<'a>>>),
    Fail,
>)
    requires
        input.scannable(),
    ensures
        match (r, token_at(input.bytes(), input.offset as int, input.end())) {
            (Ok((rest, None)), Step::Skip { next }) => rest == input.rest(next) && rest.offset
                == next && rest.scannable() && (input.size > 0 ==> rest.offset > input.offset),
            (Ok((rest, Some(token))), Step::Token(lexeme)) => gives(
                input,
                Ok((rest, token)),
                Ok(lexeme),
            ) && sound(input, Ok((rest, token))) && rest.offset == lexeme.next,
            (Err(why), Step::Fail(wanted)) => why == wanted,
            _ => false,
        },
{
    if let Ok((rest, _)) = crate::lang::scanner::whitespace::scan(input) {
        return Ok((rest, None));
    }
    if let Ok((rest, _)) = crate::lang::scanner::comments::scan(input) {
        return Ok((rest, None));
    }
    if let Ok((rest, token)) = crate::lang::scanner::punctuation::scan(input) {
        return Ok((rest, Some(token)));
    }
    if let Ok((rest, token)) = crate::lang::scanner::keywords::scan(input) {
        return Ok((rest, Some(token)));
    }
    match crate::lang::scanner::values::scan(input) {
        Ok((rest, token)) => Ok((rest, Some(token))),
        Err(why) => Err(why),
    }
}

/// Whether `token` is the token of `lexeme` in the source text `source` named `name`, with
/// its source as a text by itself.
pub open spec fn token_of(token: Token<SourceText>, lexeme: Lexeme, name: &str, source: &str) -> bool {
    &&& token.kind_of() == lexeme.kind
    &&& match lexeme.value {
        Some(bytes) => token.value_of() is Some && encode_utf8(token.value_of()->0) == bytes,
        None => token.value_of() is None,
    }
    &&& token.origin() matches Some(text) && (SourceRef {
        source,
        offset: lexeme.start as usize,
        size: (lexeme.end - lexeme.start) as usize,
        name,
    }).is_text(text)
}

/// Whether `tokens` are the tokens of `lexemes`, one for one.
pub open spec fn tokens_of(
    tokens: Seq<Token<SourceText>>,
    lexemes: Seq<Lexeme>,
    name: &str,
    source: &str,
) -> bool {
    &&& tokens.len() == lexemes.len()
    &&& forall|i: int| 0 <= i < tokens.len() ==> token_of(#[trigger] tokens[i], lexemes[i], name, source)
}

/// Scans the source text `source`, which the user knows as `file`, into its tokens.
///
/// Whitespace and comments are passed over. Each token knows the lines that it was read
/// from. Where the text stops to be made of tokens, the error names the byte.
pub fn scan(file: &str, source: &str) -> (r: Result<Vec<Token<SourceText>>, ScanError>)
    ensures
        match (r, tokens_from(source.spec_bytes(), 0, source.spec_bytes().len() as int)) {
            (Ok(tokens), Ok(lexemes)) => tokens_of(tokens@, lexemes, file, source),
            (Err(error), Err(stop)) => error matches ScanError::ScanError { err } && err@
                == stop_text(stop.0 as nat, stop.1 == Fail::Failure),
            _ => false,
        },
{
    let whole = SourceRef::new(file, source);
    let mut input = whole;
    let mut tokens: Vec<Token<SourceText>> = Vec::new();
    let ghost bytes = source.spec_bytes();
    let ghost to = bytes.len() as int;
    let ghost mut seen: Seq<Lexeme> = Seq::empty();
    while !input.is_empty()
        invariant
            input.scannable(),
            input.source == source,
            input.name == file,
            input.end() == to,
            bytes == source.spec_bytes(),
            to == bytes.len(),
            tokens_of(tokens@, seen, file, source),
            match (tokens_from(bytes, input.offset as int, to), tokens_from(bytes, 0, to)) {
                (Ok(others), Ok(all)) => all == seen + others,
                (Err(stop), Err(first)) => stop == first,
                _ => false,
            },
        decreases input.size,
    {
        match scan_token(input) {
            Ok((rest, Some(token))) => {
                proof {
                    let lexeme = token_at(bytes, input.offset as int, to)->Token_0;
                    let others = tokens_from(bytes, lexeme.next, to);
                    if let Ok(others) = others {
                        assert(seen + (seq![lexeme] + others) =~= seen.push(lexeme) + others);
                    }
                    seen = seen.push(lexeme);
                }
                let owned = Token::from_ref(token);
                tokens.push(owned);
                input = rest;
            },
            Ok((rest, None)) => {
                input = rest;
            },
            Err(why) => {
                return Err(
                    ScanError::stopped(
                        input.offset,
                        match why {
                            Fail::Failure => true,
                            Fail::Error => false,
                        },
                    ),
                );
            },
        }
    }
    proof {
        assert(seen + Seq::<Lexeme>::empty() =~= seen);
    }
    Ok(tokens)
}

} // verus!

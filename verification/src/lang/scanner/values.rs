//! Values: the tokens that carry what they were written as.

use vstd::prelude::*;
use vstd::std_specs::iter::IteratorSpec;
use vstd::string::StringSliceAdditionalSpecFns;
use vstd::utf8::{decode_utf8, encode_utf8};
use crate::lang::scanner::whitespace::whitespace;
use crate::lang::scanner::{sound, 
    byte_at, end_of, front, gives, is_digit, or_error, run, run_end, skip, stands,
    symbol, symbol_at, text_of, word_at, Class, Fail, Lexeme,
};
use crate::lang::source::{lemma_boundary_at_ascii, SourceRef};
use crate::lang::tokens::{Token, TokenKind};

verus! {

broadcast use vstd::string::group_string_axioms;

/// What is left of a string literal's text `chars` from `i` on once its escapes are
/// resolved, where `escaped` tells whether a backslash stands directly before `i`: behind a
/// backslash `n`, `r` and `t` stand for line feed, carriage return and tab, and every other
/// character for itself.
pub open spec fn unescaped_from(chars: Seq<char>, i: int, escaped: bool) -> Seq<char>
    decreases chars.len() - i,
{
    if 0 <= i < chars.len() {
        let c = chars[i];
        if escaped && c == 'n' {
            seq!['\n'] + unescaped_from(chars, i + 1, false)
        } else if escaped && c == 'r' {
            seq!['\r'] + unescaped_from(chars, i + 1, false)
        } else if escaped && c == 't' {
            seq!['\t'] + unescaped_from(chars, i + 1, false)
        } else if !escaped && c == '\\' {
            unescaped_from(chars, i + 1, true)
        } else {
            seq![c] + unescaped_from(chars, i + 1, false)
        }
    } else {
        Seq::empty()
    }
}

/// The value of a string literal with the text `chars`.
pub open spec fn unescaped(chars: Seq<char>) -> Seq<char> {
    unescaped_from(chars, 0, false)
}

/// Resolves the escapes of the text of a string literal.
pub fn unescape(text: &str) -> (value: String)
    ensures
        value@ == unescaped(text@),
{
    let mut value = String::new();
    let mut escaped: bool = false;
    let mut chars = text.chars();
    let ghost mut i: int = 0;
    loop
        invariant
            0 <= i <= text@.len(),
            chars.remaining() == text@.skip(i),
            value@ + unescaped_from(text@, i, escaped) == unescaped(text@),
        ensures
            value@ == unescaped(text@),
        decreases text@.len() - i,
    {
        match chars.next() {
            None => {
                assert(text@.skip(i).len() == 0);
                assert(value@ + Seq::<char>::empty() =~= value@);
                break;
            },
            Some(c) => {
                assert(c == text@[i]);
                if escaped && c == 'n' {
                    value.push('\n');
                    escaped = false;
                } else if escaped && c == 'r' {
                    value.push('\r');
                    escaped = false;
                } else if escaped && c == 't' {
                    value.push('\t');
                    escaped = false;
                } else if !escaped && c == '\\' {
                    escaped = true;
                } else {
                    value.push(c);
                    escaped = false;
                }
                proof {
                    assert(text@.skip(i).drop_first() == text@.skip(i + 1));
                    i = i + 1;
                }
            },
        }
    }
    value
}

/// The action at `from`: `!` and the name behind it, a run of letters and digits. A `!`
/// without a name is a failure, after which nothing else is tried.
pub open spec fn action(bytes: Seq<u8>, from: int, to: int) -> Result<Lexeme, Fail> {
    if stands(bytes, from, to, "!".spec_bytes()) {
        let end = run_end(bytes, from + 1, to, Class::Alnum);
        if end > from + 1 {
            Ok(
                Lexeme {
                    kind: TokenKind::Action,
                    value: Some(bytes.subrange(from + 1, end)),
                    start: from,
                    end,
                    next: end,
                },
            )
        } else {
            Err(Fail::Failure)
        }
    } else {
        Err(Fail::Error)
    }
}

/// The port at `from`: a run of digits with whitespace or the end of the input behind it.
/// The whitespace is taken with it.
pub open spec fn port(bytes: Seq<u8>, from: int, to: int) -> Option<Lexeme> {
    let end = run_end(bytes, from, to, Class::Digit);
    if end > from {
        match whitespace(bytes, end, to) {
            Some(next) => Some(
                Lexeme {
                    kind: TokenKind::Port,
                    value: Some(bytes.subrange(from, end)),
                    start: from,
                    end,
                    next,
                },
            ),
            None => None,
        }
    } else {
        None
    }
}

/// The protocol at `from`: a run of letters and digits with `://` behind it.
pub open spec fn protocol(bytes: Seq<u8>, from: int, to: int) -> Option<Lexeme> {
    let end = run_end(bytes, from, to, Class::Alnum);
    if end > from && stands(bytes, end, to, "://".spec_bytes()) {
        Some(
            Lexeme {
                kind: TokenKind::Protocol,
                value: Some(bytes.subrange(from, end)),
                start: from,
                end: end + 3,
                next: end + 3,
            },
        )
    } else {
        None
    }
}

/// The identifier at `from`: a run of letters, digits, `_` and `%`.
pub open spec fn identifier(bytes: Seq<u8>, from: int, to: int) -> Option<Lexeme> {
    let end = run_end(bytes, from, to, Class::Word);
    if end > from {
        Some(word_at(bytes, TokenKind::Identifier, from, end))
    } else {
        None
    }
}

/// The asterisk at `from`: `*`, with a digit behind it, which is its name, or a second
/// `*`, or nothing.
pub open spec fn aterisk(bytes: Seq<u8>, from: int, to: int) -> Option<Lexeme> {
    if stands(bytes, from, to, "*".spec_bytes()) {
        if from + 1 < to && (is_digit(bytes[from + 1]) || bytes[from + 1] == 42) {
            Some(
                Lexeme {
                    kind: TokenKind::Aterisk,
                    value: if bytes[from + 1] == 42 {
                        None
                    } else {
                        Some(bytes.subrange(from + 1, from + 2))
                    },
                    start: from,
                    end: from + 2,
                    next: from + 2,
                },
            )
        } else {
            Some(symbol_at(TokenKind::Aterisk, from, 1))
        }
    } else {
        None
    }
}

/// Whether a backslash before the byte `b` makes an escape.
pub open spec fn escapable(b: u8) -> bool {
    b == 92 || b == 39 || b == 34 || b == 110 || b == 116 || b == 114
}

/// The index of the quote that closes the string literal whose text goes on at `i`, if it
/// is closed: the first `"` that no backslash stands before. A backslash takes the byte
/// behind it with it, which has to be one of `\`, `'`, `"`, `n`, `t` and `r`.
pub open spec fn string_close(bytes: Seq<u8>, i: int, to: int) -> Option<int>
    decreases to - i,
{
    if 0 <= i < to <= bytes.len() {
        if bytes[i] == 34 {
            Some(i)
        } else if bytes[i] == 92 {
            if i + 1 < to && escapable(bytes[i + 1]) {
                string_close(bytes, i + 2, to)
            } else {
                None
            }
        } else {
            string_close(bytes, i + 1, to)
        }
    } else {
        None
    }
}

/// The string literal at `from`: `"`, a text that is not empty, and the `"` that closes
/// it. Its value is the text with the escapes resolved.
pub open spec fn string(bytes: Seq<u8>, from: int, to: int) -> Option<Lexeme> {
    if stands(bytes, from, to, "\"".spec_bytes()) {
        match string_close(bytes, from + 1, to) {
            Some(close) => if close > from + 1 {
                Some(
                    Lexeme {
                        kind: TokenKind::String,
                        value: Some(
                            encode_utf8(unescaped(decode_utf8(bytes.subrange(from + 1, close)))),
                        ),
                        start: from,
                        end: close + 1,
                        next: close + 1,
                    },
                )
            } else {
                None
            },
            None => None,
        }
    } else {
        None
    }
}

/// The unsigned integer at `from`: a run of digits.
pub open spec fn uint(bytes: Seq<u8>, from: int, to: int) -> Option<Lexeme> {
    let end = run_end(bytes, from, to, Class::Digit);
    if end > from {
        Some(word_at(bytes, TokenKind::UInt, from, end))
    } else {
        None
    }
}

/// The signed integer at `from`: a run of `-` and a run of digits. Its token is of the
/// kind of the unsigned integers, and carries the signs with the digits.
pub open spec fn sint(bytes: Seq<u8>, from: int, to: int) -> Option<Lexeme> {
    let signs = run_end(bytes, from, to, Class::Minus);
    let end = run_end(bytes, signs, to, Class::Digit);
    if signs > from && end > signs {
        Some(word_at(bytes, TokenKind::UInt, from, end))
    } else {
        None
    }
}

/// The boolean at `from`: `true` or `false`.
pub open spec fn boolean(bytes: Seq<u8>, from: int, to: int) -> Option<Lexeme> {
    if stands(bytes, from, to, "true".spec_bytes()) {
        Some(word_at(bytes, TokenKind::Bool, from, from + 4))
    } else if stands(bytes, from, to, "false".spec_bytes()) {
        Some(word_at(bytes, TokenKind::Bool, from, from + 5))
    } else {
        None
    }
}

/// The first of two lexemes that is there.
pub open spec fn or_else(first: Option<Lexeme>, second: Option<Lexeme>) -> Option<Lexeme> {
    match first {
        Some(lexeme) => Some(lexeme),
        None => second,
    }
}

/// The value at `from`: the first that is there of an action, a port, a protocol, an
/// identifier, an asterisk, a string literal, an unsigned integer, a signed integer and a
/// boolean. An action that fails lets nothing else be tried.
#[verifier::opaque]
pub open spec fn value(bytes: Seq<u8>, from: int, to: int) -> Result<Lexeme, Fail> {
    match action(bytes, from, to) {
        Ok(lexeme) => Ok(lexeme),
        Err(Fail::Failure) => Err(Fail::Failure),
        Err(Fail::Error) => or_error(
            or_else(
                port(bytes, from, to),
                or_else(
                    protocol(bytes, from, to),
                    or_else(
                        identifier(bytes, from, to),
                        or_else(
                            aterisk(bytes, from, to),
                            or_else(
                                string(bytes, from, to),
                                or_else(
                                    uint(bytes, from, to),
                                    or_else(sint(bytes, from, to), boolean(bytes, from, to)),
                                ),
                            ),
                        ),
                    ),
                ),
            ),
        ),
    }
}

/// The signs that values are written with are plain ASCII.
pub proof fn lemma_value_signs()
    ensures
        "!".is_ascii() && "!"@.len() == 1,
        "://".is_ascii() && "://"@.len() == 3,
        "*".is_ascii() && "*"@.len() == 1,
        "\"".is_ascii() && "\""@.len() == 1,
        "true".is_ascii() && "true"@.len() == 4,
        "false".is_ascii() && "false"@.len() == 5,
        "*".spec_bytes() =~= seq![42u8],
        "\"".spec_bytes() =~= seq![34u8],
{
    reveal_strlit("!");
    reveal_strlit("://");
    reveal_strlit("*");
    reveal_strlit("\"");
    reveal_strlit("true");
    reveal_strlit("false");
    vstd::utf8::is_ascii_chars_encode_utf8("*"@);
    vstd::utf8::is_ascii_chars_encode_utf8("\""@);
}

/// The token for a run of `n` bytes at the front of `input`, which carries those bytes.
fn word<'a>(input: &SourceRef<'a>, n: usize, kind: TokenKind) -> (r: (
    SourceRef<'a>,
    Token<SourceRef<'a>>,
))
    requires
        input.scannable(),
        0 < n <= input.size,
        input.rest(input.offset + n).scannable(),
        kind == TokenKind::Identifier || kind == TokenKind::UInt || kind == TokenKind::Port
            || kind == TokenKind::Bool,
    ensures
        gives(
            *input,
            Ok(r),
            Ok(word_at(input.bytes(), kind, input.offset as int, input.offset + n)),
        ),
        r.0 == input.rest(input.offset + n),
        input.bytes()[input.offset + n - 1] < 128 ==> sound(*input, Ok(r)),
{
    proof {
        vstd::utf8::encode_utf8_valid_utf8(input.source@);
        if input.bytes()[input.offset + n - 1] < 128 {
            lemma_boundary_at_ascii(input.bytes(), input.offset + n - 1);
        }
    }
    let piece = front(input, n);
    let text = piece.as_str().to_owned();
    let rest = skip(input, n);
    let token = match kind {
        TokenKind::Identifier => Token::Identifier(text, Some(piece)),
        TokenKind::UInt => Token::UInt(text, Some(piece)),
        TokenKind::Port => Token::Port(text, Some(piece)),
        _ => Token::Bool(text, Some(piece)),
    };
    (rest, token)
}

/// Scans an action.
pub fn scan_action<'a>(input: SourceRef<'a>) -> (r: Result<
    (SourceRef<'a>, Token<SourceRef<'a>>),
    Fail,
>)
    requires
        input.scannable(),
    ensures
        gives(input, r, action(input.bytes(), input.offset as int, input.end())),
        sound(input, r),
{
    proof {
        lemma_value_signs();
    }
    let (rest, bang) = match symbol(&input, "!") {
        Some(found) => found,
        None => {
            return Err(Fail::Error);
        },
    };
    let n: usize = run(&rest, Class::Alnum);
    if n == 0 {
        return Err(Fail::Failure);
    }
    let name = front(&rest, n);
    let text = name.as_str().to_owned();
    let piece = bang.add(&name);
    Ok((skip(&rest, n), Token::Action(text, Some(piece))))
}

/// Scans a port.
pub fn scan_port<'a>(input: SourceRef<'a>) -> (r: Result<
    (SourceRef<'a>, Token<SourceRef<'a>>),
    Fail,
>)
    requires
        input.scannable(),
    ensures
        gives(input, r, or_error(port(input.bytes(), input.offset as int, input.end()))),
        sound(input, r),
{
    let n: usize = run(&input, Class::Digit);
    if n == 0 {
        return Err(Fail::Error);
    }
    let (rest, token) = word(&input, n, TokenKind::Port);
    match crate::lang::scanner::whitespace::scan(rest) {
        Ok((rest, _)) => Ok((rest, token)),
        Err(_) => Err(Fail::Error),
    }
}

/// Scans a protocol.
pub fn scan_protocol<'a>(input: SourceRef<'a>) -> (r: Result<
    (SourceRef<'a>, Token<SourceRef<'a>>),
    Fail,
>)
    requires
        input.scannable(),
    ensures
        gives(input, r, or_error(protocol(input.bytes(), input.offset as int, input.end()))),
        sound(input, r),
{
    proof {
        lemma_value_signs();
    }
    let n: usize = run(&input, Class::Alnum);
    if n == 0 {
        return Err(Fail::Error);
    }
    let name = front(&input, n);
    let behind = skip(&input, n);
    let (rest, slashes) = match symbol(&behind, "://") {
        Some(found) => found,
        None => {
            return Err(Fail::Error);
        },
    };
    let text = name.as_str().to_owned();
    let piece = name.add(&slashes);
    Ok((rest, Token::Protocol(text, Some(piece))))
}

/// Scans an identifier.
pub fn scan_identifier<'a>(input: SourceRef<'a>) -> (r: Result<
    (SourceRef<'a>, Token<SourceRef<'a>>),
    Fail,
>)
    requires
        input.scannable(),
    ensures
        gives(input, r, or_error(identifier(input.bytes(), input.offset as int, input.end()))),
        sound(input, r),
{
    let n: usize = run(&input, Class::Word);
    if n == 0 {
        return Err(Fail::Error);
    }
    Ok(word(&input, n, TokenKind::Identifier))
}

/// Scans an asterisk.
pub fn scan_aterisk<'a>(input: SourceRef<'a>) -> (r: Result<
    (SourceRef<'a>, Token<SourceRef<'a>>),
    Fail,
>)
    requires
        input.scannable(),
    ensures
        gives(input, r, or_error(aterisk(input.bytes(), input.offset as int, input.end()))),
        sound(input, r),
{
    proof {
        lemma_value_signs();
        vstd::utf8::encode_utf8_valid_utf8(input.source@);
    }
    let (rest, star) = match symbol(&input, "*") {
        Some(found) => found,
        None => {
            return Err(Fail::Error);
        },
    };
    if rest.size > 0 {
        let at: usize = rest.offset;
        let c: u8 = byte_at(&rest, at);
        if (48 <= c && c <= 57) || c == 42 {
            proof {
                lemma_boundary_at_ascii(input.bytes(), at as int);
            }
            let name = if c != 42 {
                Some(text_of(&input, at, at + 1))
            } else {
                None
            };
            let mut source = star;
            source.enlarge(1);
            return Ok((skip(&rest, 1), Token::Aterisk(name, Some(source))));
        }
    }
    Ok((rest, Token::Aterisk(None, Some(star))))
}

/// Scans a string literal.
pub fn scan_string<'a>(input: SourceRef<'a>) -> (r: Result<
    (SourceRef<'a>, Token<SourceRef<'a>>),
    Fail,
>)
    requires
        input.scannable(),
    ensures
        gives(input, r, or_error(string(input.bytes(), input.offset as int, input.end()))),
        sound(input, r),
{
    proof {
        lemma_value_signs();
        vstd::utf8::encode_utf8_valid_utf8(input.source@);
    }
    let (rest, open) = match symbol(&input, "\"") {
        Some(found) => found,
        None => {
            return Err(Fail::Error);
        },
    };
    let end: usize = end_of(&input);
    let start: usize = rest.offset;
    let mut i: usize = start;
    let mut closed: bool = false;
    while i < end && !closed
        invariant
            start <= i <= end,
            closed ==> i < end && input.bytes()[i as int] == 34,
            start == input.offset + 1,
            end == input.end(),
            input.scannable(),
            rest == input.rest(start as int),
            string_close(input.bytes(), i as int, end as int) == string_close(
                input.bytes(),
                start as int,
                end as int,
            ),
        decreases end - i + if closed { 0int } else { 1int },
    {
        let c: u8 = byte_at(&input, i);
        if c == 34 {
            closed = true;
        } else if c == 92 {
            if end - i < 2 {
                return Err(Fail::Error);
            }
            let d: u8 = byte_at(&input, i + 1);
            if !(d == 92 || d == 39 || d == 34 || d == 110 || d == 116 || d == 114) {
                return Err(Fail::Error);
            }
            i += 2;
        } else {
            i += 1;
        }
    }
    if !closed || i == start {
        return Err(Fail::Error);
    }
    proof {
        lemma_boundary_at_ascii(input.bytes(), start - 1);
        lemma_boundary_at_ascii(input.bytes(), i as int);
    }
    let content = front(&rest, i - start);
    let text = content.as_str();
    proof {
        vstd::utf8::encode_utf8_decode_utf8(text@);
    }
    let value = unescape(text);
    let behind = skip(&rest, i - start);
    let close = front(&behind, 1);
    let piece = open.add(&close);
    Ok((skip(&behind, 1), Token::String(value, Some(piece))))
}

/// Scans an unsigned integer.
pub fn scan_uint<'a>(input: SourceRef<'a>) -> (r: Result<
    (SourceRef<'a>, Token<SourceRef<'a>>),
    Fail,
>)
    requires
        input.scannable(),
    ensures
        gives(input, r, or_error(uint(input.bytes(), input.offset as int, input.end()))),
        sound(input, r),
{
    let n: usize = run(&input, Class::Digit);
    if n == 0 {
        return Err(Fail::Error);
    }
    Ok(word(&input, n, TokenKind::UInt))
}

/// Scans a signed integer.
pub fn scan_sint<'a>(input: SourceRef<'a>) -> (r: Result<
    (SourceRef<'a>, Token<SourceRef<'a>>),
    Fail,
>)
    requires
        input.scannable(),
    ensures
        gives(input, r, or_error(sint(input.bytes(), input.offset as int, input.end()))),
        sound(input, r),
{
    let signs: usize = run(&input, Class::Minus);
    if signs == 0 {
        return Err(Fail::Error);
    }
    let behind = skip(&input, signs);
    let digits: usize = run(&behind, Class::Digit);
    if digits == 0 {
        return Err(Fail::Error);
    }
    Ok(word(&input, signs + digits, TokenKind::UInt))
}

/// Scans a boolean.
pub fn scan_bool<'a>(input: SourceRef<'a>) -> (r: Result<
    (SourceRef<'a>, Token<SourceRef<'a>>),
    Fail,
>)
    requires
        input.scannable(),
    ensures
        gives(input, r, or_error(boolean(input.bytes(), input.offset as int, input.end()))),
        sound(input, r),
{
    proof {
        lemma_value_signs();
    }
    if symbol(&input, "true").is_some() {
        return Ok(word(&input, 4, TokenKind::Bool));
    }
    if symbol(&input, "false").is_some() {
        return Ok(word(&input, 5, TokenKind::Bool));
    }
    Err(Fail::Error)
}

/// Scans one value.
pub fn scan<'a>(input: SourceRef<'a>) -> (r: Result<(SourceRef<'a>, Token<SourceRef<'a>>), Fail>)
    requires
        input.scannable(),
    ensures
        gives(input, r, value(input.bytes(), input.offset as int, input.end())),
        sound(input, r),
{
    proof {
        reveal(value);
    }
    match scan_action(input) {
        Ok(found) => {
            return Ok(found);
        },
        Err(Fail::Failure) => {
            return Err(Fail::Failure);
        },
        Err(Fail::Error) => {},
    }
    if let Ok(found) = scan_port(input) {
        return Ok(found);
    }
    if let Ok(found) = scan_protocol(input) {
        return Ok(found);
    }
    if let Ok(found) = scan_identifier(input) {
        return Ok(found);
    }
    if let Ok(found) = scan_aterisk(input) {
        return Ok(found);
    }
    if let Ok(found) = scan_string(input) {
        return Ok(found);
    }
    if let Ok(found) = scan_uint(input) {
        return Ok(found);
    }
    if let Ok(found) = scan_sint(input) {
        return Ok(found);
    }
    scan_bool(input)
}

} // verus!

//! The scanner: turns a source text into tokens.

pub mod comments;
pub mod keywords;
pub mod punctuation;
pub mod scanner;
pub mod values;
pub mod whitespace;

pub use crate::lang::errors::ScanError as Error;
pub use crate::lang::scanner::scanner::scan;

use vstd::prelude::*;
use vstd::string::StringSliceAdditionalSpecFns;
use vstd::utf8::{encode_utf8, is_char_boundary, valid_utf8};
use crate::bytes::{matches_at, occurs_at};
use crate::lang::source::{byte_len, lemma_boundary_at_ascii, SourceRef};
use crate::lang::tokens::{Token, TokenKind};

verus! {

/// Why a scanner gave nothing.
#[derive(Clone, Copy, Debug, PartialEq, Eq, Structural)]
pub enum Fail {
    /// What it scans for does not stand at the front of the input: another scanner may be
    /// tried.
    Error,
    /// What it scans for began, and then did not go on as it must: no other scanner is
    /// tried.
    Failure,
}

/// Classes of bytes.
#[derive(Clone, Copy, Debug, PartialEq, Eq, Structural)]
pub enum Class {
    /// Space, tab, carriage return and line feed.
    Space,
    /// The digits `0` to `9`.
    Digit,
    /// The digits and the letters `a` to `z` and `A` to `Z`.
    Alnum,
    /// The digits, the letters, `_` and `%`.
    Word,
    /// The sign `-`.
    Minus,
}

/// Whether `b` is a digit.
pub open spec fn is_digit(b: u8) -> bool {
    48 <= b <= 57
}

/// Whether `b` is a letter.
pub open spec fn is_letter(b: u8) -> bool {
    65 <= b <= 90 || 97 <= b <= 122
}

/// Whether the byte `b` is of the class `class`.
pub open spec fn is_in(class: Class, b: u8) -> bool {
    match class {
        Class::Space => b == 32 || b == 9 || b == 13 || b == 10,
        Class::Digit => is_digit(b),
        Class::Alnum => is_digit(b) || is_letter(b),
        Class::Word => is_digit(b) || is_letter(b) || b == 95 || b == 37,
        Class::Minus => b == 45,
    }
}

/// Tells whether the byte `b` is of the class `class`.
pub fn belongs(class: Class, b: u8) -> (r: bool)
    ensures
        r == is_in(class, b),
        r ==> b < 128,
{
    let digit = 48 <= b && b <= 57;
    let letter = (65 <= b && b <= 90) || (97 <= b && b <= 122);
    match class {
        Class::Space => b == 32 || b == 9 || b == 13 || b == 10,
        Class::Digit => digit,
        Class::Alnum => digit || letter,
        Class::Word => digit || letter || b == 95 || b == 37,
        Class::Minus => b == 45,
    }
}

/// Where the run of bytes of the class `class` ends that begins at `from`: the index of the
/// first byte at or after `from` and before `to` that is not of the class, or `to`.
pub open spec fn run_end(bytes: Seq<u8>, from: int, to: int, class: Class) -> int
    decreases to - from,
{
    if 0 <= from < to <= bytes.len() && is_in(class, bytes[from]) {
        run_end(bytes, from + 1, to, class)
    } else {
        from
    }
}

impl<'a> SourceRef<'a> {
    /// Where the piece ends in the source text.
    pub open spec fn end(&self) -> int {
        self.offset + self.size
    }

    /// Whether the piece can be scanned: it lies within the source text, and begins and
    /// ends where characters begin and end.
    pub open spec fn scannable(&self) -> bool {
        self.wf() && self.on_boundaries()
    }

    /// The piece of the same source text from the byte `from` up to the byte `to`.
    pub open spec fn piece(&self, from: int, to: int) -> SourceRef<'a> {
        SourceRef { offset: from as usize, size: (to - from) as usize, ..*self }
    }

    /// What is left of the piece from the byte `from` of the source text on.
    pub open spec fn rest(&self, from: int) -> SourceRef<'a> {
        self.piece(from, self.end())
    }
}

/// Whether `token` is of the kind `kind`, carries `value` (as bytes) where it carries
/// anything, and was read from `origin`.
pub open spec fn token_is(
    token: Token<SourceRef<'_>>,
    kind: TokenKind,
    value: Option<Seq<u8>>,
    origin: SourceRef<'_>,
) -> bool {
    &&& token.kind_of() == kind
    &&& token.origin() == Some(origin)
    &&& match value {
        Some(bytes) => token.value_of() is Some && encode_utf8(token.value_of()->0) == bytes,
        None => token.value_of() is None,
    }
}

/// What a scanner found at the front of an input: a token of a kind, read from the bytes
/// from `start` up to `end`, which carries the bytes `value` where it carries anything;
/// scanning goes on at `next`.
pub struct Lexeme {
    pub kind: TokenKind,
    pub value: Option<Seq<u8>>,
    pub start: int,
    pub end: int,
    pub next: int,
}

/// Whether the result `found` of a scanner for tokens on `input` is what `wanted` says:
/// the token and the rest of the input where it says what was found, and an error where it
/// says that nothing was.
pub open spec fn gives(
    input: SourceRef<'_>,
    found: Result<(SourceRef<'_>, Token<SourceRef<'_>>), Fail>,
    wanted: Result<Lexeme, Fail>,
) -> bool {
    match (found, wanted) {
        (Ok((rest, token)), Ok(lexeme)) => {
            &&& rest == input.rest(lexeme.next)
            &&& rest.offset == lexeme.next
            &&& token_is(token, lexeme.kind, lexeme.value, input.piece(lexeme.start, lexeme.end))
        },
        (Err(why), Err(wanted)) => why == wanted,
        _ => false,
    }
}

/// Whether the result `found` of a scanner for tokens on `input` can be gone on with: the
/// rest of the input can be scanned and is shorter than the input, and the piece that the
/// token was read from can be found in the source text.
pub open spec fn sound(
    input: SourceRef<'_>,
    found: Result<(SourceRef<'_>, Token<SourceRef<'_>>), Fail>,
) -> bool {
    found matches Ok((rest, token)) ==> {
        &&& rest.scannable()
        &&& rest.offset > input.offset
        &&& token.origin() matches Some(piece) && piece.locatable()
    }
}

/// The number of bytes of the class `class` at the front of `input`.
pub fn run(input: &SourceRef<'_>, class: Class) -> (n: usize)
    requires
        input.scannable(),
    ensures
        input.offset + n == run_end(input.bytes(), input.offset as int, input.end(), class),
        n <= input.size,
        input.rest(input.offset + n).scannable(),
        input.piece(input.offset as int, input.offset + n).scannable(),
        n > 0 ==> input.bytes()[input.offset + n - 1] < 128,
        n > 0 ==> is_char_boundary(input.bytes(), input.offset + n - 1),
{
    let bytes = input.source.as_bytes();
    let len: usize = bytes.len();
    let end: usize = input.offset + input.size;
    let mut i: usize = input.offset;
    proof {
        vstd::utf8::encode_utf8_valid_utf8(input.source@);
    }
    while i < end && belongs(class, bytes[i])
        invariant
            input.offset <= i <= end <= bytes@.len(),
            end == input.end(),
            bytes@ == input.bytes(),
            valid_utf8(bytes@),
            run_end(bytes@, i as int, end as int, class) == run_end(
                bytes@,
                input.offset as int,
                end as int,
                class,
            ),
            is_char_boundary(bytes@, i as int),
            i > input.offset ==> bytes@[i - 1] < 128 && is_char_boundary(bytes@, i - 1),
        decreases end - i,
    {
        proof {
            lemma_boundary_at_ascii(bytes@, i as int);
        }
        i += 1;
    }
    i - input.offset
}

/// Where `input` ends in the source text.
pub fn end_of(input: &SourceRef<'_>) -> (r: usize)
    requires
        input.wf(),
    ensures
        r == input.end(),
{
    let len: usize = byte_len(input.source);
    input.offset + input.size
}

/// What is left of `input` without its first `n` bytes.
pub fn skip<'a>(input: &SourceRef<'a>, n: usize) -> (r: SourceRef<'a>)
    requires
        input.wf(),
        n <= input.size,
    ensures
        r == input.rest(input.offset + n),
        r.offset == input.offset + n,
        r.size == input.size - n,
        r.wf(),
{
    let len: usize = byte_len(input.source);
    SourceRef {
        source: input.source,
        offset: input.offset + n,
        size: input.size - n,
        name: input.name,
    }
}

/// The first `n` bytes of `input`.
pub fn front<'a>(input: &SourceRef<'a>, n: usize) -> (r: SourceRef<'a>)
    requires
        input.wf(),
        n <= input.size,
    ensures
        r == input.piece(input.offset as int, input.offset + n),
        r.wf(),
{
    SourceRef { source: input.source, offset: input.offset, size: n, name: input.name }
}

/// Whether `text` stands at the byte `at` of `bytes` and ends at or before `to`.
pub open spec fn stands(bytes: Seq<u8>, at: int, to: int, text: Seq<u8>) -> bool {
    at + text.len() <= to && occurs_at(bytes, at, text)
}

/// Tells whether `text` stands at the byte `at` of `input`, within it.
pub fn tag_at(input: &SourceRef<'_>, at: usize, text: &str) -> (r: bool)
    requires
        input.wf(),
        input.offset <= at <= input.end(),
    ensures
        r == stands(input.bytes(), at as int, input.end(), text.spec_bytes()),
{
    let pattern = text.as_bytes();
    let len: usize = byte_len(input.source);
    if pattern.len() > input.offset + input.size - at {
        return false;
    }
    matches_at(input.source.as_bytes(), at, pattern)
}

/// The byte of `input` at the byte `at` of the source text.
pub fn byte_at(input: &SourceRef<'_>, at: usize) -> (r: u8)
    requires
        input.wf(),
        at < input.end(),
    ensures
        r == input.bytes()[at as int],
{
    input.source.as_bytes()[at]
}

/// The string of the bytes of `input` from `from` up to `to`.
pub fn text_of(input: &SourceRef<'_>, from: usize, to: usize) -> (r: String)
    requires
        input.wf(),
        from <= to <= input.end(),
        is_char_boundary(input.bytes(), from as int),
        is_char_boundary(input.bytes(), to as int),
    ensures
        encode_utf8(r@) == input.bytes().subrange(from as int, to as int),
{
    let len: usize = byte_len(input.source);
    crate::lang::source::substring(input.source, from, to).to_owned()
}

/// The lexeme of a token of the kind `kind` that carries nothing and is `len` bytes long.
pub open spec fn symbol_at(kind: TokenKind, from: int, len: int) -> Lexeme {
    Lexeme { kind, value: None, start: from, end: from + len, next: from + len }
}

/// The lexeme of a token of the kind `kind` that carries the bytes that it was read from,
/// which end at `end`.
pub open spec fn word_at(bytes: Seq<u8>, kind: TokenKind, from: int, end: int) -> Lexeme {
    Lexeme { kind, value: Some(bytes.subrange(from, end)), start: from, end, next: end }
}

/// What a scanner for tokens owes for `wanted`: the lexeme, or the error that tells that
/// there is none and that another scanner may be tried.
pub open spec fn or_error(wanted: Option<Lexeme>) -> Result<Lexeme, Fail> {
    match wanted {
        Some(lexeme) => Ok(lexeme),
        None => Err(Fail::Error),
    }
}

/// Takes `text`, which is plain ASCII, from the front of `input`, if it stands there: gives
/// the rest of the input and the piece that was taken.
pub fn symbol<'a>(input: &SourceRef<'a>, text: &str) -> (r: Option<(SourceRef<'a>, SourceRef<'a>)>)
    requires
        input.scannable(),
        text.is_ascii(),
        text@.len() > 0,
    ensures
        r is Some <==> stands(input.bytes(), input.offset as int, input.end(), text.spec_bytes()),
        text.spec_bytes().len() == text@.len(),
        r matches Some((rest, piece)) ==> {
            &&& rest == input.rest(input.offset + text@.len())
            &&& rest.offset == input.offset + text@.len()
            &&& rest.scannable()
            &&& piece == input.piece(input.offset as int, input.offset + text@.len())
            &&& piece.scannable()
            &&& piece.locatable()
            &&& input.bytes()[input.offset + text@.len() - 1] < 128
        },
{
    proof {
        vstd::utf8::is_ascii_chars_encode_utf8(text@);
        vstd::utf8::encode_utf8_valid_utf8(input.source@);
    }
    if !tag_at(input, input.offset, text) {
        return None;
    }
    let n: usize = byte_len(text);
    proof {
        let last = input.offset + n - 1;
        assert(input.bytes().subrange(input.offset as int, input.offset + n)[n - 1]
            == text.spec_bytes()[n - 1]);
        lemma_boundary_at_ascii(input.bytes(), last);
    }
    Some((skip(input, n), front(input, n)))
}

} // verus!

//! References into a source text, with which tokens and syntax nodes are traced back to the
//! place that they were read from.

use vstd::prelude::*;
use vstd::string::StringSliceAdditionalSpecFns;
use vstd::utf8::{
    encode_utf8, is_char_boundary, is_continuation_byte, length_of_first_scalar,
    pop_first_scalar, valid_first_scalar, valid_utf8,
};
use vstd::std_specs::iter::IteratorSpec;
use vstd::string::StringExecFns;
use crate::bytes::{matches_at, occurs_at, str_eq};
use crate::lang::errors::{digits, number};

verus! {

/// The byte `\n`.
pub const NEWLINE: u8 = 10;

/// In valid UTF-8 a character begins at a byte below 128, and another one behind it.
pub proof fn lemma_boundary_at_ascii(bytes: Seq<u8>, i: int)
    requires
        valid_utf8(bytes),
        0 <= i < bytes.len(),
        bytes[i] < 128,
    ensures
        is_char_boundary(bytes, i),
        is_char_boundary(bytes, i + 1),
{
    vstd::utf8::is_char_boundary_iff_not_is_continuation_byte(bytes, i);
    if i + 1 == bytes.len() {
        vstd::utf8::is_char_boundary_start_end_of_seq(bytes);
    } else {
        vstd::utf8::valid_utf8_split(bytes, i);
        let tail = bytes.subrange(i, bytes.len() as int);
        assert(tail[0] == bytes[i]);
        assert(valid_first_scalar(tail));
        assert(length_of_first_scalar(tail) == 1);
        let rest = pop_first_scalar(tail);
        assert(valid_utf8(rest));
        assert(rest.len() > 0);
        assert(valid_first_scalar(rest));
        assert(rest[0] == bytes[i + 1]);
        assert(!is_continuation_byte(bytes[i + 1]));
        vstd::utf8::is_char_boundary_iff_not_is_continuation_byte(bytes, i + 1);
    }
}

/// What begins a character in valid UTF-8 begins one in what is left when the bytes before an
/// earlier such place are taken away.
pub proof fn lemma_boundary_in_tail(bytes: Seq<u8>, from: int, to: int)
    requires
        valid_utf8(bytes),
        0 <= from <= to <= bytes.len(),
        is_char_boundary(bytes, from),
        is_char_boundary(bytes, to),
    ensures
        valid_utf8(bytes.subrange(from, bytes.len() as int)),
        is_char_boundary(bytes.subrange(from, bytes.len() as int), to - from),
{
    vstd::utf8::valid_utf8_split(bytes, from);
    let tail = bytes.subrange(from, bytes.len() as int);
    if to == from {
    } else if to == bytes.len() {
        vstd::utf8::is_char_boundary_start_end_of_seq(tail);
    } else {
        vstd::utf8::is_char_boundary_iff_not_is_continuation_byte(bytes, to);
        vstd::utf8::is_char_boundary_iff_not_is_continuation_byte(tail, to - from);
    }
}

/// The length of `text` in bytes.
pub fn byte_len(text: &str) -> (r: usize)
    ensures
        r == text.spec_bytes().len(),
{
    text.as_bytes().len()
}

/// The part of `text` from the byte `from` up to the byte `to`.
pub fn substring<'a>(text: &'a str, from: usize, to: usize) -> (r: &'a str)
    requires
        from <= to <= text.spec_bytes().len(),
        is_char_boundary(text.spec_bytes(), from as int),
        is_char_boundary(text.spec_bytes(), to as int),
    ensures
        r.spec_bytes() == text.spec_bytes().subrange(from as int, to as int),
{
    proof {
        vstd::utf8::encode_utf8_valid_utf8(text@);
        lemma_boundary_in_tail(text.spec_bytes(), from as int, to as int);
    }
    let (_, tail) = text.split_at(from);
    let (part, _) = tail.split_at(to - from);
    assert(part.spec_bytes() =~= text.spec_bytes().subrange(from as int, to as int));
    part
}

/// A reference to a piece of a source text: `size` bytes of `source`, from the byte `offset`
/// on. `name` tells the user where the text comes from: a file name, or the like of `<stdin>`.
#[derive(Clone, Copy, Debug)]
pub struct SourceRef<'a> {
    /// The source text as a whole.
    pub source: &'a str,
    /// Where the piece begins in the source text, in bytes.
    pub offset: usize,
    /// The length of the piece, in bytes.
    pub size: usize,
    /// The name of the source text.
    pub name: &'a str,
}

/// How a piece of source text compares with a text that is looked for at its front.
#[derive(Clone, Copy, Debug, PartialEq, Eq, Structural)]
pub enum CompareResult {
    /// The piece begins with the text.
    Match,
    /// The piece is shorter than the text.
    Incomplete,
    /// The piece does not begin with the text.
    Error,
}

/// How many more items an input would have to hold.
#[derive(Clone, Copy, Debug, PartialEq, Eq, Structural)]
pub enum Needed {
    /// It is not known how many.
    Unknown,
    /// This many.
    Size(usize),
}

impl<'a> SourceRef<'a> {
    /// The bytes of the source text as a whole.
    pub open spec fn bytes(&self) -> Seq<u8> {
        self.source.spec_bytes()
    }

    /// Whether the piece lies within the source text, which is no longer than a machine
    /// can hold.
    pub open spec fn wf(&self) -> bool {
        self.offset + self.size <= self.bytes().len() <= usize::MAX
    }

    /// The bytes of the piece.
    pub open spec fn text(&self) -> Seq<u8> {
        self.bytes().subrange(self.offset as int, self.offset + self.size)
    }

    /// Whether the piece begins and ends where characters begin and end.
    pub open spec fn on_boundaries(&self) -> bool {
        &&& is_char_boundary(self.bytes(), self.offset as int)
        &&& is_char_boundary(self.bytes(), self.offset + self.size)
    }

    /// A reference to all of `source`, which is known to the user as `name`.
    pub fn new(name: &'a str, source: &'a str) -> (r: Self)
        ensures
            r.name == name,
            r.source == source,
            r.offset == 0,
            r.size == source.spec_bytes().len(),
            r.wf(),
            r.on_boundaries(),
    {
        proof {
            vstd::utf8::encode_utf8_valid_utf8(source@);
            vstd::utf8::is_char_boundary_start_end_of_seq(source.spec_bytes());
        }
        Self { source, offset: 0, size: byte_len(source), name }
    }

    /// A reference to the `size` bytes of `source` from `offset` on, whether or not they
    /// lie within it.
    pub fn new_with_raw_offset(name: &'a str, source: &'a str, offset: usize, size: usize) -> (r:
        Self)
        ensures
            r == (SourceRef { source, offset, size, name }),
    {
        Self { source, offset, size, name }
    }

    /// Grows the piece by `n` bytes to the right.
    pub fn enlarge(&mut self, n: usize)
        requires
            old(self).offset + old(self).size + n <= old(self).bytes().len(),
        ensures
            *final(self) == (SourceRef { size: (old(self).size + n) as usize, ..*old(self) }),
            final(self).wf(),
    {
        let len: usize = byte_len(self.source);
        assert(self.offset + self.size + n <= len);
        self.size += n;
    }

    /// The name of the source text.
    pub fn name(&self) -> (r: &str)
        ensures
            r == self.name,
    {
        self.name
    }

    /// The source text as a whole.
    pub fn source(&self) -> (r: &str)
        ensures
            r == self.source,
    {
        self.source
    }

    /// Where the piece begins in the source text.
    pub fn offset(&self) -> (r: usize)
        ensures
            r == self.offset,
    {
        self.offset
    }

    /// The length of the piece.
    pub fn size(&self) -> (r: usize)
        ensures
            r == self.size,
    {
        self.size
    }

    /// Whether the piece holds nothing.
    pub fn is_empty(&self) -> (r: bool)
        ensures
            r == (self.size == 0),
    {
        self.size == 0
    }

    /// The piece as a string.
    pub fn as_str(&self) -> (r: &str)
        requires
            self.wf(),
            self.on_boundaries(),
        ensures
            r.spec_bytes() == self.text(),
    {
        let len: usize = byte_len(self.source);
        substring(self.source, self.offset, self.offset + self.size)
    }
}

/// The number of line ends among the bytes of `bytes` before `i`.
pub open spec fn newlines_before(bytes: Seq<u8>, i: int) -> int
    decreases i,
{
    if 0 < i <= bytes.len() {
        newlines_before(bytes, i - 1) + if bytes[i - 1] == NEWLINE {
            1int
        } else {
            0int
        }
    } else {
        0
    }
}

/// Where the line begins that the byte `i` of `bytes` is on: behind the last line end before
/// `i`, or at the front.
pub open spec fn line_start(bytes: Seq<u8>, i: int) -> int
    decreases i,
{
    if 0 < i <= bytes.len() {
        if bytes[i - 1] == NEWLINE {
            i
        } else {
            line_start(bytes, i - 1)
        }
    } else {
        0
    }
}

/// Where the line ends that the byte `i` of `bytes` is on: behind the first line end at or
/// after `i`, or at the end.
pub open spec fn line_end(bytes: Seq<u8>, i: int) -> int
    decreases bytes.len() - i,
{
    if 0 <= i < bytes.len() {
        if bytes[i] == NEWLINE {
            i + 1
        } else {
            line_end(bytes, i + 1)
        }
    } else {
        bytes.len() as int
    }
}

/// The number of characters that begin among the bytes of `bytes` from `from` up to `to`.
pub open spec fn chars_between(bytes: Seq<u8>, from: int, to: int) -> int
    decreases to - from,
{
    if 0 <= from < to <= bytes.len() {
        chars_between(bytes, from, to - 1) + if is_continuation_byte(bytes[to - 1]) {
            0int
        } else {
            1int
        }
    } else {
        0
    }
}

/// The line and the column of the character that begins at the byte `i` of `bytes`, both
/// counted from 1; the column counts characters.
pub open spec fn position_of(bytes: Seq<u8>, i: int) -> (usize, usize) {
    (
        (1 + newlines_before(bytes, i)) as usize,
        (1 + chars_between(bytes, line_start(bytes, i), i)) as usize,
    )
}

/// A line begins at or before each of its bytes, within the text, and where a character
/// begins.
pub proof fn lemma_line_start(bytes: Seq<u8>, i: int)
    requires
        valid_utf8(bytes),
        0 <= i <= bytes.len(),
    ensures
        0 <= line_start(bytes, i) <= i,
        is_char_boundary(bytes, line_start(bytes, i)),
        0 <= newlines_before(bytes, i) <= i,
        0 <= chars_between(bytes, line_start(bytes, i), i) <= i,
    decreases i,
{
    if 0 < i {
        lemma_line_start(bytes, i - 1);
        if bytes[i - 1] == NEWLINE {
            lemma_boundary_at_ascii(bytes, i - 1);
        }
    }
}

/// A line ends behind each of its bytes, within the text, and where a character ends.
pub proof fn lemma_line_end(bytes: Seq<u8>, i: int)
    requires
        valid_utf8(bytes),
        0 <= i < bytes.len(),
    ensures
        i < line_end(bytes, i) <= bytes.len(),
        is_char_boundary(bytes, line_end(bytes, i)),
    decreases bytes.len() - i,
{
    if bytes[i] == NEWLINE {
        lemma_boundary_at_ascii(bytes, i);
    } else if i + 1 < bytes.len() {
        lemma_line_end(bytes, i + 1);
    } else {
        assert(line_end(bytes, i + 1) == bytes.len());
        vstd::utf8::is_char_boundary_start_end_of_seq(bytes);
    }
}

/// A piece of source text by itself: the lines that it lies on, and where it stands in them
/// and in the text that they were taken from.
#[derive(Debug)]
pub struct SourceText {
    /// The lines that the piece lies on, whole.
    pub source: String,
    /// Where the piece begins in these lines, in bytes.
    pub offset: usize,
    /// The length of the piece, in bytes.
    pub size: usize,
    /// The name of the source text.
    pub name: String,
    /// The line and the column of the first character of the piece in the source text, both
    /// counted from 1.
    pub start: (usize, usize),
    /// The line and the column of the last character of the piece in the source text, both
    /// counted from 1.
    pub end: (usize, usize),
}

impl Clone for SourceText {
    fn clone(&self) -> (r: Self)
        ensures
            r == *self,
    {
        SourceText {
            source: self.source.clone(),
            offset: self.offset,
            size: self.size,
            name: self.name.clone(),
            start: (self.start.0, self.start.1),
            end: (self.end.0, self.end.1),
        }
    }
}

impl<'a> SourceRef<'a> {
    /// Whether the piece can be found in its source text: it is empty, or it lies within the
    /// text, begins where a character begins, and ends with a character of one byte.
    pub open spec fn locatable(&self) -> bool {
        self.size > 0 ==> {
            &&& self.wf()
            &&& is_char_boundary(self.bytes(), self.offset as int)
            &&& is_char_boundary(self.bytes(), self.offset + self.size - 1)
        }
    }

    /// Whether `text` is this piece by itself. For an empty piece it holds no lines, and no
    /// line or column. Else it holds the lines that the piece lies on, from the beginning of
    /// the line of its first byte to the end of the line of its last byte, the line end too;
    /// its offset counts from the beginning of these lines; and it holds line and column
    /// of the first and of the last character of the piece.
    pub open spec fn is_text(&self, text: SourceText) -> bool {
        let first = self.offset as int;
        let last = self.offset + self.size - 1;
        &&& text.name@ == self.name@
        &&& text.size == self.size
        &&& if self.size == 0 {
            &&& text.source@ == Seq::<char>::empty()
            &&& text.offset == self.offset
            &&& text.start == (usize::MAX, usize::MAX)
            &&& text.end == (usize::MAX, usize::MAX)
        } else {
            &&& encode_utf8(text.source@) == self.bytes().subrange(
                line_start(self.bytes(), first),
                line_end(self.bytes(), last),
            )
            &&& text.offset == first - line_start(self.bytes(), first)
            &&& text.start == position_of(self.bytes(), first)
            &&& text.end == position_of(self.bytes(), last)
        }
    }

    /// Makes this piece a text by itself, which owns what it holds.
    pub fn to_source_text(&self) -> (r: SourceText)
        requires
            self.locatable(),
        ensures
            self.is_text(r),
    {
        if self.size == 0 {
            return SourceText {
                source: String::new(),
                offset: self.offset,
                size: self.size,
                name: self.name.to_owned(),
                start: (usize::MAX, usize::MAX),
                end: (usize::MAX, usize::MAX),
            };
        }
        let bytes = self.source.as_bytes();
        let len: usize = bytes.len();
        let last: usize = self.offset + self.size - 1;
        proof {
            vstd::utf8::encode_utf8_valid_utf8(self.source@);
        }
        let mut lines: usize = 0;
        let mut columns: usize = 0;
        let mut line_i: usize = 0;
        let mut start: (usize, usize) = (0, 0);
        let mut source_start: usize = 0;
        let mut i: usize = 0;
        while i < last
            invariant
                i <= last < len,
                len == bytes@.len(),
                bytes@ == self.bytes(),
                valid_utf8(bytes@),
                self.offset <= last,
                lines == newlines_before(bytes@, i as int),
                line_i == line_start(bytes@, i as int),
                columns == chars_between(bytes@, line_i as int, i as int),
                lines <= i,
                line_i <= i,
                columns <= i,
                i > self.offset ==> start == position_of(bytes@, self.offset as int)
                    && source_start == line_start(bytes@, self.offset as int),
            decreases last - i,
        {
            if i == self.offset {
                start = (lines + 1, columns + 1);
                source_start = line_i;
            }
            if bytes[i] == NEWLINE {
                lines += 1;
                columns = 0;
                line_i = i + 1;
            } else if !(128 <= bytes[i] && bytes[i] <= 191) {
                columns += 1;
            }
            i += 1;
        }
        if last == self.offset {
            start = (lines + 1, columns + 1);
            source_start = line_i;
        }
        let end: (usize, usize) = (lines + 1, columns + 1);
        let mut source_end: usize = last;
        while source_end < len && bytes[source_end] != NEWLINE
            invariant
                last <= source_end <= len,
                len == bytes@.len(),
                line_end(bytes@, source_end as int) == line_end(bytes@, last as int),
            decreases len - source_end,
        {
            source_end += 1;
        }
        if source_end < len {
            source_end += 1;
        }
        proof {
            lemma_line_start(bytes@, self.offset as int);
            lemma_line_end(bytes@, last as int);
        }
        let text = substring(self.source, source_start, source_end);
        SourceText {
            source: text.to_owned(),
            offset: self.offset - source_start,
            size: self.size,
            name: self.name.to_owned(),
            start,
            end,
        }
    }
}

impl SourceText {
    /// Whether the piece lies within the lines that are held, and begins and ends where
    /// characters begin and end.
    pub open spec fn wf(&self) -> bool {
        &&& self.offset + self.size <= encode_utf8(self.source@).len()
        &&& is_char_boundary(encode_utf8(self.source@), self.offset as int)
        &&& is_char_boundary(encode_utf8(self.source@), self.offset + self.size)
    }

    /// The name of the source text.
    pub fn name(&self) -> (r: &str)
        ensures
            r@ == self.name@,
    {
        self.name.as_str()
    }

    /// The lines that the piece lies on.
    pub fn source(&self) -> (r: &str)
        ensures
            r@ == self.source@,
    {
        self.source.as_str()
    }

    /// Where the piece begins in the lines that are held, in bytes.
    pub fn offset(&self) -> (r: usize)
        ensures
            r == self.offset,
    {
        self.offset
    }

    /// The length of the piece, in bytes.
    pub fn size(&self) -> (r: usize)
        ensures
            r == self.size,
    {
        self.size
    }

    /// The line and the column of the first character of the piece.
    pub fn start(&self) -> (r: (usize, usize))
        ensures
            r == self.start,
    {
        (self.start.0, self.start.1)
    }

    /// The line and the column of the last character of the piece.
    pub fn end(&self) -> (r: (usize, usize))
        ensures
            r == self.end,
    {
        (self.end.0, self.end.1)
    }

    /// The piece as a string.
    pub fn as_str(&self) -> (r: &str)
        requires
            self.wf(),
        ensures
            r.spec_bytes() == encode_utf8(self.source@).subrange(
                self.offset as int,
                self.offset + self.size,
            ),
    {
        let lines = self.source.as_str();
        let len: usize = byte_len(lines);
        substring(lines, self.offset, self.offset + self.size)
    }
}

impl<'a> SourceRef<'a> {
    /// Whether this reference and `other` are the same piece of the same source text: they
    /// bear the same name and hold the same range. The text itself is not compared.
    pub open spec fn same_as(&self, other: &Self) -> bool {
        self.name@ == other.name@ && self.offset == other.offset && self.size == other.size
    }

    /// The piece that begins where this one begins and ends where `rhs` ends.
    pub open spec fn joined(&self, rhs: &Self) -> Self {
        SourceRef { size: (rhs.offset + rhs.size - self.offset) as usize, ..*self }
    }

    /// Spans this piece and `rhs`, a piece of the same source text that does not end before
    /// this one begins.
    pub fn add(&self, rhs: &Self) -> (r: Self)
        requires
            self.source@ == rhs.source@,
            self.offset <= rhs.offset + rhs.size <= usize::MAX,
        ensures
            r == self.joined(rhs),
            rhs.wf() ==> r.wf(),
    {
        Self {
            source: self.source,
            offset: self.offset,
            size: (rhs.offset + rhs.size) - self.offset,
            name: self.name,
        }
    }

    /// Grows this piece to the end of `rhs`, a piece of the same source text that does not
    /// end before this one begins.
    pub fn add_assign(&mut self, rhs: Self)
        requires
            old(self).source@ == rhs.source@,
            old(self).offset <= rhs.offset + rhs.size <= usize::MAX,
        ensures
            *final(self) == old(self).joined(&rhs),
            rhs.wf() ==> final(self).wf(),
    {
        self.size = (rhs.offset + rhs.size) - self.offset;
    }

    /// The length of the piece, as the input of a scanner.
    pub fn input_len(&self) -> (r: usize)
        ensures
            r == self.size,
    {
        self.size
    }

    /// The first `count` bytes of the piece.
    pub fn take(&self, count: usize) -> (r: Self)
        requires
            count <= self.size,
        ensures
            r == (SourceRef { size: count, ..*self }),
            self.wf() ==> r.wf(),
    {
        Self { source: self.source, offset: self.offset, size: count, name: self.name }
    }

    /// The piece without its first `count` bytes, and those first `count` bytes.
    pub fn take_split(&self, count: usize) -> (r: (Self, Self))
        requires
            count <= self.size,
            self.offset + self.size <= usize::MAX,
        ensures
            r.0 == (SourceRef {
                offset: (self.offset + count) as usize,
                size: (self.size - count) as usize,
                ..*self
            }),
            r.1 == (SourceRef { size: count, ..*self }),
            self.wf() ==> r.0.wf() && r.1.wf() && r.1.text() + r.0.text() == self.text(),
    {
        let rest = Self {
            source: self.source,
            offset: self.offset + count,
            size: self.size - count,
            name: self.name,
        };
        let first = Self { source: self.source, offset: self.offset, size: count, name: self.name };
        proof {
            if self.wf() {
                assert(first.text() + rest.text() =~= self.text());
            }
        }
        (rest, first)
    }

    /// The piece without its first `start` bytes, of which it has more.
    pub fn slice(&self, start: usize) -> (r: Self)
        requires
            start < self.size,
            self.offset + self.size <= usize::MAX,
        ensures
            r == (SourceRef {
                offset: (self.offset + start) as usize,
                size: (self.size - start) as usize,
                ..*self
            }),
            self.wf() ==> r.wf(),
    {
        Self {
            source: self.source,
            offset: self.offset + start,
            size: self.size - start,
            name: self.name,
        }
    }

    /// How far the beginning of this piece is from that of `second`, in bytes.
    pub fn offset_from(&self, second: &Self) -> (r: usize)
        ensures
            r == if self.offset >= second.offset {
                self.offset - second.offset
            } else {
                second.offset - self.offset
            },
    {
        if self.offset >= second.offset {
            self.offset - second.offset
        } else {
            second.offset - self.offset
        }
    }

    /// Where an input is cut to take `count` characters from it, as this piece answers it:
    /// at its front where it holds anything, whatever `count` is.
    pub fn slice_index(&self, count: usize) -> (r: Result<usize, Needed>)
        requires
            count > 0,
        ensures
            r == if self.size > 0 {
                Ok::<usize, Needed>(0)
            } else {
                Err::<usize, Needed>(Needed::Size(count))
            },
    {
        if self.size > 0 {
            Ok(0)
        } else {
            Err(Needed::Size(count))
        }
    }

    /// How the piece compares with `t` at its front.
    pub open spec fn compared(&self, t: Seq<u8>) -> CompareResult {
        if self.size < t.len() {
            CompareResult::Incomplete
        } else if occurs_at(self.bytes(), self.offset as int, t) {
            CompareResult::Match
        } else {
            CompareResult::Error
        }
    }

    /// Tells whether the piece begins with `t`.
    pub fn compare(&self, t: &str) -> (r: CompareResult)
        ensures
            r == self.compared(t.spec_bytes()),
    {
        let pattern = t.as_bytes();
        if self.size < pattern.len() {
            return CompareResult::Incomplete;
        }
        if matches_at(self.source.as_bytes(), self.offset, pattern) {
            CompareResult::Match
        } else {
            CompareResult::Error
        }
    }
}

/// The text `text` in lower case, as Unicode defines it.
pub uninterp spec fn lowercase(text: Seq<char>) -> Seq<char>;

/// `str::to_lowercase`: `text` in lower case.
#[verifier::external_body]
fn to_lowercase(text: &str) -> (r: String)
    ensures
        r@ == lowercase(text@),
{
    text.to_lowercase()
}

impl<'a> SourceRef<'a> {
    /// How the piece compares with `t` at its front when upper and lower case are not told
    /// apart.
    pub open spec fn compared_no_case(&self, t: Seq<char>) -> CompareResult {
        let n = encode_utf8(t).len();
        if self.size < n {
            CompareResult::Incomplete
        } else if lowercase(
            vstd::utf8::decode_utf8(self.bytes().subrange(self.offset as int, self.offset + n)),
        ) == lowercase(t) {
            CompareResult::Match
        } else {
            CompareResult::Error
        }
    }

    /// Tells whether the piece begins with `t` when upper and lower case are not told
    /// apart. As many bytes of the piece as `t` has are compared, and they have to end
    /// where a character ends.
    pub fn compare_no_case(&self, t: &str) -> (r: CompareResult)
        requires
            self.size >= t.spec_bytes().len() ==> {
                &&& self.offset + t.spec_bytes().len() <= self.bytes().len()
                &&& is_char_boundary(self.bytes(), self.offset as int)
                &&& is_char_boundary(self.bytes(), self.offset + t.spec_bytes().len())
            },
        ensures
            r == self.compared_no_case(t@),
    {
        let n: usize = byte_len(t);
        if self.size < n {
            return CompareResult::Incomplete;
        }
        let len: usize = byte_len(self.source);
        let front = substring(self.source, self.offset, self.offset + n);
        proof {
            vstd::utf8::encode_utf8_decode_utf8(front@);
        }
        let left = to_lowercase(front);
        let right = to_lowercase(t);
        if str_eq(left.as_str(), right.as_str()) {
            CompareResult::Match
        } else {
            CompareResult::Error
        }
    }
}

impl SourceText {
    /// Whether the character at column `col` of line `line`, the column counted from 0, is
    /// marked when the piece is shown: it lies within the piece, from its first character
    /// to its last.
    pub open spec fn marked(&self, line: usize, col: usize) -> bool {
        if self.start.0 == self.end.0 {
            line == self.start.0 && col >= self.start.1 - 1 && col <= self.end.1 - 1
        } else {
            (line == self.start.0 && col >= self.start.1 - 1) || (line > self.start.0 && line
                < self.end.0) || (line == self.end.0 && col <= self.end.1 - 1)
        }
    }

    /// Tells whether the character at column `col` of line `line` is marked when the piece
    /// is shown. Columns are counted from 0 here, lines as the piece counts them.
    pub fn is_in_range(&self, line: usize, col: usize) -> (r: bool)
        requires
            self.start.1 >= 1,
            self.end.1 >= 1,
        ensures
            r == self.marked(line, col),
    {
        if self.start.0 == self.end.0 {
            line == self.start.0 && col >= self.start.1 - 1 && col <= self.end.1 - 1
        } else {
            (line == self.start.0 && col >= self.start.1 - 1) || (line > self.start.0 && line
                < self.end.0) || (line == self.end.0 && col <= self.end.1 - 1)
        }
    }
}

/// The lines of the text `bytes` from the byte `from` on, each by the index of its first
/// byte and the index behind its last. A line ends before a line feed, and before the
/// carriage return that stands directly before the line feed, if one does. What stands
/// behind the last line feed is a line too, unless it is empty.
pub open spec fn line_spans(bytes: Seq<u8>, from: int) -> Seq<(int, int)>
    decreases bytes.len() - from,
{
    if 0 <= from < bytes.len() {
        let stop = line_end(bytes, from);
        if from < stop <= bytes.len() {
            let cut = if bytes[stop - 1] != NEWLINE {
                stop
            } else if stop - 1 > from && bytes[stop - 2] == 13 {
                stop - 2
            } else {
                stop - 1
            };
            seq![(from, cut)] + line_spans(bytes, stop)
        } else {
            Seq::empty()
        }
    } else {
        Seq::empty()
    }
}

impl SourceText {
    /// The lines that are held, each with its number in the source text.
    pub fn lines(&self) -> (r: Vec<(usize, &str)>)
        requires
            self.start.0 + line_spans(encode_utf8(self.source@), 0).len() <= usize::MAX,
        ensures
            r@.len() == line_spans(encode_utf8(self.source@), 0).len(),
            forall|i: int|
                0 <= i < r@.len() ==> {
                    let span = line_spans(encode_utf8(self.source@), 0)[i];
                    &&& (#[trigger] r@[i]).0 == self.start.0 + i
                    &&& r@[i].1.spec_bytes() == encode_utf8(self.source@).subrange(span.0, span.1)
                },
    {
        let text = self.source.as_str();
        let bytes = text.as_bytes();
        let len: usize = bytes.len();
        let ghost all = line_spans(bytes@, 0);
        let mut lines: Vec<(usize, &str)> = Vec::new();
        let mut from: usize = 0;
        proof {
            vstd::utf8::encode_utf8_valid_utf8(text@);
            vstd::utf8::is_char_boundary_start_end_of_seq(bytes@);
        }
        while from < len
            invariant
                from <= len,
                len == bytes@.len(),
                bytes@ == text.spec_bytes(),
                bytes@ == encode_utf8(self.source@),
                valid_utf8(bytes@),
                is_char_boundary(bytes@, from as int),
                is_char_boundary(bytes@, len as int),
                all == line_spans(bytes@, 0),
                self.start.0 + all.len() <= usize::MAX,
                lines@.len() <= all.len(),
                all.skip(lines@.len() as int) == line_spans(bytes@, from as int),
                forall|i: int|
                    0 <= i < lines@.len() ==> {
                        &&& (#[trigger] lines@[i]).0 == self.start.0 + i
                        &&& lines@[i].1.spec_bytes() == bytes@.subrange(all[i].0, all[i].1)
                    },
            decreases len - from,
        {
            let mut stop: usize = from;
            while stop < len && bytes[stop] != NEWLINE
                invariant
                    from <= stop <= len,
                    len == bytes@.len(),
                    line_end(bytes@, stop as int) == line_end(bytes@, from as int),
                    forall|j: int| from <= j < stop ==> bytes@[j] != NEWLINE,
                decreases len - stop,
            {
                stop += 1;
            }
            let mut cut: usize = stop;
            if stop < len {
                proof {
                    lemma_boundary_at_ascii(bytes@, stop as int);
                    assert(line_end(bytes@, stop as int) == stop + 1);
                }
                stop += 1;
                if cut > from && bytes[cut - 1] == 13 {
                    cut -= 1;
                    proof {
                        lemma_boundary_at_ascii(bytes@, cut as int);
                    }
                }
            } else {
                assert(line_end(bytes@, stop as int) == len);
            }
            proof {
                let rest = line_spans(bytes@, from as int);
                assert(rest == seq![(from as int, cut as int)] + line_spans(bytes@, stop as int));
                assert(rest.len() > 0);
                assert(all.skip(lines@.len() as int)[0] == rest[0]);
                assert(all.skip(lines@.len() as int + 1) =~= rest.skip(1));
                assert(rest.skip(1) =~= line_spans(bytes@, stop as int));
            }
            let number: usize = self.start.0 + lines.len();
            let line = substring(text, from, cut);
            lines.push((number, line));
            from = stop;
        }
        proof {
            assert(line_spans(bytes@, from as int).len() == 0);
            assert(all.skip(lines@.len() as int).len() == 0);
        }
        lines
    }
}

/// What the characters of `chars` from `i` on are shown as on one line: line feed,
/// carriage return and tab as `\n`, `\r` and `\t`, and every other character as itself.
pub open spec fn on_one_line(chars: Seq<char>, i: int) -> Seq<char>
    decreases chars.len() - i,
{
    if 0 <= i < chars.len() {
        let c = chars[i];
        if c == '\n' {
            seq!['\\', 'n'] + on_one_line(chars, i + 1)
        } else if c == '\r' {
            seq!['\\', 'r'] + on_one_line(chars, i + 1)
        } else if c == '\t' {
            seq!['\\', 't'] + on_one_line(chars, i + 1)
        } else {
            seq![c] + on_one_line(chars, i + 1)
        }
    } else {
        Seq::empty()
    }
}

/// Shows `text` on one line.
pub fn one_line(text: &str) -> (r: String)
    ensures
        r@ == on_one_line(text@, 0),
{
    broadcast use vstd::string::group_string_axioms;

    let mut shown = String::new();
    let mut chars = text.chars();
    let ghost mut i: int = 0;
    loop
        invariant
            0 <= i <= text@.len(),
            chars.remaining() == text@.skip(i),
            shown@ + on_one_line(text@, i) == on_one_line(text@, 0),
        ensures
            shown@ == on_one_line(text@, 0),
        decreases text@.len() - i,
    {
        match chars.next() {
            None => {
                assert(text@.skip(i).len() == 0);
                assert(shown@ + Seq::<char>::empty() =~= shown@);
                break;
            },
            Some(c) => {
                assert(c == text@[i]);
                let ghost before = shown@;
                if c == '\n' {
                    shown.push('\\');
                    shown.push('n');
                    assert(shown@ =~= before + seq!['\\', 'n']);
                } else if c == '\r' {
                    shown.push('\\');
                    shown.push('r');
                    assert(shown@ =~= before + seq!['\\', 'r']);
                } else if c == '\t' {
                    shown.push('\\');
                    shown.push('t');
                    assert(shown@ =~= before + seq!['\\', 't']);
                } else {
                    shown.push(c);
                    assert(shown@ =~= before + seq![c]);
                }
                proof {
                    assert(text@.skip(i).drop_first() == text@.skip(i + 1));
                    i = i + 1;
                }
            },
        }
    }
    shown
}

impl<'a> SourceRef<'a> {
    /// What the reference is shown as to one who debugs: the name of the source text and the
    /// piece on one line, or the numbers that tell that the piece does not lie within the
    /// source text.
    pub open spec fn debug_shown(&self) -> Seq<char> {
        let len = self.bytes().len();
        if self.offset < len && self.offset + self.size <= len {
            "SourceRef<'"@ + self.name@ + "', \""@ + on_one_line(
                vstd::utf8::decode_utf8(self.text()),
                0,
            ) + "\">"@
        } else {
            "SourceRef<'"@ + self.name@ + "', !OUT_OF_BOUNDS ("@ + digits(self.offset as nat)
                + " > "@ + digits(len) + " || "@ + digits((self.offset + self.size) as nat)
                + " >= "@ + digits(len) + ")!>"@
        }
    }

    /// Shows the reference to one who debugs.
    pub fn debug_text(&self) -> (r: String)
        requires
            self.offset + self.size <= usize::MAX,
            self.wf() ==> self.on_boundaries(),
        ensures
            r@ == self.debug_shown(),
    {
        let len: usize = byte_len(self.source);
        let mut text = String::from_str("SourceRef<'");
        text.append(self.name);
        if self.offset < len && self.offset + self.size <= len {
            let piece = self.as_str();
            proof {
                vstd::utf8::encode_utf8_decode_utf8(piece@);
            }
            let shown = one_line(piece);
            text.append("', \"");
            text.append(shown.as_str());
            text.append("\">");
        } else {
            let offset = number(self.offset);
            let end = number(self.offset + self.size);
            let length = number(len);
            text.append("', !OUT_OF_BOUNDS (");
            text.append(offset.as_str());
            text.append(" > ");
            text.append(length.as_str());
            text.append(" || ");
            text.append(end.as_str());
            text.append(" >= ");
            text.append(length.as_str());
            text.append(")!>");
        }
        text
    }
}

impl<'a> PartialEq for SourceRef<'a> {
    fn eq(&self, other: &Self) -> (r: bool)
    {
        str_eq(self.name, other.name) && self.offset == other.offset && self.size == other.size
    }
}

impl<'a> vstd::std_specs::cmp::PartialEqSpecImpl for SourceRef<'a> {
    open spec fn obeys_eq_spec() -> bool {
        true
    }

    /// Two references are equal where they bear the same name and hold the same range.
    open spec fn eq_spec(&self, other: &Self) -> bool {
        self.same_as(other)
    }
}

impl PartialEq for SourceText {
    fn eq(&self, other: &Self) -> (r: bool)
    {
        str_eq(self.source.as_str(), other.source.as_str()) && self.offset == other.offset
            && self.size == other.size
    }
}

impl vstd::std_specs::cmp::PartialEqSpecImpl for SourceText {
    open spec fn obeys_eq_spec() -> bool {
        true
    }

    /// Two texts are equal where they hold the same lines and the same range in them.
    open spec fn eq_spec(&self, other: &Self) -> bool {
        self.source@ == other.source@ && self.offset == other.offset && self.size == other.size
    }
}

} // verus!

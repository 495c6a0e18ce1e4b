//! The answer to a client that asked for a host that no mapping knows: a minimal HTTP
//! response around the not-found page.

use std::fmt::Write;
use vstd::prelude::*;
use vstd::string::{StrSliceExecFns, StringSliceAdditionalSpecFns};
use vstd::utf8::encode_utf8;
use crate::bytes::views;

verus! {

/// The number of parts that the answer is written in.
pub const PARTS: usize = 9;

/// The decimal digits of `n`, as ASCII bytes, without leading zeros.
pub open spec fn decimal(n: nat) -> Seq<u8>
    decreases n,
{
    if n < 10 {
        seq![(48 + n) as u8]
    } else {
        decimal(n / 10).push((48 + n % 10) as u8)
    }
}

/// The number that the ASCII digits `digits` write in decimal.
pub open spec fn decimal_value(digits: Seq<u8>) -> nat
    decreases digits.len(),
{
    if digits.len() == 0 {
        0
    } else {
        (10 * decimal_value(digits.drop_last()) + (digits.last() - 48)) as nat
    }
}

/// The digits of a number write that number, and all of them are digits.
pub proof fn law_decimal_round_trip(n: nat)
    ensures
        decimal_value(decimal(n)) == n,
        decimal(n).len() >= 1,
        forall|i: int| 0 <= i < decimal(n).len() ==> 48 <= #[trigger] decimal(n)[i] <= 57,
    decreases n,
{
    if n < 10 {
        assert(decimal(n).drop_last() =~= Seq::<u8>::empty());
        assert(decimal_value(decimal(n).drop_last()) == 0);
    } else {
        law_decimal_round_trip(n / 10);
        assert(decimal(n).drop_last() =~= decimal(n / 10));
    }
}

/// Writes `n` in decimal.
pub fn decimal_text(n: usize) -> (r: Vec<u8>)
    ensures
        r@ == decimal(n as nat),
    decreases n,
{
    if n < 10 {
        let mut text: Vec<u8> = Vec::new();
        text.push(48 + n as u8);
        assert(text@ =~= decimal(n as nat));
        text
    } else {
        let mut text = decimal_text(n / 10);
        text.push(48 + (n % 10) as u8);
        text
    }
}

/// The line that tells the client when the answer was made, around the date `stamp`.
pub open spec fn date_line(stamp: Seq<char>) -> Seq<u8> {
    "Date: ".spec_bytes() + encode_utf8(stamp) + "\r\n".spec_bytes()
}

/// The parts of the answer, in the order in which they are written: the status line, the
/// date, the server, the length of the page in three parts, the type of the page, the
/// header that ends the headers, and the page.
pub open spec fn not_found_parts(stamp: Seq<char>, html: Seq<u8>) -> Seq<Seq<u8>> {
    seq![
        "HTTP/1.1 200 OK\r\n".spec_bytes(),
        date_line(stamp),
        "Server: rust-proxy/0.1.0\r\n".spec_bytes(),
        "Content-Length: ".spec_bytes(),
        decimal(html.len()),
        "\r\n".spec_bytes(),
        "Content-Type: text/html\r\n".spec_bytes(),
        "Connection: Closed\r\n\r\n".spec_bytes(),
        html,
    ]
}

/// The whole answer: its parts, one behind the other.
pub open spec fn not_found_response(stamp: Seq<char>, html: Seq<u8>) -> Seq<u8> {
    "HTTP/1.1 200 OK\r\n".spec_bytes() + date_line(stamp)
        + "Server: rust-proxy/0.1.0\r\n".spec_bytes() + "Content-Length: ".spec_bytes() + decimal(
        html.len(),
    ) + "\r\n".spec_bytes() + "Content-Type: text/html\r\n".spec_bytes()
        + "Connection: Closed\r\n\r\n".spec_bytes() + html
}

/// The parts of `parts` from the first up to part `n`, one behind the other.
pub open spec fn joined(parts: Seq<Seq<u8>>, n: int) -> Seq<u8>
    decreases n,
{
    if 0 < n <= parts.len() {
        joined(parts, n - 1) + parts[n - 1]
    } else {
        Seq::empty()
    }
}

/// The answer begins with the status line `HTTP/1.1 200 OK`, ends with the page, and is
/// what its parts make up.
pub proof fn law_response_shape(stamp: Seq<char>, html: Seq<u8>)
    ensures
        not_found_parts(stamp, html).len() == PARTS,
        joined(not_found_parts(stamp, html), PARTS as int) == not_found_response(stamp, html),
        "HTTP/1.1 200 OK\r\n".spec_bytes().is_prefix_of(not_found_response(stamp, html)),
        html.is_suffix_of(not_found_response(stamp, html)),
{
    let parts = not_found_parts(stamp, html);
    let whole = not_found_response(stamp, html);
    reveal_with_fuel(joined, 10);
    assert(joined(parts, 0) + parts[0] =~= parts[0]);
    assert(joined(parts, 9) =~= whole);
    let status = "HTTP/1.1 200 OK\r\n".spec_bytes();
    assert(whole.subrange(0, status.len() as int) =~= status);
    assert(whole.subrange(whole.len() - html.len(), whole.len() as int) =~= html);
}

/// The length that the answer announces is the length of the page: the header
/// `Content-Length` holds the digits of that number and nothing else.
pub proof fn law_content_length(stamp: Seq<char>, html: Seq<u8>)
    ensures
        not_found_parts(stamp, html)[3] == "Content-Length: ".spec_bytes(),
        decimal_value(not_found_parts(stamp, html)[4]) == html.len(),
        not_found_parts(stamp, html)[5] == "\r\n".spec_bytes(),
{
    law_decimal_round_trip(html.len());
}

/// The last second of the year 9999, counted from 1970.
pub const LAST_SECOND: i64 = 253_402_300_799;

/// The date and time of the second `secs` since 1970 in UTC, written as `format` says in
/// the way of `strftime`; nothing where the calendar of `chrono` does not reach that
/// second, or where `format` is no format.
pub uninterp spec fn date_text(secs: int, format: Seq<char>) -> Option<Seq<char>>;

/// The format in which HTTP writes dates: `Sun, 06 Nov 1994 08:49:37 GMT`.
pub open spec fn http_date_format() -> Seq<char> {
    "%a, %d %b %Y %H:%M:%S GMT"@
}

/// The date that the second `secs` since 1970 falls on, as HTTP writes dates.
pub open spec fn http_date_text(secs: int) -> Option<Seq<char>> {
    date_text(secs, http_date_format())
}

/// `chrono::DateTime::from_timestamp` and `chrono::DateTime::format`: the date of the second
/// `secs` since 1970 in UTC, written as `format` says. The text depends on `secs` and
/// `format` alone. There is none where `from_timestamp` gives no date, or where the
/// writing fails, as it does for what is no format.
///
/// For the seconds of the years 1970 to 9999 and the format of HTTP there is a text:
/// `from_timestamp` reaches 260000 years to either side, and every item of that format is
/// one that `strftime` knows and that a date with a time can be written with.
#[verifier::external_body]
fn format_date(secs: i64, format: &str) -> (r: Option<String>)
    ensures
        match r {
            Some(text) => date_text(secs as int, format@) == Some(text@),
            None => date_text(secs as int, format@) is None,
        },
        0 <= secs <= LAST_SECOND && format@ == http_date_format() ==> r is Some,
{
    let at = chrono::DateTime::from_timestamp(secs, 0)?;
    let mut text = String::new();
    match write!(text, "{}", at.format(format)) {
        Ok(()) => Some(text),
        Err(_) => None,
    }
}

/// Makes the answer around the page `html`, dated `stamp`.
pub fn not_found_answer(stamp: &str, html: &[u8]) -> (parts: Vec<Vec<u8>>)
    ensures
        views(parts) == not_found_parts(stamp@, html@),
{
    let mut date: Vec<u8> = "Date: ".as_bytes_vec();
    let mut text: Vec<u8> = stamp.as_bytes_vec();
    let mut end: Vec<u8> = "\r\n".as_bytes_vec();
    date.append(&mut text);
    date.append(&mut end);
    let mut page: Vec<u8> = Vec::new();
    page.extend_from_slice(html);
    assert(page@ =~= html@);
    let mut parts: Vec<Vec<u8>> = Vec::new();
    parts.push("HTTP/1.1 200 OK\r\n".as_bytes_vec());
    parts.push(date);
    parts.push("Server: rust-proxy/0.1.0\r\n".as_bytes_vec());
    parts.push("Content-Length: ".as_bytes_vec());
    parts.push(decimal_text(html.len()));
    parts.push("\r\n".as_bytes_vec());
    parts.push("Content-Type: text/html\r\n".as_bytes_vec());
    parts.push("Connection: Closed\r\n\r\n".as_bytes_vec());
    parts.push(page);
    assert(views(parts) =~= not_found_parts(stamp@, html@));
    parts
}

/// Makes the answer around the page `not_found_html` for a client that is answered at the
/// second `now` since 1970. There is no answer where that second has no date; every second
/// of the years 1970 to 9999 has one.
pub fn write_not_found_file(now: i64, not_found_html: &[u8]) -> (r: Option<Vec<Vec<u8>>>)
    ensures
        match r {
            Some(parts) => http_date_text(now as int) is Some && views(parts)
                == not_found_parts(http_date_text(now as int)->0, not_found_html@),
            None => http_date_text(now as int) is None,
        },
        0 <= now <= LAST_SECOND ==> r is Some,
{
    match format_date(now, "%a, %d %b %Y %H:%M:%S GMT") {
        Some(stamp) => Some(not_found_answer(stamp.as_str(), not_found_html)),
        None => None,
    }
}

/// What is done next to send an answer.
#[derive(Clone, Copy, Debug, PartialEq, Eq, Structural)]
pub enum WriteStep {
    /// The part with this index is written.
    Write(usize),
    /// All parts are written: the connection is flushed.
    Flush,
    /// Nothing more is done.
    Stop,
}

/// What is done next to send an answer of `parts` parts, when `done` steps were taken and
/// `failed` tells whether one of them failed. Each part is written once, in order; the
/// first failure ends the writing; the flush comes last and nothing follows it.
pub open spec fn next_step(parts: int, done: int, failed: bool) -> WriteStep {
    if failed || done > parts || done < 0 {
        WriteStep::Stop
    } else if done < parts {
        WriteStep::Write(done as usize)
    } else {
        WriteStep::Flush
    }
}

/// Says what is done next to send an answer of `parts` parts, after `done` steps, of which
/// one failed if `failed` is set.
pub fn next_write(parts: usize, done: usize, failed: bool) -> (r: WriteStep)
    ensures
        r == next_step(parts as int, done as int, failed),
{
    if failed || done > parts {
        WriteStep::Stop
    } else if done < parts {
        WriteStep::Write(done)
    } else {
        WriteStep::Flush
    }
}

} // verus!

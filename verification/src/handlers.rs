//! What becomes of a connection, decided from the first bytes that it sent.

use vstd::prelude::*;
use vstd::string::StringSliceAdditionalSpecFns;
use vstd::utf8::{decode_utf8, valid_utf8};
use crate::config::{resolved, CertEntry, CertStore, Config};
use crate::bytes::{copy_of, matches_at, occurs_at, views};
use crate::not_found::{http_date_text, not_found_parts, write_not_found_file, LAST_SECOND};

verus! {

/// The number of bytes of a connection that are looked at before it is routed.
pub const BUFFER_LEN: usize = 8192;

/// The byte `\r`.
pub const CARRIAGE_RETURN: u8 = 13;

/// The byte `\n`.
pub const LINE_FEED: u8 = 10;

/// The byte `:`.
pub const COLON: u8 = 58;

/// What a header line that names the host begins with.
pub open spec fn host_prefix() -> Seq<u8> {
    "Host: ".spec_bytes()
}

/// What the request line of a `GET` request begins with.
pub open spec fn get_prefix() -> Seq<u8> {
    "GET ".spec_bytes()
}

/// What separates the path of a request line from the protocol version.
pub open spec fn version_marker() -> Seq<u8> {
    " HTTP/".spec_bytes()
}

/// What the path of an ACME HTTP-01 challenge begins with.
pub open spec fn certbot_path_prefix() -> Seq<u8> {
    "/.well-known/acme-challenge/".spec_bytes()
}

/// The bytes of the four markers, one by one.
pub proof fn lemma_marker_bytes()
    ensures
        host_prefix() =~= seq![72u8, 111u8, 115u8, 116u8, 58u8, 32u8],
        get_prefix() =~= seq![71u8, 69u8, 84u8, 32u8],
        version_marker() =~= seq![32u8, 72u8, 84u8, 84u8, 80u8, 47u8],
        certbot_path_prefix().len() == 28,
        certbot_path_prefix()[0] == 47u8,
        forall|i: int| 0 <= i < 28 ==> certbot_path_prefix()[i] != 32u8,
{
    reveal_strlit("Host: ");
    reveal_strlit("GET ");
    reveal_strlit(" HTTP/");
    reveal_strlit("/.well-known/acme-challenge/");
    vstd::utf8::is_ascii_chars_encode_utf8("Host: "@);
    vstd::utf8::is_ascii_chars_encode_utf8("GET "@);
    vstd::utf8::is_ascii_chars_encode_utf8(" HTTP/"@);
    vstd::utf8::is_ascii_chars_encode_utf8("/.well-known/acme-challenge/"@);
}

/// Whether the scan, as it comes to byte `i`, holds a `\r` that a `\n` would close a line with.
/// A `\r` that directly follows such a `\r` is not held: of a run of `\r` bytes only an odd
/// one ends in a held `\r`.
pub open spec fn cr_pending(buf: Seq<u8>, i: int) -> bool
    decreases i,
{
    if 0 < i <= buf.len() {
        buf[i - 1] == CARRIAGE_RETURN && !cr_pending(buf, i - 1)
    } else {
        false
    }
}

/// Whether a line ends with the byte at `i`: a `\n` that closes a held `\r`.
pub open spec fn line_ends_at(buf: Seq<u8>, i: int) -> bool {
    0 <= i < buf.len() && buf[i] == LINE_FEED && cr_pending(buf, i)
}

/// The index of the first `:` of `rest` at or after `i`, or the length of `rest` where there is
/// none.
pub open spec fn colon_from(rest: Seq<u8>, i: int) -> int
    decreases rest.len() - i,
{
    if 0 <= i < rest.len() && rest[i] != COLON {
        colon_from(rest, i + 1)
    } else if 0 <= i < rest.len() {
        i
    } else {
        rest.len() as int
    }
}

/// The length of the host name in what follows `Host: ` on its line: all of it, or what stands
/// before the first `:`, so that a port is left out.
pub open spec fn host_len(rest: Seq<u8>) -> int {
    colon_from(rest, 0)
}

/// Where the search for the version marker cuts `rest`. The search looks at one byte after the
/// other, from the last to the first; `i` bytes are not yet looked at, and the `k` bytes looked at
/// last are the last `k` of the marker. A byte that does not go on with the marker sets `k` back
/// to none, and is itself not looked at again. The result is the index of the marker's first byte,
/// or the length of `rest` where the search comes to the front without finding it.
pub open spec fn cut_from(rest: Seq<u8>, i: int, k: int) -> int
    decreases i,
{
    if 0 < i <= rest.len() && 0 <= k < 6 {
        if rest[i - 1] == version_marker()[5 - k] {
            if k == 5 {
                i - 1
            } else {
                cut_from(rest, i - 1, k + 1)
            }
        } else {
            cut_from(rest, i - 1, 0)
        }
    } else {
        rest.len() as int
    }
}

/// The length of the request path in what follows `GET ` on its line: what stands before the
/// version marker that the search from the back finds, or all of it.
pub open spec fn path_len(rest: Seq<u8>) -> int {
    cut_from(rest, rest.len() as int, 0)
}

/// Whether `line` names the host.
pub open spec fn is_host_line(line: Seq<u8>) -> bool {
    occurs_at(line, 0, host_prefix())
}

/// Whether `line` is the request line of a `GET` request.
pub open spec fn is_get_line(line: Seq<u8>) -> bool {
    occurs_at(line, 0, get_prefix())
}

/// Whether `line` asks for a path of the ACME HTTP-01 challenge.
pub open spec fn is_challenge_line(line: Seq<u8>) -> bool {
    is_get_line(line) && occurs_at(line.subrange(4, 4 + path_len(line.skip(4))), 0, certbot_path_prefix())
}

/// What the scan of the first bytes of a connection found. The indices are those of the bytes
/// that were scanned.
#[derive(Clone, Copy, Debug, PartialEq, Eq, Structural)]
pub enum Sniffed {
    /// No complete line decides anything.
    Nothing,
    /// A line names the host: the name is the bytes from `start` up to `end`.
    Host { start: usize, end: usize },
    /// A line asks for an ACME challenge: its path is the bytes from `start` up to `end`.
    Challenge { start: usize, end: usize },
}

/// What the line that starts at `ptr` and ends before `end` decides, if anything. A line that
/// names the host decides first; a challenge is looked for only where `certbot` is set.
pub open spec fn line_decides(buf: Seq<u8>, ptr: int, end: int, certbot: bool) -> Option<Sniffed> {
    let line = buf.subrange(ptr, end);
    if is_host_line(line) {
        Some(
            Sniffed::Host {
                start: (ptr + 6) as usize,
                end: (ptr + 6 + host_len(line.skip(6))) as usize,
            },
        )
    } else if certbot && is_challenge_line(line) {
        Some(
            Sniffed::Challenge {
                start: (ptr + 4) as usize,
                end: (ptr + 4 + path_len(line.skip(4))) as usize,
            },
        )
    } else {
        None
    }
}

/// What the scan finds from byte `i` on, when the line that it is in starts at `ptr`: the
/// decision of the first complete line that decides anything. A line is complete where
/// [`line_ends_at`] holds; the `\r` and `\n` that end it are no part of it.
pub open spec fn scan_lines(buf: Seq<u8>, ptr: int, i: int, certbot: bool) -> Sniffed
    decreases buf.len() - i,
{
    if 0 <= i < buf.len() {
        if line_ends_at(buf, i) {
            match line_decides(buf, ptr, i - 1, certbot) {
                Some(found) => found,
                None => scan_lines(buf, i + 1, i + 1, certbot),
            }
        } else {
            scan_lines(buf, ptr, i + 1, certbot)
        }
    } else {
        Sniffed::Nothing
    }
}

/// What the scan of `buf` finds.
pub open spec fn sniffed(buf: Seq<u8>, certbot: bool) -> Sniffed {
    scan_lines(buf, 0, 0, certbot)
}

/// The length of the host name in `rest`, the bytes that follow `Host: ` on a line.
pub fn host_end(rest: &[u8]) -> (r: usize)
    ensures
        r == host_len(rest@),
        r <= rest@.len(),
{
    let mut k: usize = 0;
    while k < rest.len() && rest[k] != COLON
        invariant
            k <= rest@.len(),
            colon_from(rest@, k as int) == host_len(rest@),
        decreases rest@.len() - k,
    {
        k += 1;
    }
    k
}

/// The length of the request path in `rest`, the bytes that follow `GET ` on a line.
pub fn path_end(rest: &[u8]) -> (r: usize)
    ensures
        r == path_len(rest@),
        r <= rest@.len(),
{
    let marker = " HTTP/".as_bytes();
    proof {
        lemma_marker_bytes();
    }
    let mut i: usize = rest.len();
    let mut k: usize = 0;
    while i > 0
        invariant
            i <= rest@.len(),
            k < 6,
            marker@ == version_marker(),
            marker@.len() == 6,
            cut_from(rest@, i as int, k as int) == path_len(rest@),
        decreases i,
    {
        if rest[i - 1] == marker[5 - k] {
            if k == 5 {
                return i - 1;
            }
            k += 1;
        } else {
            k = 0;
        }
        i -= 1;
    }
    rest.len()
}

/// Scans the first bytes of a connection line by line, and stops at the first complete line
/// that names the host or, where `certbot` is set, asks for an ACME challenge.
pub fn sniff(buf: &[u8], certbot: bool) -> (r: Sniffed)
    ensures
        r == sniffed(buf@, certbot),
{
    proof {
        lemma_marker_bytes();
    }
    let mut ptr: usize = 0;
    let mut cr: bool = false;
    let mut i: usize = 0;
    while i < buf.len()
        invariant
            ptr <= i <= buf@.len(),
            cr == cr_pending(buf@, i as int),
            cr ==> ptr < i,
            host_prefix().len() == 6,
            get_prefix().len() == 4,
            scan_lines(buf@, ptr as int, i as int, certbot) == sniffed(buf@, certbot),
        decreases buf@.len() - i,
    {
        let b: u8 = buf[i];
        if cr && b == LINE_FEED {
            let line = &buf[ptr..i - 1];
            assert(line@ == buf@.subrange(ptr as int, i - 1));
            if matches_at(line, 0, "Host: ".as_bytes()) {
                let rest = &buf[ptr + 6..i - 1];
                assert(rest@ =~= line@.skip(6));
                let n: usize = host_end(rest);
                return Sniffed::Host { start: ptr + 6, end: ptr + 6 + n };
            }
            if certbot && matches_at(line, 0, "GET ".as_bytes()) {
                let rest = &buf[ptr + 4..i - 1];
                assert(rest@ =~= line@.skip(4));
                let n: usize = path_end(rest);
                let path = &buf[ptr + 4..ptr + 4 + n];
                assert(path@ =~= line@.subrange(4, 4 + n));
                if matches_at(path, 0, "/.well-known/acme-challenge/".as_bytes()) {
                    return Sniffed::Challenge { start: ptr + 4, end: ptr + 4 + n };
                }
            }
            ptr = i + 1;
            cr = false;
        } else {
            cr = !cr && b == CARRIAGE_RETURN;
        }
        i += 1;
    }
    Sniffed::Nothing
}

/// Why a connection is closed without an answer.
#[derive(Clone, Copy, Debug, PartialEq, Eq, Structural)]
pub enum Abort {
    /// The client closed the connection before it sent anything.
    Empty,
    /// No line names the host within the bytes that are looked at.
    NoHost,
    /// The host name is not valid UTF-8.
    InvalidHost,
    /// The not-found page is due, and the time of the answer has no date to send with it.
    NoDate,
    /// The TLS handshake named no host that a certificate is held for.
    Handshake,
}

/// Where a connection goes.
#[derive(Clone, Debug)]
pub enum Route {
    /// It is closed, and nothing is sent.
    Abort(Abort),
    /// It asks for an ACME challenge and goes to `target`, the certbot host. The path that is
    /// asked for is the bytes of the request from `start` up to `end`.
    Challenge { target: String, start: usize, end: usize },
    /// It asks for `host`, which no mapping knows: the not-found page is sent.
    NotFound { host: String },
    /// It asks for `host`, which `target` serves.
    Redirect { host: String, target: String },
}

/// A [`Route`] with its strings as sequences of characters.
pub enum RouteView {
    Abort(Abort),
    Challenge { target: Seq<char>, start: usize, end: usize },
    NotFound { host: Seq<char> },
    Redirect { host: Seq<char>, target: Seq<char> },
}

impl View for Route {
    type V = RouteView;

    open spec fn view(&self) -> RouteView {
        match *self {
            Route::Abort(why) => RouteView::Abort(why),
            Route::Challenge { target, start, end } => RouteView::Challenge {
                target: target@,
                start,
                end,
            },
            Route::NotFound { host } => RouteView::NotFound { host: host@ },
            Route::Redirect { host, target } => RouteView::Redirect { host: host@, target: target@ },
        }
    }
}

/// The bytes of a request that are looked at: the first [`BUFFER_LEN`] of them.
pub open spec fn window(request: Seq<u8>) -> Seq<u8> {
    if request.len() <= BUFFER_LEN {
        request
    } else {
        request.take(BUFFER_LEN as int)
    }
}

/// Where a connection goes that sent `request` first, under the mapping `hostnames` and with
/// the certbot host `certbot`, if there is one.
///
/// A challenge goes to the certbot host whatever host the request names. A host name is looked
/// up as it was sent, byte for byte: `Example.com` is not `example.com`.
pub open spec fn routed(
    hostnames: Map<Seq<char>, String>,
    certbot: Option<String>,
    request: Seq<u8>,
) -> RouteView {
    if request.len() == 0 {
        RouteView::Abort(Abort::Empty)
    } else {
        match sniffed(window(request), certbot is Some) {
            Sniffed::Nothing => RouteView::Abort(Abort::NoHost),
            Sniffed::Challenge { start, end } => RouteView::Challenge {
                target: certbot->0@,
                start,
                end,
            },
            Sniffed::Host { start, end } => {
                let name = request.subrange(start as int, end as int);
                if !valid_utf8(name) {
                    RouteView::Abort(Abort::InvalidHost)
                } else if hostnames.contains_key(decode_utf8(name)) {
                    RouteView::Redirect {
                        host: decode_utf8(name),
                        target: hostnames[decode_utf8(name)]@,
                    }
                } else {
                    RouteView::NotFound { host: decode_utf8(name) }
                }
            },
        }
    }
}

/// `std::str::from_utf8`: the string that `bytes` encode, if they are valid UTF-8, and nothing
/// if they are not.
#[verifier::external_body]
fn str_from_utf8(bytes: &[u8]) -> (r: Option<&str>)
    ensures
        r is Some <==> valid_utf8(bytes@),
        r matches Some(s) ==> s.spec_bytes() == bytes@,
{
    std::str::from_utf8(bytes).ok()
}

/// What the scan finds lies within the bytes that it was given, and it finds a challenge only
/// where it looks for one.
pub proof fn lemma_sniffed_in_bounds(buf: Seq<u8>, ptr: int, i: int, certbot: bool)
    requires
        0 <= ptr <= i <= buf.len() <= usize::MAX,
        cr_pending(buf, i) ==> ptr < i,
    ensures
        match scan_lines(buf, ptr, i, certbot) {
            Sniffed::Nothing => true,
            Sniffed::Host { start, end } => start <= end <= buf.len(),
            Sniffed::Challenge { start, end } => certbot && start <= end <= buf.len(),
        },
    decreases buf.len() - i,
{
    lemma_marker_bytes();
    if i < buf.len() {
        if line_ends_at(buf, i) {
            let line = buf.subrange(ptr, i - 1);
            if is_host_line(line) {
                lemma_colon_from_bounds(line.skip(6), 0);
            } else if certbot && is_challenge_line(line) {
                lemma_cut_from_bounds(line.skip(4), line.skip(4).len() as int, 0);
            } else {
                lemma_sniffed_in_bounds(buf, i + 1, i + 1, certbot);
            }
        } else {
            lemma_sniffed_in_bounds(buf, ptr, i + 1, certbot);
        }
    }
}

/// [`colon_from`] stays within the bytes.
pub proof fn lemma_colon_from_bounds(rest: Seq<u8>, i: int)
    requires
        0 <= i <= rest.len(),
    ensures
        i <= colon_from(rest, i) <= rest.len(),
    decreases rest.len() - i,
{
    if i < rest.len() && rest[i] != COLON {
        lemma_colon_from_bounds(rest, i + 1);
    }
}

/// [`cut_from`] stays within the bytes.
pub proof fn lemma_cut_from_bounds(rest: Seq<u8>, i: int, k: int)
    requires
        0 <= i <= rest.len(),
    ensures
        0 <= cut_from(rest, i, k) <= rest.len(),
    decreases i,
{
    if 0 < i && 0 <= k < 6 {
        if rest[i - 1] == version_marker()[5 - k] {
            if k != 5 {
                lemma_cut_from_bounds(rest, i - 1, k + 1);
            }
        } else {
            lemma_cut_from_bounds(rest, i - 1, 0);
        }
    }
}

/// Decides where a connection goes that sent `request` first.
pub fn route(config: &Config, request: &[u8]) -> (r: Route)
    ensures
        r@ == routed(config.hostnames@, config.certbot_hostname, request@),
{
    if request.len() == 0 {
        return Route::Abort(Abort::Empty);
    }
    let seen = if request.len() <= BUFFER_LEN {
        request
    } else {
        &request[0..BUFFER_LEN]
    };
    assert(seen@ =~= window(request@));
    proof {
        lemma_sniffed_in_bounds(seen@, 0, 0, config.certbot_hostname is Some);
    }
    match sniff(seen, config.certbot_hostname.is_some()) {
        Sniffed::Nothing => Route::Abort(Abort::NoHost),
        Sniffed::Challenge { start, end } => {
            match &config.certbot_hostname {
                Some(target) => Route::Challenge { target: target.clone(), start, end },
                None => Route::Abort(Abort::NoHost),
            }
        },
        Sniffed::Host { start, end } => {
            let name = &request[start..end];
            match str_from_utf8(name) {
                None => Route::Abort(Abort::InvalidHost),
                Some(host) => {
                    proof {
                        vstd::utf8::encode_utf8_decode_utf8(host@);
                    }
                    match config.hostnames.get(host) {
                        Some(target) => Route::Redirect {
                            host: host.to_owned(),
                            target: target.clone(),
                        },
                        None => Route::NotFound { host: host.to_owned() },
                    }
                },
            }
        },
    }
}

/// What is done with a connection.
#[derive(Debug)]
pub enum Action {
    /// It is closed, and nothing is sent.
    Close(Abort),
    /// The parts of the not-found answer are written to the client, then it is closed.
    Reply { parts: Vec<Vec<u8>> },
    /// A connection to `target` is opened, `buffered` is written to it first, and from then on
    /// every byte of either side is copied to the other.
    Forward { target: String, buffered: Vec<u8> },
}

/// An [`Action`] with its strings and bytes as sequences.
pub enum ActionView {
    Close(Abort),
    Reply { parts: Seq<Seq<u8>> },
    Forward { target: Seq<char>, buffered: Seq<u8> },
}

impl View for Action {
    type V = ActionView;

    open spec fn view(&self) -> ActionView {
        match *self {
            Action::Close(why) => ActionView::Close(why),
            Action::Reply { parts } => ActionView::Reply { parts: views(parts) },
            Action::Forward { target, buffered } => ActionView::Forward {
                target: target@,
                buffered: buffered@,
            },
        }
    }
}

/// What is done with a plain connection that sent `request` first and is answered at the
/// second `now` since 1970, where `html` is the not-found page.
///
/// What is forwarded is all of `request`, as it came: the target sees every byte that the
/// client sent, those that were looked at too.
pub open spec fn handled(
    hostnames: Map<Seq<char>, String>,
    certbot: Option<String>,
    html: Seq<u8>,
    now: int,
    request: Seq<u8>,
) -> ActionView {
    match routed(hostnames, certbot, request) {
        RouteView::Abort(why) => ActionView::Close(why),
        RouteView::Challenge { target, start, end } => ActionView::Forward {
            target,
            buffered: request,
        },
        RouteView::Redirect { host, target } => ActionView::Forward { target, buffered: request },
        RouteView::NotFound { host } => match http_date_text(now) {
            Some(stamp) => ActionView::Reply { parts: not_found_parts(stamp, html) },
            None => ActionView::Close(Abort::NoDate),
        },
    }
}

/// Handles a plain connection from the bytes `request` that one read of it gave: decides
/// where it goes, and makes the answer where the answer is the not-found page
/// `not_found_html`. `now` is the time of the answer, in seconds since 1970.
///
/// A host that no mapping knows is answered with the page at every second of the years
/// 1970 to 9999: only a second that has no date leaves the connection without an answer.
pub fn handle_http(config: &Config, not_found_html: &[u8], now: i64, request: &[u8]) -> (r: Action)
    ensures
        r@ == handled(
            config.hostnames@,
            config.certbot_hostname,
            not_found_html@,
            now as int,
            request@,
        ),
        0 <= now <= LAST_SECOND ==> (r@ is Reply <==> routed(
            config.hostnames@,
            config.certbot_hostname,
            request@,
        ) is NotFound) && r@ != ActionView::Close(Abort::NoDate),
{
    match route(config, request) {
        Route::Abort(why) => Action::Close(why),
        Route::Challenge { target, start, end } => Action::Forward {
            target,
            buffered: copy_of(request),
        },
        Route::Redirect { host, target } => Action::Forward { target, buffered: copy_of(request) },
        Route::NotFound { host } => match write_not_found_file(now, not_found_html) {
            Some(parts) => Action::Reply { parts },
            None => Action::Close(Abort::NoDate),
        },
    }
}

/// What is done with a TLS connection whose handshake named `server_name`, if it named a
/// host, and whose first bytes in the clear are `request`. Without an entry for that very
/// name there is no certificate to answer with and the handshake fails; behind the
/// handshake a connection is handled as a plain one is.
pub open spec fn handled_tls(
    entries: Map<Seq<char>, CertEntry>,
    server_name: Option<Seq<char>>,
    hostnames: Map<Seq<char>, String>,
    certbot: Option<String>,
    html: Seq<u8>,
    now: int,
    request: Seq<u8>,
) -> ActionView {
    if resolved(entries, server_name) is None {
        ActionView::Close(Abort::Handshake)
    } else {
        handled(hostnames, certbot, html, now, request)
    }
}

/// Handles a TLS connection: `server_name` is the name that its handshake asked a
/// certificate for, and `request` the bytes that one read of the decrypted stream gave.
pub fn handle_https(
    config: &Config,
    not_found_html: &[u8],
    tls_config: &CertStore,
    server_name: Option<&str>,
    now: i64,
    request: &[u8],
) -> (r: Action)
    ensures
        r@ == handled_tls(
            tls_config.entries@,
            match server_name {
                Some(name) => Some(name@),
                None => None,
            },
            config.hostnames@,
            config.certbot_hostname,
            not_found_html@,
            now as int,
            request@,
        ),
        0 <= now <= LAST_SECOND ==> r@ != ActionView::Close(Abort::NoDate),
{
    match tls_config.resolve(server_name) {
        Some(_) => handle_http(config, not_found_html, now, request),
        None => Action::Close(Abort::Handshake),
    }
}

} // verus!

//! What holds of every request: the routing decisions, stated over whole classes of input.

use vstd::prelude::*;
use vstd::string::StringSliceAdditionalSpecFns;
use vstd::utf8::{encode_utf8, valid_utf8};
use crate::bytes::occurs_at;
use crate::config::{resolved, CertEntry};
use crate::handlers::{
    certbot_path_prefix, colon_from, cr_pending, cut_from, get_prefix, handled, handled_tls,
    host_prefix, is_challenge_line, is_get_line, is_host_line, lemma_cut_from_bounds,
    lemma_marker_bytes, line_decides, line_ends_at, path_len, routed, scan_lines, sniffed,
    version_marker, window, Abort, ActionView, BUFFER_LEN, CARRIAGE_RETURN, COLON, LINE_FEED,
    RouteView, Sniffed,
};
use crate::not_found::{
    decimal_value, http_date_text, joined, law_content_length, law_response_shape, not_found_parts,
    PARTS,
};

verus! {

/// Whether the bytes of `buf` from `start` up to `end` are a complete line: it starts at the
/// front or behind the end of a line, a line ends with the two bytes behind it, and none
/// ends before that.
pub open spec fn complete_line(buf: Seq<u8>, start: int, end: int) -> bool {
    &&& 0 <= start <= end
    &&& start == 0 || line_ends_at(buf, start - 1)
    &&& line_ends_at(buf, end + 1)
    &&& forall|j: int| start <= j <= end ==> !line_ends_at(buf, j)
}

/// The request line of a challenge, up to the end of the prefix of its path.
pub open spec fn challenge_prefix() -> Seq<u8> {
    get_prefix() + certbot_path_prefix()
}

/// Where the search for the version marker cuts, a space stands.
pub proof fn lemma_cut_at_space(rest: Seq<u8>, i: int, k: int)
    requires
        0 <= i <= rest.len(),
    ensures
        cut_from(rest, i, k) < rest.len() ==> 0 <= cut_from(rest, i, k) && rest[cut_from(
            rest,
            i,
            k,
        )] == 32u8,
    decreases i,
{
    lemma_marker_bytes();
    if 0 < i && 0 <= k < 6 {
        if rest[i - 1] == version_marker()[5 - k] {
            if k != 5 {
                lemma_cut_at_space(rest, i - 1, k + 1);
            }
        } else {
            lemma_cut_at_space(rest, i - 1, 0);
        }
    }
}

/// A line asks for a challenge exactly when it begins with `GET ` and the prefix of the
/// challenge paths: what the search for the version marker cuts off lies behind the prefix.
pub proof fn law_challenge_by_prefix(line: Seq<u8>)
    ensures
        is_challenge_line(line) <==> occurs_at(line, 0, challenge_prefix()),
{
    lemma_marker_bytes();
    let pre = certbot_path_prefix();
    if is_get_line(line) {
        let rest = line.skip(4);
        let n = path_len(rest);
        lemma_cut_from_bounds(rest, rest.len() as int, 0);
        lemma_cut_at_space(rest, rest.len() as int, 0);
        let path = line.subrange(4, 4 + n);
        if occurs_at(line, 0, challenge_prefix()) {
            assert forall|j: int| 0 <= j < 28 implies rest[j] == pre[j] by {
                assert(line.subrange(0, 32)[4 + j] == challenge_prefix()[4 + j]);
            }
            if n < 28 {
                assert(rest[n] == 32u8);
                assert(pre[n] != 32u8);
            }
            assert(path.subrange(0, 28) =~= pre);
        }
        if is_challenge_line(line) {
            assert forall|j: int| 0 <= j < 32 implies line[j] == challenge_prefix()[j] by {
                if j < 4 {
                    assert(line.subrange(0, 4)[j] == get_prefix()[j]);
                } else {
                    assert(path.subrange(0, 28)[j - 4] == pre[j - 4]);
                }
            }
            assert(line.subrange(0, 32) =~= challenge_prefix());
        }
    } else {
        if occurs_at(line, 0, challenge_prefix()) {
            assert forall|j: int| 0 <= j < 4 implies line[j] == get_prefix()[j] by {
                assert(line.subrange(0, 32)[j] == challenge_prefix()[j]);
            }
            assert(line.subrange(0, 4) =~= get_prefix());
        }
    }
}

/// Where no line ends from `i` up to `to`, the scan goes on at `to` as it stood at `i`.
pub proof fn lemma_scan_skips(buf: Seq<u8>, ptr: int, i: int, to: int, certbot: bool)
    requires
        0 <= i <= to <= buf.len(),
        forall|j: int| i <= j < to ==> !line_ends_at(buf, j),
    ensures
        scan_lines(buf, ptr, i, certbot) == scan_lines(buf, ptr, to, certbot),
    decreases to - i,
{
    if i < to {
        lemma_scan_skips(buf, ptr, i + 1, to, certbot);
    }
}

/// Without a `:` the host name is all that follows `Host: `.
pub proof fn lemma_no_colon(rest: Seq<u8>, i: int)
    requires
        0 <= i <= rest.len(),
        forall|j: int| 0 <= j < rest.len() ==> rest[j] != COLON,
    ensures
        colon_from(rest, i) == rest.len(),
    decreases rest.len() - i,
{
    if i < rest.len() {
        lemma_no_colon(rest, i + 1);
    }
}

/// Where no complete line decides anything, the scan finds nothing.
pub proof fn lemma_scan_finds_nothing(buf: Seq<u8>, ptr: int, i: int, certbot: bool)
    requires
        0 <= ptr <= i <= buf.len(),
        ptr == 0 || line_ends_at(buf, ptr - 1),
        forall|j: int| ptr <= j < i ==> !line_ends_at(buf, j),
        forall|s: int, e: int| #[trigger]
            complete_line(buf, s, e) ==> line_decides(buf, s, e, certbot) is None,
    ensures
        scan_lines(buf, ptr, i, certbot) == Sniffed::Nothing,
    decreases buf.len() - i,
{
    if i < buf.len() {
        if line_ends_at(buf, i) {
            assert(cr_pending(buf, i));
            assert(i >= 1);
            if ptr == i {
                if ptr > 0 {
                    assert(buf[ptr - 1] == LINE_FEED);
                }
                assert(false);
            }
            assert(complete_line(buf, ptr, i - 1));
            lemma_scan_finds_nothing(buf, i + 1, i + 1, certbot);
        } else {
            lemma_scan_finds_nothing(buf, ptr, i + 1, certbot);
        }
    }
}

/// Where a complete line asks for a challenge and no complete line before it names the
/// host, the scan that looks for challenges finds one.
pub proof fn lemma_scan_finds_challenge(buf: Seq<u8>, ptr: int, i: int, start: int, end: int)
    requires
        0 <= ptr <= i <= buf.len(),
        ptr == 0 || line_ends_at(buf, ptr - 1),
        forall|j: int| ptr <= j < i ==> !line_ends_at(buf, j),
        ptr <= start,
        i <= end + 1,
        complete_line(buf, start, end),
        is_challenge_line(buf.subrange(start, end)),
        forall|s: int, e: int| #[trigger]
            complete_line(buf, s, e) && e < start ==> !is_host_line(buf.subrange(s, e)),
    ensures
        scan_lines(buf, ptr, i, true) is Challenge,
    decreases buf.len() - i,
{
    lemma_marker_bytes();
    if i < buf.len() {
        if line_ends_at(buf, i) {
            assert(cr_pending(buf, i));
            if ptr == i {
                if ptr > 0 {
                    assert(buf[ptr - 1] == LINE_FEED);
                }
                assert(false);
            }
            if ptr == start {
                assert(i == end + 1);
                let line = buf.subrange(start, end);
                assert(line.subrange(0, 4)[0] == get_prefix()[0]);
                if is_host_line(line) {
                    assert(line.subrange(0, 6)[0] == host_prefix()[0]);
                    assert(false);
                }
            } else {
                assert(line_ends_at(buf, start - 1));
                assert(i <= start - 1);
                assert(complete_line(buf, ptr, i - 1));
                if line_decides(buf, ptr, i - 1, true) is None {
                    lemma_scan_finds_challenge(buf, i + 1, i + 1, start, end);
                }
            }
        } else {
            lemma_scan_finds_challenge(buf, ptr, i + 1, start, end);
        }
    }
}

/// A connection whose first bytes hold no complete line that names the host, and none that
/// asks for a challenge where challenges are deflected, is closed without an answer.
pub proof fn law_no_host_line_aborts(
    hostnames: Map<Seq<char>, String>,
    certbot: Option<String>,
    request: Seq<u8>,
)
    requires
        forall|s: int, e: int| #[trigger]
            complete_line(window(request), s, e) ==> {
                &&& !is_host_line(window(request).subrange(s, e))
                &&& certbot is Some ==> !is_challenge_line(window(request).subrange(s, e))
            },
    ensures
        routed(hostnames, certbot, request) is Abort,
        request.len() > 0 ==> routed(hostnames, certbot, request) == RouteView::Abort(
            Abort::NoHost,
        ),
        forall|html: Seq<u8>, now: int| #[trigger]
            handled(hostnames, certbot, html, now, request) is Close,
{
    let seen = window(request);
    assert forall|s: int, e: int| #[trigger] complete_line(seen, s, e) implies line_decides(
        seen,
        s,
        e,
        certbot is Some,
    ) is None by {}
    lemma_scan_finds_nothing(seen, 0, 0, certbot is Some);
}

/// A connection whose host name is not valid UTF-8 is closed without an answer.
pub proof fn law_invalid_host_aborts(
    hostnames: Map<Seq<char>, String>,
    certbot: Option<String>,
    request: Seq<u8>,
)
    requires
        sniffed(window(request), certbot is Some) matches Sniffed::Host { start, end }
            && !valid_utf8(request.subrange(start as int, end as int)),
    ensures
        routed(hostnames, certbot, request) == RouteView::Abort(Abort::InvalidHost),
        forall|html: Seq<u8>, now: int|
            #[trigger] handled(hostnames, certbot, html, now, request) == ActionView::Close(
                Abort::InvalidHost,
            ),
{
}

/// Where challenges are deflected, a request with a complete line that asks for one goes to
/// the certbot host, whatever host it names, unless a line before that one names the host.
pub proof fn law_challenge_goes_to_certbot(
    hostnames: Map<Seq<char>, String>,
    certbot: Option<String>,
    request: Seq<u8>,
    start: int,
    end: int,
)
    requires
        certbot is Some,
        complete_line(window(request), start, end),
        occurs_at(window(request).subrange(start, end), 0, challenge_prefix()),
        forall|s: int, e: int| #[trigger]
            complete_line(window(request), s, e) && e < start ==> !is_host_line(
                window(request).subrange(s, e),
            ),
    ensures
        routed(hostnames, certbot, request) is Challenge,
        routed(hostnames, certbot, request)->Challenge_target == certbot->0@,
        forall|html: Seq<u8>, now: int|
            #[trigger] handled(hostnames, certbot, html, now, request) == (ActionView::Forward {
                target: certbot->0@,
                buffered: request,
            }),
{
    let seen = window(request);
    law_challenge_by_prefix(seen.subrange(start, end));
    lemma_scan_finds_challenge(seen, 0, 0, start, end);
}

/// The request that names `host` and nothing else: `Host: `, the name, and two line ends.
pub open spec fn host_request(host: Seq<char>) -> Seq<u8> {
    host_prefix() + encode_utf8(host) + seq![CARRIAGE_RETURN, LINE_FEED, CARRIAGE_RETURN, LINE_FEED]
}

/// Whether `host` can be sent on a line of its own: it holds no `:`, which would cut it, its
/// line ends where the name ends and not before, and name and line fit into the bytes
/// that are looked at.
pub open spec fn fits_host_line(host: Seq<char>) -> bool {
    let name = encode_utf8(host);
    &&& host_request(host).len() <= BUFFER_LEN
    &&& forall|j: int| 0 <= j < name.len() ==> name[j] != COLON
    &&& forall|j: int| 0 <= j <= 6 + name.len() ==> !line_ends_at(host_request(host), j)
    &&& line_ends_at(host_request(host), 7 + name.len() as int)
}

/// Before the first carriage return no carriage return is held, and no line ends.
pub proof fn lemma_no_return_no_line(buf: Seq<u8>, i: int, k: int)
    requires
        0 <= i <= k <= buf.len(),
        forall|j: int| 0 <= j < k ==> buf[j] != CARRIAGE_RETURN,
    ensures
        !cr_pending(buf, i),
        !line_ends_at(buf, i),
    decreases i,
{
    if i > 0 {
        lemma_no_return_no_line(buf, i - 1, k);
    }
}

/// A host name that holds neither `:` nor a carriage return, and is short enough, can be
/// sent on a line of its own. So can every host name that is written as they are.
pub proof fn law_plain_names_fit(host: Seq<char>)
    requires
        encode_utf8(host).len() + 10 <= BUFFER_LEN,
        forall|j: int|
            0 <= j < encode_utf8(host).len() ==> encode_utf8(host)[j] != COLON && encode_utf8(
                host,
            )[j] != CARRIAGE_RETURN,
    ensures
        fits_host_line(host),
{
    lemma_marker_bytes();
    let name = encode_utf8(host);
    let request = host_request(host);
    let n = name.len() as int;
    assert(request.len() == n + 10);
    assert forall|j: int| 0 <= j < 6 + n implies request[j] != CARRIAGE_RETURN by {
        if j >= 6 {
            assert(request[j] == name[j - 6]);
        }
    }
    assert forall|j: int| 0 <= j <= 6 + n implies !line_ends_at(request, j) by {
        lemma_no_return_no_line(request, j, 6 + n);
    }
    lemma_no_return_no_line(request, 6 + n, 6 + n);
    assert(request[6 + n] == CARRIAGE_RETURN);
    assert(cr_pending(request, 7 + n));
    assert(request[7 + n] == LINE_FEED);
}

/// A connection that names a mapped host on a line of its own goes to the target that the
/// mapping gives for it.
pub proof fn law_mapped_host_is_redirected(
    hostnames: Map<Seq<char>, String>,
    certbot: Option<String>,
    host: Seq<char>,
)
    requires
        hostnames.contains_key(host),
        fits_host_line(host),
    ensures
        routed(hostnames, certbot, host_request(host)) == (RouteView::Redirect {
            host,
            target: hostnames[host]@,
        }),
        forall|html: Seq<u8>, now: int|
            #[trigger] handled(hostnames, certbot, html, now, host_request(host)) == (
            ActionView::Forward { target: hostnames[host]@, buffered: host_request(host) }),
{
    lemma_marker_bytes();
    let name = encode_utf8(host);
    let request = host_request(host);
    let n = name.len() as int;
    assert(request.len() == n + 10);
    assert(window(request) == request);
    lemma_scan_skips(request, 0, 0, 7 + n, certbot is Some);
    let line = request.subrange(0, 6 + n);
    assert(line.subrange(0, 6) =~= host_prefix());
    assert(line.skip(6) =~= name);
    lemma_no_colon(name, 0);
    assert(request.subrange(6, 6 + n) =~= name);
    vstd::utf8::encode_utf8_valid_utf8(host);
    vstd::utf8::encode_utf8_decode_utf8(host);
}

/// A connection that names a host that no mapping knows, on a line of its own, gets the
/// not-found page.
pub proof fn law_unmapped_host_is_not_found(
    hostnames: Map<Seq<char>, String>,
    certbot: Option<String>,
    host: Seq<char>,
)
    requires
        !hostnames.contains_key(host),
        fits_host_line(host),
    ensures
        routed(hostnames, certbot, host_request(host)) == (RouteView::NotFound { host }),
{
    lemma_marker_bytes();
    let name = encode_utf8(host);
    let request = host_request(host);
    let n = name.len() as int;
    assert(request.len() == n + 10);
    assert(window(request) == request);
    lemma_scan_skips(request, 0, 0, 7 + n, certbot is Some);
    let line = request.subrange(0, 6 + n);
    assert(line.subrange(0, 6) =~= host_prefix());
    assert(line.skip(6) =~= name);
    lemma_no_colon(name, 0);
    assert(request.subrange(6, 6 + n) =~= name);
    vstd::utf8::encode_utf8_valid_utf8(host);
    vstd::utf8::encode_utf8_decode_utf8(host);
}

/// What is forwarded is what was read: where a connection is forwarded, the bytes that are
/// written to the target first are the bytes of the request, all of them and as they came.
/// A connection is forwarded exactly where it is routed to a target.
pub proof fn law_forward_keeps_request(
    hostnames: Map<Seq<char>, String>,
    certbot: Option<String>,
    html: Seq<u8>,
    now: int,
    request: Seq<u8>,
)
    ensures
        handled(hostnames, certbot, html, now, request) matches ActionView::Forward {
            target,
            buffered,
        } ==> buffered == request,
        handled(hostnames, certbot, html, now, request) is Forward <==> (routed(
            hostnames,
            certbot,
            request,
        ) is Redirect || routed(hostnames, certbot, request) is Challenge),
{
}

/// A connection that is aborted gets no answer: it is closed, and nothing is written to it.
/// That holds of a request without a line that names the host, and of one whose host name
/// is not valid UTF-8.
pub proof fn law_abort_sends_nothing(
    hostnames: Map<Seq<char>, String>,
    certbot: Option<String>,
    html: Seq<u8>,
    now: int,
    request: Seq<u8>,
)
    requires
        routed(hostnames, certbot, request) is Abort,
    ensures
        handled(hostnames, certbot, html, now, request) == ActionView::Close(
            routed(hostnames, certbot, request)->Abort_0,
        ),
{
}

/// A connection that names a host that no mapping knows gets the not-found page: an answer
/// that begins with the status line `HTTP/1.1 200 OK`, announces the length of the page in
/// decimal, and ends with the page. The answer bears the date of its second, so the second
/// has to have one; each of the years 1970 to 9999 has, as
/// [`handle_http`](crate::handlers::handle_http) states.
pub proof fn law_unmapped_host_gets_the_page(
    hostnames: Map<Seq<char>, String>,
    certbot: Option<String>,
    html: Seq<u8>,
    now: int,
    host: Seq<char>,
)
    requires
        !hostnames.contains_key(host),
        fits_host_line(host),
        http_date_text(now) is Some,
    ensures
        handled(hostnames, certbot, html, now, host_request(host)) matches ActionView::Reply {
            parts,
        } && {
            &&& parts == not_found_parts(http_date_text(now)->0, html)
            &&& "HTTP/1.1 200 OK\r\n".spec_bytes().is_prefix_of(joined(parts, PARTS as int))
            &&& parts[3] == "Content-Length: ".spec_bytes()
            &&& decimal_value(parts[4]) == html.len()
            &&& parts[5] == "\r\n".spec_bytes()
            &&& html.is_suffix_of(joined(parts, PARTS as int))
        },
{
    law_unmapped_host_is_not_found(hostnames, certbot, host);
    law_response_shape(http_date_text(now)->0, html);
    law_content_length(http_date_text(now)->0, html);
}

/// A TLS connection is handled only where its handshake named a host for which a
/// certificate is held: with that very entry the handshake is answered, and without one
/// the connection is closed.
pub proof fn law_handshake_by_name(
    entries: Map<Seq<char>, CertEntry>,
    server_name: Option<Seq<char>>,
    hostnames: Map<Seq<char>, String>,
    certbot: Option<String>,
    html: Seq<u8>,
    now: int,
    request: Seq<u8>,
)
    ensures
        server_name is Some && entries.contains_key(server_name->0) ==> resolved(
            entries,
            server_name,
        ) == Some(entries[server_name->0]) && handled_tls(
            entries,
            server_name,
            hostnames,
            certbot,
            html,
            now,
            request,
        ) == handled(hostnames, certbot, html, now, request),
        server_name is None || !entries.contains_key(server_name->0) ==> resolved(
            entries,
            server_name,
        ) is None && handled_tls(entries, server_name, hostnames, certbot, html, now, request)
            == ActionView::Close(Abort::Handshake),
{
}

} // verus!

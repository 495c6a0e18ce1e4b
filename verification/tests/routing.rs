use std::sync::Arc;

use rust_proxy::config::{BindAddress, CertEntry, CertStore, Config, KeyKind};
use rust_proxy::handlers::{handle_http, handle_https, route, sniff, Abort, Action, Route, Sniffed, BUFFER_LEN};
use tokio_rustls::rustls::sign::{CertifiedKey, Signer, SigningKey};
use tokio_rustls::rustls::{SignatureAlgorithm, SignatureScheme};

fn example() -> Config {
    let mut config = Config::new(
        BindAddress::V4 { octets: [0, 0, 0, 0] },
        vec![8080],
        String::from("404.html"),
    );
    config.map_hostname(String::from("a.example.com"), String::from("127.0.0.1:9000"));
    config
}

fn with_certbot() -> Config {
    let mut config = example();
    config.certbot_hostname = Some(String::from("certbot-backend:80"));
    config
}

fn text_of(parts: Vec<Vec<u8>>) -> String {
    String::from_utf8(parts.concat()).unwrap()
}

#[test]
fn scenario_mapped_host_is_forwarded_with_its_request() {
    let config = example();
    let request = b"GET / HTTP/1.1\r\nHost: a.example.com\r\n\r\n";
    match handle_http(&config, b"<h1>nope</h1>", 784111777, request) {
        Action::Forward { target, buffered } => {
            assert_eq!(target, "127.0.0.1:9000");
            assert_eq!(buffered, request.to_vec());
        },
        other => panic!("{:?}", other),
    }
}

#[test]
fn scenario_unknown_host_gets_the_page() {
    let config = example();
    let page = b"<html>not here</html>";
    match handle_http(&config, page, 784111777, b"Host: unknown.example.com\r\n\r\n") {
        Action::Reply { parts } => {
            assert_eq!(parts.len(), 9);
            assert_eq!(
                text_of(parts),
                "HTTP/1.1 200 OK\r\nDate: Sun, 06 Nov 1994 08:49:37 GMT\r\nServer: rust-proxy/0.1.0\r\nContent-Length: 21\r\nContent-Type: text/html\r\nConnection: Closed\r\n\r\n<html>not here</html>"
            );
        },
        other => panic!("{:?}", other),
    }
}

#[test]
fn scenario_challenge_goes_to_certbot() {
    let config = with_certbot();
    let request = b"GET /.well-known/acme-challenge/XYZ HTTP/1.1\r\nHost: irrelevant.example.com\r\n\r\n";
    match handle_http(&config, b"", 0, request) {
        Action::Forward { target, buffered } => {
            assert_eq!(target, "certbot-backend:80");
            assert_eq!(buffered, request.to_vec());
        },
        other => panic!("{:?}", other),
    }
    match route(&config, request) {
        Route::Challenge { start, end, target } => {
            assert_eq!(target, "certbot-backend:80");
            assert_eq!(&request[start..end], b"/.well-known/acme-challenge/XYZ");
        },
        other => panic!("{:?}", other),
    }
}

#[test]
fn every_mapped_host_is_redirected_to_its_own_target() {
    let mut config = example();
    config.map_hostname(String::from("b.example.com"), String::from("backend-b"));
    config.map_hostname(String::from("caf\u{e9}.example"), String::from("[::1]:81"));
    for (host, target) in [("a.example.com", "127.0.0.1:9000"), ("b.example.com", "backend-b"), ("caf\u{e9}.example", "[::1]:81")] {
        let request = format!("Host: {}\r\n\r\n", host);
        match route(&config, request.as_bytes()) {
            Route::Redirect { host: named, target: to } => {
                assert_eq!(named, host);
                assert_eq!(to, target);
            },
            other => panic!("{:?}", other),
        }
    }
}

#[test]
fn a_port_behind_the_host_is_left_out() {
    assert_eq!(sniff(b"Host: a.example.com:8080\r\n", false), Sniffed::Host { start: 6, end: 19 });
    match route(&example(), b"Host: a.example.com:8080\r\n\r\n") {
        Route::Redirect { host, target } => {
            assert_eq!(host, "a.example.com");
            assert_eq!(target, "127.0.0.1:9000");
        },
        other => panic!("{:?}", other),
    }
}

#[test]
fn host_names_are_matched_byte_for_byte() {
    assert!(matches!(route(&example(), b"Host: A.EXAMPLE.COM\r\n\r\n"), Route::NotFound { .. }));
    assert!(matches!(route(&example(), b"Host: a.example.com \r\n\r\n"), Route::NotFound { .. }));
}

#[test]
fn without_a_host_line_nothing_is_sent() {
    let config = example();
    for request in [
        &b"GET / HTTP/1.1\r\n\r\n"[..],
        &b"Host: a.example.com"[..],
        &b"Host: a.example.com\n\n"[..],
        &b"host: a.example.com\r\n\r\n"[..],
        &b"Host:a.example.com\r\n\r\n"[..],
        &b" Host: a.example.com\r\n\r\n"[..],
        &b"\r\n\r\n"[..],
    ] {
        assert!(matches!(handle_http(&config, b"page", 0, request), Action::Close(Abort::NoHost)), "{:?}", request);
    }
    assert!(matches!(handle_http(&config, b"page", 0, b""), Action::Close(Abort::Empty)));
}

#[test]
fn a_host_that_is_not_utf8_aborts() {
    let config = example();
    assert!(matches!(handle_http(&config, b"page", 0, b"Host: \xff\xfe\r\n\r\n"), Action::Close(Abort::InvalidHost)));
    assert!(matches!(handle_http(&config, b"page", 0, b"Host: a\xc3\r\n\r\n"), Action::Close(Abort::InvalidHost)));
    assert!(matches!(route(&config, b"Host: \xc3\xa9\r\n\r\n"), Route::NotFound { .. }));
}

#[test]
fn only_the_first_bytes_are_looked_at() {
    let config = example();
    let mut request = vec![b'x'; BUFFER_LEN - 10];
    request.extend_from_slice(b"\r\nHost: a.example.com\r\n\r\n");
    assert!(matches!(route(&config, &request), Route::Abort(Abort::NoHost)));
    let mut request = vec![b'x'; BUFFER_LEN - 24];
    request.extend_from_slice(b"\r\nHost: a.example.com\r\n\r\n");
    assert_eq!(request.len(), BUFFER_LEN + 1);
    assert!(matches!(route(&config, &request), Route::Redirect { .. }));
    match handle_http(&config, b"", 0, &request) {
        Action::Forward { buffered, .. } => assert_eq!(buffered, request),
        other => panic!("{:?}", other),
    }
}

#[test]
fn a_carriage_return_behind_a_carriage_return_ends_no_line() {
    assert_eq!(sniff(b"Host: a\r\r\n", false), Sniffed::Nothing);
    assert_eq!(sniff(b"Host: a\r\r\r\n", false), Sniffed::Host { start: 6, end: 9 });
    assert_eq!(sniff(b"x\r\nHost: a\rb\r\n", false), Sniffed::Host { start: 9, end: 12 });
}

#[test]
fn the_first_line_that_decides_wins() {
    let config = with_certbot();
    let request = b"Host: a.example.com\r\nGET /.well-known/acme-challenge/x HTTP/1.1\r\n\r\n";
    assert!(matches!(route(&config, request), Route::Redirect { .. }));
    let request = b"GET /other HTTP/1.1\r\nGET /.well-known/acme-challenge/x HTTP/1.1\r\nHost: a.example.com\r\n\r\n";
    assert!(matches!(route(&config, request), Route::Challenge { .. }));
    let request = b"GET /.well-known/acme-challenge HTTP/1.1\r\nHost: a.example.com\r\n\r\n";
    assert!(matches!(route(&config, request), Route::Redirect { .. }));
}

#[test]
fn challenges_are_deflected_only_where_a_certbot_host_is_set() {
    let request = b"GET /.well-known/acme-challenge/XYZ HTTP/1.1\r\nHost: a.example.com\r\n\r\n";
    assert!(matches!(route(&example(), request), Route::Redirect { .. }));
    assert_eq!(sniff(request, false), Sniffed::Host { start: 52, end: 65 });
    assert_eq!(sniff(request, true), Sniffed::Challenge { start: 4, end: 35 });
}

#[test]
fn the_version_is_cut_from_the_path_from_the_back() {
    assert_eq!(rust_proxy::handlers::path_end(b"/a HTTP/1.1"), 2);
    assert_eq!(rust_proxy::handlers::path_end(b"/a HTTP/1.0 HTTP/1.1"), 11);
    assert_eq!(rust_proxy::handlers::path_end(b"/a"), 2);
    assert_eq!(rust_proxy::handlers::path_end(b"/a HTTP//"), 9);
    assert_eq!(rust_proxy::handlers::path_end(b"/a HTTP///"), 2);
    assert_eq!(rust_proxy::handlers::path_end(b""), 0);
    assert_eq!(rust_proxy::handlers::host_end(b"a:b:c"), 1);
    assert_eq!(rust_proxy::handlers::host_end(b""), 0);
}

#[test]
fn every_second_up_to_the_year_9999_has_an_answer() {
    for now in [0i64, 1, 784111777, 4102444800, 253402300799] {
        assert!(matches!(handle_http(&example(), b"page", now, b"Host: unknown\r\n\r\n"), Action::Reply { .. }), "{}", now);
    }
}

#[test]
fn an_answer_without_a_date_is_not_sent() {
    assert!(matches!(
        handle_http(&example(), b"page", i64::MAX, b"Host: unknown\r\n\r\n"),
        Action::Close(Abort::NoDate)
    ));
}

/// A key that signs nothing: it stands for a decoded key.
#[derive(Debug)]
struct NoKey;

impl SigningKey for NoKey {
    fn choose_scheme(&self, _offered: &[SignatureScheme]) -> Option<Box<dyn Signer>> {
        None
    }

    fn algorithm(&self) -> SignatureAlgorithm {
        SignatureAlgorithm::ED25519
    }
}

fn store() -> CertStore {
    let chain = vec![vec![1u8, 2, 3]];
    let certified = Arc::new(CertifiedKey::new(vec![chain[0].clone().into()], Arc::new(NoKey)));
    let mut store = CertStore::new();
    store.insert(String::from("a.example.com"), CertEntry { chain, kind: KeyKind::Pkcs8, key: vec![7u8], certified });
    store
}

#[test]
fn a_handshake_without_a_known_name_fails() {
    let config = example();
    let store = store();
    let request = b"Host: a.example.com\r\n\r\n";
    assert!(matches!(handle_https(&config, b"", &store, None, 0, request), Action::Close(Abort::Handshake)));
    assert!(matches!(
        handle_https(&config, b"", &store, Some("b.example.com"), 0, request),
        Action::Close(Abort::Handshake)
    ));
    assert!(matches!(
        handle_https(&config, b"", &store, Some("A.example.com"), 0, request),
        Action::Close(Abort::Handshake)
    ));
    match handle_https(&config, b"", &store, Some("a.example.com"), 0, request) {
        Action::Forward { target, buffered } => {
            assert_eq!(target, "127.0.0.1:9000");
            assert_eq!(buffered, request.to_vec());
        },
        other => panic!("{:?}", other),
    }
}

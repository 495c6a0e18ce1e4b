use std::sync::Arc;

use rust_proxy::config::{
    entry_from, load_chain, load_entry, load_key, BindAddress, CertEntry, CertFiles, CertPath, CertStore, Config,
    Error, ErrorKind, FileRead, HostCert, KeyKind,
};
use tokio_rustls::rustls::sign::{CertifiedKey, Signer, SigningKey};
use tokio_rustls::rustls::{SignatureAlgorithm, SignatureScheme};

const CERT: &[u8] = b"-----BEGIN CERTIFICATE-----\nAQID\n-----END CERTIFICATE-----\n";
const CHAIN: &[u8] = b"junk\n-----BEGIN CERTIFICATE-----\nAQID\n-----END CERTIFICATE-----\n-----BEGIN PUBLIC KEY-----\nBwgJ\n-----END PUBLIC KEY-----\n-----BEGIN CERTIFICATE-----\nBAUG\n-----END CERTIFICATE-----\n";
const BROKEN: &[u8] = b"-----BEGIN CERTIFICATE-----\nAQID\n";

/// Writes `bytes` in base64.
fn base64(bytes: &[u8]) -> String {
    let letters: &[u8] = b"ABCDEFGHIJKLMNOPQRSTUVWXYZabcdefghijklmnopqrstuvwxyz0123456789+/";
    let mut text = String::new();
    for chunk in bytes.chunks(3) {
        let b = [chunk[0], *chunk.get(1).unwrap_or(&0), *chunk.get(2).unwrap_or(&0)];
        let n = ((b[0] as u32) << 16) | ((b[1] as u32) << 8) | (b[2] as u32);
        text.push(letters[(n >> 18) as usize & 63] as char);
        text.push(letters[(n >> 12) as usize & 63] as char);
        text.push(if chunk.len() > 1 { letters[(n >> 6) as usize & 63] as char } else { '=' });
        text.push(if chunk.len() > 2 { letters[n as usize & 63] as char } else { '=' });
    }
    text
}

/// The section of a PEM file that holds `der` as a key of the kind that `before` names: a
/// key in PKCS#8 where it names none.
fn section(before: &str, der: &[u8]) -> Vec<u8> {
    let label = format!("{}{} {}", before, "PRIVATE", "KEY");
    format!("-----BEGIN {label}-----\n{}\n-----END {label}-----\n", base64(der)).into_bytes()
}

/// The section of a PEM file that holds `der` as a key in PKCS#8.
fn key_section(der: &[u8]) -> Vec<u8> {
    section("", der)
}

/// The bytes of the key of [`key_file`].
fn key_der() -> Vec<u8> {
    let mut der: Vec<u8> = vec![0x30, 0x2e, 0x02, 0x01, 0x00, 0x30, 0x05, 0x06, 0x03, 0x2b, 0x65, 0x70, 0x04, 0x22, 0x04, 0x20];
    der.extend(1u8..=32);
    der
}

/// A key file with a key that is made up of the numbers from 1 to 32: it is written as a key
/// for Ed25519 is, and nothing is kept secret with it.
fn key_file() -> Vec<u8> {
    key_section(&key_der())
}

/// A key file with a key of no kind that there is.
fn strange_key_file() -> Vec<u8> {
    key_section(&[1, 2, 3])
}

/// A key file whose only section does not end.
fn broken_key_file() -> Vec<u8> {
    let whole = strange_key_file();
    whole[..whole.len() - 26].to_vec()
}

/// A key that signs nothing: it stands for a decoded key where the decoder is not asked.
#[derive(Debug)]
struct NoKey;

impl SigningKey for NoKey {
    fn choose_scheme(&self, _offered: &[SignatureScheme]) -> Option<Box<dyn Signer>> {
        None
    }

    fn algorithm(&self) -> SignatureAlgorithm {
        SignatureAlgorithm::ED25519
    }
}

fn certified(chain: &[Vec<u8>]) -> Arc<CertifiedKey> {
    Arc::new(CertifiedKey::new(chain.iter().map(|der| der.clone().into()).collect(), Arc::new(NoKey)))
}

fn entry(chain: Vec<Vec<u8>>) -> CertEntry {
    let certified = certified(&chain);
    CertEntry { chain, kind: KeyKind::Pkcs8, key: vec![7u8, 8, 9], certified }
}

fn host(name: &str) -> HostCert {
    HostCert {
        hostname: String::from(name),
        path: CertPath { certificate: format!("{}.crt", name), key: format!("{}.key", name) },
    }
}

fn read(bytes: &[u8]) -> FileRead {
    FileRead::Read { bytes: bytes.to_vec() }
}

fn files(certificate: FileRead, key: FileRead) -> CertFiles {
    CertFiles { certificate, key }
}

fn failure(certificate: FileRead, key: FileRead) -> Error {
    match load_entry(&host("a.example.com"), &files(certificate, key)) {
        Ok(_) => panic!("loaded"),
        Err(error) => error,
    }
}

/// Tells that `error` says that the key of `name` was not decoded, which is all that may go
/// wrong with files that have no flaw: whether a key is decoded is up to the TLS stack.
fn is_undecoded(error: &Error, name: &str) -> bool {
    matches!(error, Error::PrivateKeyDecode { hostname, path, .. } if hostname == name && *path == format!("{}.key", name))
}

#[test]
fn a_chain_holds_the_certificates_of_its_file() {
    let host = host("a.example.com");
    assert_eq!(load_chain(&host, &read(CERT)).unwrap(), vec![vec![1u8, 2, 3]]);
    assert_eq!(load_chain(&host, &read(CHAIN)).unwrap(), vec![vec![1u8, 2, 3], vec![4u8, 5, 6]]);
    assert!(matches!(load_chain(&host, &read(b"")), Err(Error::CertificateEmpty { .. })));
    assert!(matches!(load_chain(&host, &read(&key_file())), Err(Error::CertificateEmpty { .. })));
    assert!(matches!(load_chain(&host, &read(BROKEN)), Err(Error::CertificateParse { .. })));
    assert!(matches!(
        load_chain(&host, &FileRead::NotOpened { cause: String::from("gone") }),
        Err(Error::CertificateOpen { cause, .. }) if cause == "gone"
    ));
    assert!(matches!(
        load_chain(&host, &FileRead::NotRead { cause: String::from("cut") }),
        Err(Error::CertificateParse { cause, .. }) if cause == "cut"
    ));
}

#[test]
fn a_key_is_the_first_of_its_file() {
    let host = host("a.example.com");
    assert_eq!(load_key(&host, &read(&key_file())).ok(), Some((KeyKind::Pkcs8, key_der())));
    assert_eq!(load_key(&host, &read(&strange_key_file())).ok(), Some((KeyKind::Pkcs8, vec![1u8, 2, 3])));
    assert_eq!(load_key(&host, &read(&section("RSA ", &[4, 5]))).ok(), Some((KeyKind::Pkcs1, vec![4u8, 5])));
    assert_eq!(load_key(&host, &read(&section("EC ", &[6]))).ok(), Some((KeyKind::Sec1, vec![6u8])));
    let mut behind_a_certificate = CERT.to_vec();
    behind_a_certificate.extend_from_slice(&section("EC ", &[6]));
    behind_a_certificate.extend_from_slice(&key_file());
    assert_eq!(load_key(&host, &read(&behind_a_certificate)).ok(), Some((KeyKind::Sec1, vec![6u8])));
    assert!(matches!(load_key(&host, &read(CERT)), Err(Error::PrivateKeyEmpty { .. })));
    assert!(matches!(load_key(&host, &read(b"")), Err(Error::PrivateKeyEmpty { .. })));
    assert!(matches!(load_key(&host, &read(&broken_key_file())), Err(Error::PrivateKeyParse { .. })));
    assert!(matches!(
        load_key(&host, &FileRead::NotOpened { cause: String::from("denied") }),
        Err(Error::PrivateKeyOpen { path, cause, .. }) if path == "a.example.com.key" && cause == "denied"
    ));
    assert!(matches!(
        load_key(&host, &FileRead::NotRead { cause: String::from("cut") }),
        Err(Error::PrivateKeyParse { cause, .. }) if cause == "cut"
    ));
}

#[test]
fn an_entry_is_made_from_what_the_decoder_gave() {
    let host = host("a.example.com");
    let chain = vec![vec![1u8, 2, 3], vec![4u8, 5, 6]];
    let key = certified(&chain);
    let entry = entry_from(&host, chain.clone(), KeyKind::Sec1, vec![6u8], Ok(key.clone())).ok().unwrap();
    assert_eq!(entry.chain, chain);
    assert_eq!(entry.kind, KeyKind::Sec1);
    assert_eq!(entry.key, vec![6u8]);
    assert!(Arc::ptr_eq(&entry.certified, &key));
    let error = match entry_from(&host, chain, KeyKind::Pkcs8, vec![], Err(String::from("no such kind"))) {
        Ok(_) => panic!("made"),
        Err(error) => error,
    };
    assert!(matches!(&error, Error::PrivateKeyDecode { hostname, path, cause } if hostname == "a.example.com" && path == "a.example.com.key" && cause == "no such kind"));
}

#[test]
fn an_entry_holds_the_chain_of_its_file() {
    for (file, chain) in [(CERT, vec![vec![1u8, 2, 3]]), (CHAIN, vec![vec![1u8, 2, 3], vec![4u8, 5, 6]])] {
        match load_entry(&host("a.example.com"), &files(read(file), read(&key_file()))) {
            Ok(entry) => {
                assert_eq!(entry.chain, chain);
                assert_eq!(entry.kind, KeyKind::Pkcs8);
                assert_eq!(entry.key, key_der());
                assert_eq!(entry.certified.cert.len(), chain.len());
                for (held, der) in entry.certified.cert.iter().zip(&chain) {
                    assert_eq!(held.as_ref(), &der[..]);
                }
                assert!(entry.certified.ocsp.is_none());
            },
            Err(error) => assert!(is_undecoded(&error, "a.example.com"), "{:?}", error),
        }
    }
}

#[test]
fn each_flaw_has_its_error() {
    let key = key_file();
    let error = failure(FileRead::NotOpened { cause: String::from("no such file") }, read(&key));
    assert!(matches!(&error, Error::CertificateOpen { hostname, path, cause } if hostname == "a.example.com" && path == "a.example.com.crt" && cause == "no such file"));
    assert_eq!(error.kind(), ErrorKind::CertificateOpen);
    assert_eq!(error.message(), "Failed to load certificate file 'a.example.com.crt' for hostname 'a.example.com'");
    assert_eq!(error.source(), Some("no such file"));

    let error = failure(FileRead::NotRead { cause: String::from("disk gone") }, read(&key));
    assert!(matches!(&error, Error::CertificateParse { cause, .. } if cause == "disk gone"));
    assert_eq!(error.message(), "Failed to read certificate file 'a.example.com.crt' for hostname 'a.example.com'");

    let error = failure(read(BROKEN), read(&key));
    assert!(matches!(&error, Error::CertificateParse { path, .. } if path == "a.example.com.crt"));
    assert!(error.source().is_some());

    let error = failure(read(b""), read(&key));
    assert!(matches!(&error, Error::CertificateEmpty { .. }));
    assert_eq!(error.message(), "No certificates in certificate file 'a.example.com.crt' for hostname 'a.example.com'");
    assert_eq!(error.source(), None);
    let error = failure(read(&key), read(&key));
    assert!(matches!(&error, Error::CertificateEmpty { .. }));

    let error = failure(read(CERT), FileRead::NotOpened { cause: String::from("denied") });
    assert!(matches!(&error, Error::PrivateKeyOpen { path, cause, .. } if path == "a.example.com.key" && cause == "denied"));
    assert_eq!(error.message(), "Failed to load private key file 'a.example.com.key' for hostname 'a.example.com'");

    let error = failure(read(CERT), FileRead::NotRead { cause: String::from("cut") });
    assert!(matches!(&error, Error::PrivateKeyParse { cause, .. } if cause == "cut"));
    assert_eq!(error.message(), "Failed to read private key file 'a.example.com.key' for hostname 'a.example.com'");

    let error = failure(read(CERT), read(&broken_key_file()));
    assert!(matches!(&error, Error::PrivateKeyParse { .. }));

    let error = failure(read(CERT), read(CERT));
    assert!(matches!(&error, Error::PrivateKeyEmpty { .. }));
    assert_eq!(error.message(), "No private keys in private key file 'a.example.com.key' for hostname 'a.example.com'");
    assert_eq!(error.source(), None);

    let error = failure(read(CERT), read(&strange_key_file()));
    assert!(matches!(&error, Error::PrivateKeyDecode { path, .. } if path == "a.example.com.key"));
    assert_eq!(error.kind(), ErrorKind::PrivateKeyDecode);
    assert_eq!(error.message(), "Failed to decode private key in private key file 'a.example.com.key' for hostname 'a.example.com'");
    assert!(error.source().is_some());
}

#[test]
fn the_certificate_file_is_looked_at_first() {
    let error = failure(
        FileRead::NotOpened { cause: String::from("first") },
        FileRead::NotOpened { cause: String::from("second") },
    );
    assert!(matches!(&error, Error::CertificateOpen { cause, .. } if cause == "first"));
    let error = failure(read(b""), read(&broken_key_file()));
    assert!(matches!(&error, Error::CertificateEmpty { .. }));
}

fn config(names: &[&str]) -> Config {
    let mut config = Config::new(BindAddress::V4 { octets: [0, 0, 0, 0] }, vec![443], String::from("404.html"));
    for name in names {
        config.certs.push(host(name));
    }
    config
}

#[test]
fn a_hostname_has_its_certificate_files_once() {
    let mut config = config(&[]);
    let path = |name: &str| CertPath { certificate: format!("{}.crt", name), key: format!("{}.key", name) };
    config.set_cert(String::from("a.example.com"), path("a"));
    config.set_cert(String::from("b.example.com"), path("b"));
    config.set_cert(String::from("a.example.com"), path("c"));
    let held: Vec<(String, String)> =
        config.certs.iter().map(|host| (host.hostname.clone(), host.path.certificate.clone())).collect();
    assert_eq!(
        held,
        vec![(String::from("a.example.com"), String::from("c.crt")), (String::from("b.example.com"), String::from("b.crt"))]
    );
}

#[test]
fn the_store_resolves_exactly_the_names_that_it_holds() {
    let mut store = CertStore::new();
    store.insert(String::from("a.example.com"), entry(vec![vec![1u8, 2, 3]]));
    store.insert(String::from("b.example.com"), entry(vec![vec![1u8, 2, 3], vec![4u8, 5, 6]]));
    assert_eq!(store.resolve(Some("a.example.com")).unwrap().chain, vec![vec![1u8, 2, 3]]);
    assert_eq!(store.resolve(Some("b.example.com")).unwrap().chain, vec![vec![1u8, 2, 3], vec![4u8, 5, 6]]);
    assert_eq!(store.resolve(Some("b.example.com")).unwrap().certified.cert.len(), 2);
    assert!(store.resolve(Some("c.example.com")).is_none());
    assert!(store.resolve(Some("A.example.com")).is_none());
    assert!(store.resolve(Some("a.example.com.")).is_none());
    assert!(store.resolve(Some("")).is_none());
    assert!(store.resolve(None).is_none());
    assert!(CertStore::new().resolve(Some("a.example.com")).is_none());
    assert!(CertStore::new().resolve(None).is_none());
}

#[test]
fn a_later_entry_for_a_hostname_takes_the_place_of_the_earlier() {
    let mut store = CertStore::new();
    store.insert(String::from("a.example.com"), entry(vec![vec![1u8]]));
    store.insert(String::from("a.example.com"), entry(vec![vec![2u8], vec![3u8]]));
    assert_eq!(store.resolve(Some("a.example.com")).unwrap().chain, vec![vec![2u8], vec![3u8]]);
}

#[test]
fn the_store_resolves_exactly_the_names_that_were_loaded() {
    let config = config(&["a.example.com", "b.example.com"]);
    let key = key_file();
    match config.load_certstore(&vec![files(read(CERT), read(&key)), files(read(CHAIN), read(&key))]) {
        Ok(store) => {
            assert_eq!(store.resolve(Some("a.example.com")).unwrap().chain, vec![vec![1u8, 2, 3]]);
            assert_eq!(store.resolve(Some("a.example.com")).unwrap().key, key_der());
            assert_eq!(store.resolve(Some("b.example.com")).unwrap().chain, vec![vec![1u8, 2, 3], vec![4u8, 5, 6]]);
            assert_eq!(store.resolve(Some("b.example.com")).unwrap().kind, KeyKind::Pkcs8);
            assert!(store.resolve(Some("c.example.com")).is_none());
            assert!(store.resolve(Some("A.example.com")).is_none());
            assert!(store.resolve(None).is_none());
        },
        Err(error) => assert!(is_undecoded(&error, "a.example.com"), "{:?}", error),
    }
    let empty = Config::new(BindAddress::V4 { octets: [0, 0, 0, 0] }, vec![443], String::from("404.html"));
    assert!(empty.load_certstore(&vec![]).ok().unwrap().resolve(Some("a.example.com")).is_none());
}

#[test]
fn the_first_hostname_that_fails_ends_the_loading() {
    let config = config(&["a.example.com", "b.example.com", "c.example.com"]);
    let key = key_file();

    // The first hostname has a flaw: that is the error, whatever the others have.
    let error = match config.load_certstore(&vec![
        files(read(b""), read(&key)),
        files(FileRead::NotOpened { cause: String::from("gone") }, read(&key)),
        files(read(CERT), read(&key)),
    ]) {
        Ok(_) => panic!("loaded"),
        Err(error) => error,
    };
    assert!(matches!(&error, Error::CertificateEmpty { hostname, .. } if hostname == "a.example.com"));

    // A later hostname has one: the loading fails with it, unless it failed before.
    let error = match config.load_certstore(&vec![
        files(read(CERT), read(&key)),
        files(read(CERT), read(CERT)),
        files(read(b""), read(&key)),
    ]) {
        Ok(_) => panic!("loaded"),
        Err(error) => error,
    };
    assert!(
        matches!(&error, Error::PrivateKeyEmpty { hostname, .. } if hostname == "b.example.com")
            || is_undecoded(&error, "a.example.com"),
        "{:?}",
        error
    );

    // A key of no kind that there is is not decoded.
    let error = match config.load_certstore(&vec![
        files(read(CERT), read(&strange_key_file())),
        files(read(CERT), read(&key)),
        files(read(CERT), read(&key)),
    ]) {
        Ok(_) => panic!("loaded"),
        Err(error) => error,
    };
    assert!(is_undecoded(&error, "a.example.com"), "{:?}", error);
}

#[test]
fn a_later_entry_for_a_hostname_counts() {
    let config = config(&["a.example.com", "a.example.com"]);
    let key = key_file();
    match config.load_certstore(&vec![files(read(CERT), read(&key)), files(read(CHAIN), read(&key))]) {
        Ok(store) => assert_eq!(store.resolve(Some("a.example.com")).unwrap().chain.len(), 2),
        Err(error) => assert!(is_undecoded(&error, "a.example.com"), "{:?}", error),
    }
}

#[test]
fn the_not_found_file_is_handed_on_or_the_error_names_it() {
    let config = config(&[]);
    assert_eq!(config.load_not_found_file(Ok(b"<html>".to_vec())).unwrap(), b"<html>".to_vec());
    let error = config.load_not_found_file(Err(String::from("no such file"))).unwrap_err();
    assert!(matches!(&error, Error::NotFoundRead { path, cause } if path == "404.html" && cause == "no such file"));
    assert_eq!(error.kind(), ErrorKind::NotFoundRead);
    assert_eq!(error.message(), "Failed to load not found file at '404.html'");
    assert_eq!(error.source(), Some("no such file"));
}

//! The configuration of the proxy, as the listeners and the handlers read it.

use std::sync::Arc;
use vstd::prelude::*;
use vstd::hash_map::StringHashMap;
use vstd::string::StringExecFns;
use rustls_pki_types::PrivateKeyDer;
use tokio_rustls::rustls::sign::CertifiedKey;
use crate::bytes::{str_eq, views};

verus! {

/// The address that the listeners bind to.
#[derive(Clone, Copy, Debug, PartialEq, Eq)]
pub enum BindAddress {
    /// An IPv4 address, by its four octets.
    V4 { octets: [u8; 4] },
    /// An IPv6 address, by its eight segments.
    V6 { segments: [u16; 8] },
}

/// Where the certificate chain and the private key of one hostname are found.
#[derive(Clone, Debug)]
pub struct CertPath {
    /// The path of the certificate file.
    pub certificate: String,
    /// The path of the key file.
    pub key: String,
}

/// The certificate files of one hostname.
#[derive(Clone, Debug)]
pub struct HostCert {
    /// The hostname that a client asks for.
    pub hostname: String,
    /// Where its certificate chain and private key are found.
    pub path: CertPath,
}

/// The configuration of the proxy. It is made once and only read afterwards.
pub struct Config {
    /// The address on which the listeners bind.
    pub address: BindAddress,
    /// The ports on which a listener is opened.
    pub ports: Vec<u16>,
    /// Maps the hostname that a client asks for to the `host[:port]` that serves it.
    pub hostnames: StringHashMap<String>,
    /// The certificate files of the hostnames that are served over TLS, in the order in
    /// which they are loaded. No hostname comes twice: see [`Config::wf`] and
    /// [`Config::set_cert`].
    pub certs: Vec<HostCert>,
    /// The `host[:port]` that answers ACME challenges, where they are deflected.
    pub certbot_hostname: Option<String>,
    /// The path of the file that is sent back where no mapping is found.
    pub not_found_file: String,
}

/// What came of reading a file.
#[derive(Debug)]
pub enum FileRead {
    /// The file was not opened, for the reason `cause`.
    NotOpened { cause: String },
    /// The file was opened and then not read to its end, for the reason `cause`.
    NotRead { cause: String },
    /// The file was read: these are its bytes.
    Read { bytes: Vec<u8> },
}

/// What came of reading the two files of one hostname.
#[derive(Debug)]
pub struct CertFiles {
    /// The certificate file.
    pub certificate: FileRead,
    /// The key file.
    pub key: FileRead,
}

/// The kinds of [`Error`].
#[derive(Clone, Copy, Debug, PartialEq, Eq, Structural)]
pub enum ErrorKind {
    CertificateEmpty,
    CertificateOpen,
    CertificateParse,
    PrivateKeyDecode,
    PrivateKeyEmpty,
    PrivateKeyOpen,
    PrivateKeyParse,
    NotFoundRead,
}

/// What keeps the proxy from starting.
#[derive(Debug)]
pub enum Error {
    /// The certificate file holds no certificate.
    CertificateEmpty { hostname: String, path: String },
    /// The certificate file was not opened.
    CertificateOpen { hostname: String, path: String, cause: String },
    /// The certificate file was not read to its end, or is no PEM file.
    CertificateParse { hostname: String, path: String, cause: String },
    /// The private key is of no kind that the TLS stack signs with.
    PrivateKeyDecode { hostname: String, path: String, cause: String },
    /// The key file holds no private key.
    PrivateKeyEmpty { hostname: String, path: String },
    /// The key file was not opened.
    PrivateKeyOpen { hostname: String, path: String, cause: String },
    /// The key file was not read to its end, or is no PEM file.
    PrivateKeyParse { hostname: String, path: String, cause: String },
    /// The not-found file was not read.
    NotFoundRead { path: String, cause: String },
}

/// An [`Error`] by its kind and what it holds.
pub struct ErrorView {
    pub kind: ErrorKind,
    pub hostname: Option<Seq<char>>,
    pub path: Seq<char>,
    pub cause: Option<Seq<char>>,
}

impl View for Error {
    type V = ErrorView;

    open spec fn view(&self) -> ErrorView {
        match *self {
            Error::CertificateEmpty { hostname, path } => ErrorView {
                kind: ErrorKind::CertificateEmpty,
                hostname: Some(hostname@),
                path: path@,
                cause: None,
            },
            Error::CertificateOpen { hostname, path, cause } => ErrorView {
                kind: ErrorKind::CertificateOpen,
                hostname: Some(hostname@),
                path: path@,
                cause: Some(cause@),
            },
            Error::CertificateParse { hostname, path, cause } => ErrorView {
                kind: ErrorKind::CertificateParse,
                hostname: Some(hostname@),
                path: path@,
                cause: Some(cause@),
            },
            Error::PrivateKeyDecode { hostname, path, cause } => ErrorView {
                kind: ErrorKind::PrivateKeyDecode,
                hostname: Some(hostname@),
                path: path@,
                cause: Some(cause@),
            },
            Error::PrivateKeyEmpty { hostname, path } => ErrorView {
                kind: ErrorKind::PrivateKeyEmpty,
                hostname: Some(hostname@),
                path: path@,
                cause: None,
            },
            Error::PrivateKeyOpen { hostname, path, cause } => ErrorView {
                kind: ErrorKind::PrivateKeyOpen,
                hostname: Some(hostname@),
                path: path@,
                cause: Some(cause@),
            },
            Error::PrivateKeyParse { hostname, path, cause } => ErrorView {
                kind: ErrorKind::PrivateKeyParse,
                hostname: Some(hostname@),
                path: path@,
                cause: Some(cause@),
            },
            Error::NotFoundRead { path, cause } => ErrorView {
                kind: ErrorKind::NotFoundRead,
                hostname: None,
                path: path@,
                cause: Some(cause@),
            },
        }
    }
}

/// What an error of `kind` says before the path of its file.
pub open spec fn message_head(kind: ErrorKind) -> Seq<char> {
    match kind {
        ErrorKind::CertificateEmpty => "No certificates in certificate file '"@,
        ErrorKind::CertificateOpen => "Failed to load certificate file '"@,
        ErrorKind::CertificateParse => "Failed to read certificate file '"@,
        ErrorKind::PrivateKeyDecode => "Failed to decode private key in private key file '"@,
        ErrorKind::PrivateKeyEmpty => "No private keys in private key file '"@,
        ErrorKind::PrivateKeyOpen => "Failed to load private key file '"@,
        ErrorKind::PrivateKeyParse => "Failed to read private key file '"@,
        ErrorKind::NotFoundRead => "Failed to load not found file at '"@,
    }
}

/// What an error says: what failed, on which file, and for which hostname where it is about
/// one. The cause is no part of it.
pub open spec fn message_text(error: ErrorView) -> Seq<char> {
    match error.hostname {
        Some(hostname) => message_head(error.kind) + error.path + "' for hostname '"@ + hostname
            + "'"@,
        None => message_head(error.kind) + error.path + "'"@,
    }
}

impl Error {
    /// The kind of this error.
    pub fn kind(&self) -> (r: ErrorKind)
        ensures
            r == self@.kind,
    {
        match self {
            Error::CertificateEmpty { .. } => ErrorKind::CertificateEmpty,
            Error::CertificateOpen { .. } => ErrorKind::CertificateOpen,
            Error::CertificateParse { .. } => ErrorKind::CertificateParse,
            Error::PrivateKeyDecode { .. } => ErrorKind::PrivateKeyDecode,
            Error::PrivateKeyEmpty { .. } => ErrorKind::PrivateKeyEmpty,
            Error::PrivateKeyOpen { .. } => ErrorKind::PrivateKeyOpen,
            Error::PrivateKeyParse { .. } => ErrorKind::PrivateKeyParse,
            Error::NotFoundRead { .. } => ErrorKind::NotFoundRead,
        }
    }

    /// What this error says, as it is shown to the operator.
    pub fn message(&self) -> (r: String)
        ensures
            r@ == message_text(self@),
    {
        match self {
            Error::CertificateEmpty { hostname, path } => about_host(
                "No certificates in certificate file '",
                path,
                hostname,
            ),
            Error::CertificateOpen { hostname, path, .. } => about_host(
                "Failed to load certificate file '",
                path,
                hostname,
            ),
            Error::CertificateParse { hostname, path, .. } => about_host(
                "Failed to read certificate file '",
                path,
                hostname,
            ),
            Error::PrivateKeyDecode { hostname, path, .. } => about_host(
                "Failed to decode private key in private key file '",
                path,
                hostname,
            ),
            Error::PrivateKeyEmpty { hostname, path } => about_host(
                "No private keys in private key file '",
                path,
                hostname,
            ),
            Error::PrivateKeyOpen { hostname, path, .. } => about_host(
                "Failed to load private key file '",
                path,
                hostname,
            ),
            Error::PrivateKeyParse { hostname, path, .. } => about_host(
                "Failed to read private key file '",
                path,
                hostname,
            ),
            Error::NotFoundRead { path, .. } => {
                let mut text = String::from_str("Failed to load not found file at '");
                text.append(path.as_str());
                text.append("'");
                text
            },
        }
    }

    /// The cause of this error, where it has one: what the step that failed said.
    pub fn source(&self) -> (r: Option<&str>)
        ensures
            r is Some <==> self@.cause is Some,
            r matches Some(cause) ==> self@.cause == Some(cause@),
    {
        match self {
            Error::CertificateEmpty { .. } => None,
            Error::CertificateOpen { cause, .. } => Some(cause.as_str()),
            Error::CertificateParse { cause, .. } => Some(cause.as_str()),
            Error::PrivateKeyDecode { cause, .. } => Some(cause.as_str()),
            Error::PrivateKeyEmpty { .. } => None,
            Error::PrivateKeyOpen { cause, .. } => Some(cause.as_str()),
            Error::PrivateKeyParse { cause, .. } => Some(cause.as_str()),
            Error::NotFoundRead { cause, .. } => Some(cause.as_str()),
        }
    }
}

/// The text `head`, `path`, `' for hostname '`, `hostname` and `'`.
fn about_host(head: &str, path: &String, hostname: &String) -> (r: String)
    ensures
        r@ == head@ + path@ + "' for hostname '"@ + hostname@ + "'"@,
{
    let mut text = String::from_str(head);
    text.append(path.as_str());
    text.append("' for hostname '");
    text.append(hostname.as_str());
    text.append("'");
    text
}

/// A certificate chain with the key that signs for it, as the TLS stack takes them.
#[verifier::external_type_specification]
#[verifier::external_body]
pub struct ExCertifiedKey(tokio_rustls::rustls::sign::CertifiedKey);

/// The ways in which a private key is written in DER.
#[derive(Clone, Copy, Debug, PartialEq, Eq, Structural)]
pub enum KeyKind {
    /// An RSA key as PKCS#1 writes it.
    Pkcs1,
    /// An elliptic-curve key as SEC1 writes it.
    Sec1,
    /// A key of any algorithm as PKCS#8 writes it.
    Pkcs8,
}

/// The certificates of the PEM file `pem`, each in DER and in the order of the file, where
/// the sections that are no certificates are left out; nothing where the file is no PEM file.
pub uninterp spec fn pem_certificates(pem: Seq<u8>) -> Option<Seq<Seq<u8>>>;

/// The first private key of the PEM file `pem`, by its kind and its bytes in DER, if the
/// file holds a private key; nothing at all where a section before the first key is
/// malformed.
pub uninterp spec fn pem_private_key(pem: Seq<u8>) -> Option<Option<(KeyKind, Seq<u8>)>>;

/// `rustls_pemfile::certs`, read to its end: the certificates of `pem`, or what the first
/// malformed section is reported with. Whether there is an error, and the certificates
/// where there is none, depend on the bytes of `pem` alone.
#[verifier::external_body]
fn read_certs(pem: &[u8]) -> (r: Result<Vec<Vec<u8>>, String>)
    ensures
        match r {
            Ok(chain) => pem_certificates(pem@) == Some(views(chain)),
            Err(_) => pem_certificates(pem@) is None,
        },
{
    let mut reader = pem;
    let certs: Result<Vec<_>, std::io::Error> = rustls_pemfile::certs(&mut reader).collect();
    match certs {
        Ok(certs) => Ok(certs.iter().map(|cert| cert.as_ref().to_vec()).collect()),
        Err(err) => Err(err.to_string()),
    }
}

/// `rustls_pemfile::private_key`: the first private key of `pem`, if it holds one, or what
/// a malformed section before it is reported with. Which of the three it is, and kind and
/// bytes of the key, depend on the bytes of `pem` alone. A key of a kind other than the
/// three that there are would be reported too.
#[verifier::external_body]
fn read_private_key(pem: &[u8]) -> (r: Result<Option<(KeyKind, Vec<u8>)>, String>)
    ensures
        match r {
            Ok(Some(key)) => pem_private_key(pem@) == Some(Some((key.0, key.1@))),
            Ok(None) => pem_private_key(pem@) == Some(None::<(KeyKind, Seq<u8>)>),
            Err(_) => pem_private_key(pem@) is None,
        },
{
    let mut reader = pem;
    match rustls_pemfile::private_key(&mut reader) {
        Ok(Some(PrivateKeyDer::Pkcs1(key))) => Ok(Some((KeyKind::Pkcs1, key.secret_pkcs1_der().to_vec()))),
        Ok(Some(PrivateKeyDer::Sec1(key))) => Ok(Some((KeyKind::Sec1, key.secret_sec1_der().to_vec()))),
        Ok(Some(PrivateKeyDer::Pkcs8(key))) => Ok(Some((KeyKind::Pkcs8, key.secret_pkcs8_der().to_vec()))),
        Ok(Some(_)) => Err(String::from("a private key of a kind that is not known")),
        Ok(None) => Ok(None),
        Err(err) => Err(err.to_string()),
    }
}

/// `rustls::crypto::ring::sign::any_supported_type` and `rustls::sign::CertifiedKey::new`:
/// the key of the kind `kind` with the bytes `der`, decoded, with `chain` as the chain that
/// it signs for; or what the decoder says of a key that it does not decode. Nothing is
/// claimed of either: the decoder may ask the machine for random numbers, and what it
/// gives is not open to the library.
#[verifier::external_body]
fn certify(chain: &Vec<Vec<u8>>, kind: KeyKind, der: &Vec<u8>) -> (r: Result<Arc<CertifiedKey>, String>) {
    let key = match kind {
        KeyKind::Pkcs1 => PrivateKeyDer::Pkcs1(der.clone().into()),
        KeyKind::Sec1 => PrivateKeyDer::Sec1(der.clone().into()),
        KeyKind::Pkcs8 => PrivateKeyDer::Pkcs8(der.clone().into()),
    };
    let certs = chain.iter().map(|cert| cert.clone().into()).collect();
    match tokio_rustls::rustls::crypto::ring::sign::any_supported_type(&key) {
        Ok(signer) => Ok(Arc::new(CertifiedKey::new(certs, signer))),
        Err(err) => Err(err.to_string()),
    }
}

/// What is held for one hostname: the certificate chain and the private key as the files
/// give them, and both as the TLS stack takes them. No OCSP response is held.
pub struct CertEntry {
    /// The certificates of the chain in DER, the one of the host first.
    pub chain: Vec<Vec<u8>>,
    /// The way in which the private key is written.
    pub kind: KeyKind,
    /// The private key in DER.
    pub key: Vec<u8>,
    /// What the TLS stack made of chain and key: the chain with the key that signs for it.
    pub certified: Arc<CertifiedKey>,
}

/// A certificate chain with its private key: what the files of one hostname give, and what
/// an entry holds of them.
pub struct Pair {
    pub chain: Seq<Seq<u8>>,
    pub kind: KeyKind,
    pub key: Seq<u8>,
}

impl View for CertEntry {
    type V = Pair;

    /// The chain and the key of the entry. What the TLS stack made of them is a value of
    /// its own making and has no part in this.
    open spec fn view(&self) -> Pair {
        Pair { chain: views(self.chain), kind: self.kind, key: self.key@ }
    }
}

/// What is wrong with the certificate file of a hostname, as far as the file tells: it was
/// not opened, it was not read or is no PEM file, or it holds no certificate. Nothing where
/// it holds a chain.
pub open spec fn chain_flaw(certificate: FileRead) -> Option<ErrorKind> {
    match certificate {
        FileRead::NotOpened { .. } => Some(ErrorKind::CertificateOpen),
        FileRead::NotRead { .. } => Some(ErrorKind::CertificateParse),
        FileRead::Read { bytes } => match pem_certificates(bytes@) {
            None => Some(ErrorKind::CertificateParse),
            Some(chain) => if chain.len() == 0 {
                Some(ErrorKind::CertificateEmpty)
            } else {
                None
            },
        },
    }
}

/// What is wrong with the key file of a hostname, as far as the file tells: it was not
/// opened, it was not read or is no PEM file, or it holds no private key. Nothing where it
/// holds a key.
pub open spec fn key_flaw(key: FileRead) -> Option<ErrorKind> {
    match key {
        FileRead::NotOpened { .. } => Some(ErrorKind::PrivateKeyOpen),
        FileRead::NotRead { .. } => Some(ErrorKind::PrivateKeyParse),
        FileRead::Read { bytes } => match pem_private_key(bytes@) {
            None => Some(ErrorKind::PrivateKeyParse),
            Some(None) => Some(ErrorKind::PrivateKeyEmpty),
            Some(Some(_)) => None,
        },
    }
}

/// What is wrong with the files of one hostname, as far as the files tell: what is wrong
/// with the certificate file or, where nothing is, with the key file.
pub open spec fn flaw(files: CertFiles) -> Option<ErrorKind> {
    match chain_flaw(files.certificate) {
        Some(kind) => Some(kind),
        None => key_flaw(files.key),
    }
}

/// The cause that came with a file that was not opened or not read.
pub open spec fn cause_of(read: FileRead) -> Option<Seq<char>> {
    match read {
        FileRead::NotOpened { cause } => Some(cause@),
        FileRead::NotRead { cause } => Some(cause@),
        FileRead::Read { .. } => None,
    }
}

/// Whether `error` tells the flaw `kind` of the file `read` at `path` for `hostname`: it is
/// of that kind and names that hostname and that path, and its cause is the one that came
/// with the file, where one came with it.
pub open spec fn tells(
    error: ErrorView,
    kind: ErrorKind,
    hostname: Seq<char>,
    path: Seq<char>,
    read: FileRead,
) -> bool {
    &&& error.kind == kind
    &&& error.hostname == Some(hostname)
    &&& error.path == path
    &&& cause_of(read) is Some ==> error.cause == cause_of(read)
}

/// The certificate chain that a certificate file holds, where nothing is wrong with it.
pub open spec fn chain_in(certificate: FileRead) -> Seq<Seq<u8>> {
    match certificate {
        FileRead::Read { bytes } => pem_certificates(bytes@)->0,
        _ => Seq::empty(),
    }
}

/// The private key that a key file holds, by its kind and its bytes, where nothing is wrong
/// with the file.
pub open spec fn key_in(key: FileRead) -> (KeyKind, Seq<u8>) {
    match key {
        FileRead::Read { bytes } => pem_private_key(bytes@)->0->0,
        _ => (KeyKind::Pkcs8, Seq::empty()),
    }
}

/// The certificate chain and the private key that the files of one hostname hold, where
/// nothing is wrong with them.
pub open spec fn pair_of(files: CertFiles) -> Pair {
    Pair {
        chain: chain_in(files.certificate),
        kind: key_in(files.key).0,
        key: key_in(files.key).1,
    }
}

/// Whether `error` is the error that is due for the files `files` of `host`: of the kind
/// of their flaw, or of the kind [`ErrorKind::PrivateKeyDecode`] where they have none, and
/// about the hostname and the file that failed. Where a file was not opened or not read,
/// the cause is the one that came with it.
pub open spec fn is_error_of(error: ErrorView, host: HostCert, files: CertFiles) -> bool {
    &&& error.hostname == Some(host.hostname@)
    &&& error.kind == match flaw(files) {
        Some(kind) => kind,
        None => ErrorKind::PrivateKeyDecode,
    }
    &&& error.path == match error.kind {
        ErrorKind::CertificateEmpty | ErrorKind::CertificateOpen | ErrorKind::CertificateParse => host.path.certificate@,
        _ => host.path.key@,
    }
    &&& match (error.kind, files.certificate, files.key) {
        (ErrorKind::CertificateOpen, FileRead::NotOpened { cause }, _) => error.cause == Some(
            cause@,
        ),
        (ErrorKind::CertificateParse, FileRead::NotRead { cause }, _) => error.cause == Some(
            cause@,
        ),
        (ErrorKind::PrivateKeyOpen, _, FileRead::NotOpened { cause }) => error.cause == Some(
            cause@,
        ),
        (ErrorKind::PrivateKeyParse, _, FileRead::NotRead { cause }) => error.cause == Some(
            cause@,
        ),
        _ => true,
    }
}

/// Makes the entry of `host` from the chain and the key that were read and from what the
/// decoding of the key gave.
pub fn entry_from(
    host: &HostCert,
    chain: Vec<Vec<u8>>,
    kind: KeyKind,
    key: Vec<u8>,
    decoded: Result<Arc<CertifiedKey>, String>,
) -> (r: Result<CertEntry, Error>)
    ensures
        match (decoded, r) {
            (Ok(certified), Ok(entry)) => entry.chain == chain && entry.kind == kind && entry.key
                == key && entry.certified == certified,
            (Err(cause), Err(error)) => error@ == (ErrorView {
                kind: ErrorKind::PrivateKeyDecode,
                hostname: Some(host.hostname@),
                path: host.path.key@,
                cause: Some(cause@),
            }),
            _ => false,
        },
{
    match decoded {
        Ok(certified) => Ok(CertEntry { chain, kind, key, certified }),
        Err(cause) => Err(
            Error::PrivateKeyDecode {
                hostname: host.hostname.clone(),
                path: host.path.key.clone(),
                cause,
            },
        ),
    }
}

/// Reads the certificate chain of `host` from what came of reading its certificate file.
/// It fails exactly where the file has a flaw, with the error that tells it.
pub fn load_chain(host: &HostCert, certificate: &FileRead) -> (r: Result<Vec<Vec<u8>>, Error>)
    ensures
        match r {
            Ok(chain) => chain_flaw(*certificate) is None && views(chain) == chain_in(
                *certificate,
            ) && chain@.len() > 0,
            Err(error) => chain_flaw(*certificate) is Some && tells(
                error@,
                chain_flaw(*certificate)->0,
                host.hostname@,
                host.path.certificate@,
                *certificate,
            ),
        },
{
    let chain = match certificate {
        FileRead::NotOpened { cause } => {
            return Err(
                Error::CertificateOpen {
                    hostname: host.hostname.clone(),
                    path: host.path.certificate.clone(),
                    cause: cause.clone(),
                },
            );
        },
        FileRead::NotRead { cause } => {
            return Err(
                Error::CertificateParse {
                    hostname: host.hostname.clone(),
                    path: host.path.certificate.clone(),
                    cause: cause.clone(),
                },
            );
        },
        FileRead::Read { bytes } => match read_certs(bytes.as_slice()) {
            Ok(chain) => chain,
            Err(cause) => {
                return Err(
                    Error::CertificateParse {
                        hostname: host.hostname.clone(),
                        path: host.path.certificate.clone(),
                        cause,
                    },
                );
            },
        },
    };
    if chain.len() == 0 {
        return Err(
            Error::CertificateEmpty {
                hostname: host.hostname.clone(),
                path: host.path.certificate.clone(),
            },
        );
    }
    assert(views(chain).len() == chain@.len());
    Ok(chain)
}

/// Reads the private key of `host` from what came of reading its key file: the first key
/// of the file, by its kind and its bytes. It fails exactly where the file has a flaw,
/// with the error that tells it.
pub fn load_key(host: &HostCert, key: &FileRead) -> (r: Result<(KeyKind, Vec<u8>), Error>)
    ensures
        match r {
            Ok(found) => key_flaw(*key) is None && (found.0, found.1@) == key_in(*key),
            Err(error) => key_flaw(*key) is Some && tells(
                error@,
                key_flaw(*key)->0,
                host.hostname@,
                host.path.key@,
                *key,
            ),
        },
{
    match key {
        FileRead::NotOpened { cause } => Err(
            Error::PrivateKeyOpen {
                hostname: host.hostname.clone(),
                path: host.path.key.clone(),
                cause: cause.clone(),
            },
        ),
        FileRead::NotRead { cause } => Err(
            Error::PrivateKeyParse {
                hostname: host.hostname.clone(),
                path: host.path.key.clone(),
                cause: cause.clone(),
            },
        ),
        FileRead::Read { bytes } => match read_private_key(bytes.as_slice()) {
            Ok(Some(key)) => Ok(key),
            Ok(None) => Err(
                Error::PrivateKeyEmpty {
                    hostname: host.hostname.clone(),
                    path: host.path.key.clone(),
                },
            ),
            Err(cause) => Err(
                Error::PrivateKeyParse {
                    hostname: host.hostname.clone(),
                    path: host.path.key.clone(),
                    cause,
                },
            ),
        },
    }
}

/// Loads what is held for `host` from what came of reading its two files: reads the
/// certificate chain and the private key, and decodes the key.
///
/// It fails where the files have a [`flaw`], with the error of that flaw. Where they have
/// none, the decoder of the TLS stack is asked with the chain and the key of the files,
/// and it decides: the entry holds that chain and that key, or the error says that the key
/// was not decoded.
pub fn load_entry(host: &HostCert, files: &CertFiles) -> (r: Result<CertEntry, Error>)
    ensures
        flaw(*files) is Some ==> r is Err,
        match r {
            Ok(entry) => flaw(*files) is None && entry@ == pair_of(*files),
            Err(error) => is_error_of(error@, *host, *files),
        },
{
    let chain = match load_chain(host, &files.certificate) {
        Ok(chain) => chain,
        Err(error) => {
            return Err(error);
        },
    };
    let (kind, key) = match load_key(host, &files.key) {
        Ok(found) => found,
        Err(error) => {
            return Err(error);
        },
    };
    let decoded = certify(&chain, kind, &key);
    entry_from(host, chain, kind, key, decoded)
}

/// The certificates that are held, by hostname.
pub struct CertStore {
    /// What is held for each hostname.
    pub entries: StringHashMap<CertEntry>,
}

/// The chains and the keys of `entries`, by hostname.
pub open spec fn pairs(entries: Map<Seq<char>, CertEntry>) -> Map<Seq<char>, Pair> {
    entries.map_values(|entry: CertEntry| entry@)
}

/// The chains and the keys that the files of the first `n` of `certs` hold, by hostname.
/// Where a hostname comes twice, its later files count.
pub open spec fn pairs_of(certs: Seq<HostCert>, files: Seq<CertFiles>, n: int) -> Map<Seq<char>, Pair>
    decreases n,
{
    if 0 < n <= certs.len() && n <= files.len() {
        pairs_of(certs, files, n - 1).insert(certs[n - 1].hostname@, pair_of(files[n - 1]))
    } else {
        Map::empty()
    }
}

/// The place of the first of `certs` that is for the hostname `name`, if one is.
pub open spec fn placed(certs: Seq<HostCert>, name: Seq<char>) -> Option<int> {
    if exists|i: int| 0 <= i < certs.len() && (#[trigger] certs[i]).hostname@ == name {
        Some(
            choose|i: int|
                0 <= i < certs.len() && (#[trigger] certs[i]).hostname@ == name && forall|j: int|
                    0 <= j < i ==> (#[trigger] certs[j]).hostname@ != name,
        )
    } else {
        None
    }
}

/// The first of `certs` for `name` is at `at` where none before it is for `name`.
pub proof fn lemma_placed(certs: Seq<HostCert>, name: Seq<char>, at: int)
    requires
        0 <= at < certs.len(),
        certs[at].hostname@ == name,
        forall|j: int| 0 <= j < at ==> (#[trigger] certs[j]).hostname@ != name,
    ensures
        placed(certs, name) == Some(at),
{
    let found = placed(certs, name)->0;
    assert(0 <= found < certs.len() && certs[found].hostname@ == name && forall|j: int|
        0 <= j < found ==> (#[trigger] certs[j]).hostname@ != name);
    if found < at {
        assert(certs[found].hostname@ != name);
    } else if at < found {
        assert(certs[at].hostname@ != name);
    }
}

/// None of `certs` is for `name` where each of them is for another hostname.
pub proof fn lemma_not_placed(certs: Seq<HostCert>, name: Seq<char>)
    requires
        forall|j: int| 0 <= j < certs.len() ==> (#[trigger] certs[j]).hostname@ != name,
    ensures
        placed(certs, name) is None,
{
}

/// Whether no hostname comes twice in `certs`.
pub open spec fn distinct(certs: Seq<HostCert>) -> bool {
    forall|i: int, j: int|
        0 <= i < j < certs.len() ==> (#[trigger] certs[i]).hostname@ != (#[trigger] certs[j]).hostname@
}

/// What the store gives for the server name that a client sent, if it sent one: the entry
/// under exactly that name. There is no entry to fall back on.
pub open spec fn resolved(entries: Map<Seq<char>, CertEntry>, server_name: Option<Seq<char>>) -> Option<
    CertEntry,
> {
    match server_name {
        Some(name) => if entries.contains_key(name) {
            Some(entries[name])
        } else {
            None
        },
        None => None,
    }
}

/// What was loaded is held for the hostnames of the configuration, and for no other name.
pub proof fn law_loaded_names(certs: Seq<HostCert>, files: Seq<CertFiles>, n: int, name: Seq<char>)
    requires
        0 <= n <= certs.len(),
        n <= files.len(),
    ensures
        pairs_of(certs, files, n).contains_key(name) <==> exists|i: int|
            0 <= i < n && #[trigger] certs[i].hostname@ == name,
    decreases n,
{
    if n > 0 {
        law_loaded_names(certs, files, n - 1, name);
        if pairs_of(certs, files, n).contains_key(name) {
            if certs[n - 1].hostname@ != name {
                let i = choose|i: int| 0 <= i < n - 1 && #[trigger] certs[i].hostname@ == name;
                assert(0 <= i < n && certs[i].hostname@ == name);
            }
        }
    }
}

/// Where no hostname comes twice, what was loaded for a hostname is the chain and the key
/// of its own files: the pair of no other hostname stands in its place.
pub proof fn law_loaded_pairs(certs: Seq<HostCert>, files: Seq<CertFiles>, n: int, i: int)
    requires
        0 <= i < n <= certs.len(),
        n <= files.len(),
        distinct(certs),
    ensures
        pairs_of(certs, files, n).contains_key(certs[i].hostname@),
        pairs_of(certs, files, n)[certs[i].hostname@] == pair_of(files[i]),
    decreases n,
{
    if i < n - 1 {
        law_loaded_pairs(certs, files, n - 1, i);
    }
}

impl CertStore {
    /// A store that holds nothing.
    pub fn new() -> (r: CertStore)
        ensures
            r.entries@ == Map::<Seq<char>, CertEntry>::empty(),
    {
        CertStore { entries: StringHashMap::new() }
    }

    /// Holds `entry` for `hostname` from now on, in place of what was held for it.
    pub fn insert(&mut self, hostname: String, entry: CertEntry)
        ensures
            final(self).entries@ == old(self).entries@.insert(hostname@, entry),
    {
        self.entries.insert(hostname, entry);
    }

    /// Looks up the entry for the server name of a handshake: a read of the map and
    /// nothing else.
    pub fn resolve(&self, server_name: Option<&str>) -> (r: Option<&CertEntry>)
        ensures
            match r {
                Some(entry) => resolved(
                    self.entries@,
                    match server_name {
                        Some(name) => Some(name@),
                        None => None,
                    },
                ) == Some(*entry),
                None => resolved(
                    self.entries@,
                    match server_name {
                        Some(name) => Some(name@),
                        None => None,
                    },
                ) is None,
            },
    {
        match server_name {
            Some(name) => self.entries.get(name),
            None => None,
        }
    }
}

/// A handshake that names a hostname for which an entry is held gets that entry, and one
/// that names another hostname, or none, gets nothing.
pub proof fn law_resolve_by_name(
    entries: Map<Seq<char>, CertEntry>,
    hostname: Seq<char>,
    entry: CertEntry,
    server_name: Option<Seq<char>>,
)
    ensures
        resolved(entries.insert(hostname, entry), Some(hostname)) == Some(entry),
        resolved(entries, None) is None,
        server_name matches Some(name) && !entries.contains_key(name) ==> resolved(
            entries,
            server_name,
        ) is None,
        server_name matches Some(name) && name != hostname ==> resolved(
            entries.insert(hostname, entry),
            server_name,
        ) == resolved(entries, server_name),
{
}

impl Config {
    /// Whether the configuration is as it is meant to be: no hostname has its certificate
    /// files given twice.
    pub open spec fn wf(&self) -> bool {
        distinct(self.certs@)
    }

    /// Gives `hostname` the certificate files at `path` from now on, in place of those that
    /// it had, if it had any.
    pub fn set_cert(&mut self, hostname: String, path: CertPath)
        requires
            old(self).wf(),
        ensures
            final(self).wf(),
            final(self).address == old(self).address,
            final(self).ports == old(self).ports,
            final(self).hostnames == old(self).hostnames,
            final(self).certbot_hostname == old(self).certbot_hostname,
            final(self).not_found_file == old(self).not_found_file,
            match placed(old(self).certs@, hostname@) {
                Some(at) => final(self).certs@ == old(self).certs@.update(
                    at,
                    HostCert { hostname, path },
                ),
                None => final(self).certs@ == old(self).certs@.push(HostCert { hostname, path }),
            },
    {
        let mut i: usize = 0;
        while i < self.certs.len()
            invariant
                i <= self.certs@.len(),
                *self == *old(self),
                distinct(self.certs@),
                forall|j: int| 0 <= j < i ==> (#[trigger] self.certs@[j]).hostname@ != hostname@,
            decreases self.certs@.len() - i,
        {
            if str_eq(self.certs[i].hostname.as_str(), hostname.as_str()) {
                proof {
                    lemma_placed(self.certs@, hostname@, i as int);
                }
                let ghost before = self.certs@;
                self.certs[i] = HostCert { hostname, path };
                proof {
                    let after = self.certs@;
                    assert(after == before.update(i as int, HostCert { hostname, path }));
                    assert forall|a: int, b: int| 0 <= a < b < after.len() implies (
                    #[trigger] after[a]).hostname@ != (#[trigger] after[b]).hostname@ by {
                        assert(after[a].hostname@ == before[a].hostname@);
                        assert(after[b].hostname@ == before[b].hostname@);
                    }
                }
                return;
            }
            i += 1;
        }
        proof {
            lemma_not_placed(self.certs@, hostname@);
        }
        let ghost before = self.certs@;
        self.certs.push(HostCert { hostname, path });
        proof {
            let after = self.certs@;
            assert forall|a: int, b: int| 0 <= a < b < after.len() implies (#[trigger] after[a]).hostname@
                != (#[trigger] after[b]).hostname@ by {
                if b < before.len() {
                    assert(after[a] == before[a] && after[b] == before[b]);
                } else {
                    assert(after[a] == before[a]);
                }
            }
        }
    }

    /// A configuration for the listeners on `ports` of `address`, with the not-found page
    /// at `not_found_file`: no hostname is mapped, none has a certificate, and ACME
    /// challenges are not deflected.
    pub fn new(address: BindAddress, ports: Vec<u16>, not_found_file: String) -> (r: Config)
        ensures
            r.address == address,
            r.ports == ports,
            r.hostnames@ == Map::<Seq<char>, String>::empty(),
            r.certs@ == Seq::<HostCert>::empty(),
            r.certbot_hostname is None,
            r.not_found_file == not_found_file,
            r.wf(),
    {
        Config {
            address,
            ports,
            hostnames: StringHashMap::new(),
            certs: Vec::new(),
            certbot_hostname: None,
            not_found_file,
        }
    }

    /// Maps `hostname` to `target` from now on, in place of what it was mapped to.
    pub fn map_hostname(&mut self, hostname: String, target: String)
        ensures
            final(self).hostnames@ == old(self).hostnames@.insert(hostname@, target),
            final(self).address == old(self).address,
            final(self).ports == old(self).ports,
            final(self).certs == old(self).certs,
            final(self).certbot_hostname == old(self).certbot_hostname,
            final(self).not_found_file == old(self).not_found_file,
    {
        self.hostnames.insert(hostname, target);
    }

    /// Gives the not-found page from what came of reading the file at
    /// [`Config::not_found_file`]: its bytes, or the error that names the file and the
    /// cause.
    pub fn load_not_found_file(&self, read: Result<Vec<u8>, String>) -> (r: Result<Vec<u8>, Error>)
        ensures
            match (read, r) {
                (Ok(bytes), Ok(page)) => page == bytes,
                (Err(cause), Err(error)) => error@ == (ErrorView {
                    kind: ErrorKind::NotFoundRead,
                    hostname: None,
                    path: self.not_found_file@,
                    cause: Some(cause@),
                }),
                _ => false,
            },
    {
        match read {
            Ok(bytes) => Ok(bytes),
            Err(cause) => Err(Error::NotFoundRead { path: self.not_found_file.clone(), cause }),
        }
    }

    /// Builds the store of certificates from what came of reading the files of
    /// [`Config::certs`]: `files[i]` belongs to `certs[i]`.
    ///
    /// The hostnames are loaded in order, and the first that fails ends the loading with
    /// its error: none of the hostnames before it has a flaw in its files. Where a
    /// hostname has a flaw, the loading fails. Where it succeeds, the store holds for each
    /// hostname the chain of its certificate file and the key of its key file, and nothing
    /// else. Whether a key that was read is decoded is up to the decoder of the TLS stack:
    /// with no hostname the loading succeeds, with any it may fail on the key.
    pub fn load_certstore(&self, files: &Vec<CertFiles>) -> (r: Result<CertStore, Error>)
        requires
            files@.len() == self.certs@.len(),
        ensures
            (exists|i: int| 0 <= i < files@.len() && flaw(#[trigger] files@[i]) is Some)
                ==> r is Err,
            match r {
                Ok(store) => {
                    &&& forall|i: int| 0 <= i < files@.len() ==> flaw(#[trigger] files@[i]) is None
                    &&& pairs(store.entries@) == pairs_of(
                        self.certs@,
                        files@,
                        files@.len() as int,
                    )
                    &&& self.wf() ==> forall|i: int|
                        0 <= i < files@.len() ==> store.entries@.contains_key(
                            (#[trigger] self.certs@[i]).hostname@,
                        ) && store.entries@[self.certs@[i].hostname@]@ == pair_of(files@[i])
                },
                Err(error) => exists|i: int|
                    {
                        &&& 0 <= i < files@.len()
                        &&& #[trigger] is_error_of(error@, self.certs@[i], files@[i])
                        &&& forall|j: int| 0 <= j < i ==> flaw(#[trigger] files@[j]) is None
                    },
            },
    {
        let mut store = CertStore::new();
        let mut i: usize = 0;
        assert(pairs(store.entries@) =~= pairs_of(self.certs@, files@, 0));
        while i < files.len()
            invariant
                i <= files@.len(),
                files@.len() == self.certs@.len(),
                forall|j: int| 0 <= j < i ==> flaw(#[trigger] files@[j]) is None,
                pairs(store.entries@) == pairs_of(self.certs@, files@, i as int),
            decreases files@.len() - i,
        {
            let host = &self.certs[i];
            match load_entry(host, &files[i]) {
                Ok(entry) => {
                    let ghost before = store.entries@;
                    store.insert(host.hostname.clone(), entry);
                    assert(pairs(store.entries@) =~= pairs(before).insert(host.hostname@, entry@));
                },
                Err(error) => {
                    assert(is_error_of(error@, self.certs@[i as int], files@[i as int]));
                    return Err(error);
                },
            }
            i += 1;
        }
        proof {
            if self.wf() {
                assert forall|k: int| 0 <= k < files@.len() implies store.entries@.contains_key(
                    (#[trigger] self.certs@[k]).hostname@,
                ) && store.entries@[self.certs@[k].hostname@]@ == pair_of(files@[k]) by {
                    law_loaded_pairs(self.certs@, files@, files@.len() as int, k);
                    assert(pairs(store.entries@).contains_key(self.certs@[k].hostname@));
                }
            }
        }
        Ok(store)
    }
}

} // verus!

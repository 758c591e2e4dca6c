//! The certificate and key the tunnel listener presents: read from PEM
//! files, or generated as a self-signed pair.
use vstd::prelude::*;

verus! {

#[verifier::external_type_specification]
#[verifier::external_body]
pub struct ExPrivateKeyDer<'a>(rustls::pki_types::PrivateKeyDer<'a>);

#[verifier::external_type_specification]
#[verifier::external_body]
pub struct ExRcgenError(rcgen::Error);

/// Why the listener's certificate or key cannot be had.
#[derive(Debug)]
pub enum TlsSetupError {
    /// A PEM file could not be read.
    Pem(std::io::Error),
    /// The key file holds no private key; the path of that file.
    MissingKey(String),
    /// The self-signed certificate could not be generated.
    Generate(rcgen::Error),
    /// The generated key is no private key `rustls` knows; why not.
    InvalidKey(String),
}

/// The DER certificates `rustls_pemfile::certs` finds in `pem`, in order, or
/// `None` when it reports an error.
pub uninterp spec fn pem_certs(pem: Seq<u8>) -> Option<Seq<Seq<u8>>>;

/// The DER bytes of each certificate, in order.
pub open spec fn ders_view(v: Seq<Vec<u8>>) -> Seq<Seq<u8>> {
    v.map_values(|c: Vec<u8>| c@)
}

/// `rustls_pemfile::certs` over the bytes `pem`, collected: the DER bytes of
/// every certificate section, or the first error it reports.
#[verifier::external_body]
fn read_pem_certs(pem: &[u8]) -> (r: Result<Vec<Vec<u8>>, std::io::Error>)
    ensures
        match r {
            Ok(v) => pem_certs(pem@) == Some(ders_view(v@)),
            Err(_) => pem_certs(pem@) is None,
        },
{
    let mut reader: &[u8] = pem;
    rustls_pemfile::certs(&mut reader).map(|c| c.map(|d| d.to_vec())).collect()
}

/// The encodings a private key can come in.
#[derive(Debug, Clone, Copy, PartialEq, Eq, Structural)]
pub enum KeyFormat {
    /// An RSA key, PKCS#1 (`RSA PRIVATE KEY`).
    Pkcs1,
    /// An elliptic-curve key, SEC1 (`EC PRIVATE KEY`).
    Sec1,
    /// Any key, PKCS#8 (`PRIVATE KEY`).
    Pkcs8,
}

/// A private key: its encoding and its DER bytes.
#[derive(Debug)]
pub struct KeyDer {
    pub format: KeyFormat,
    pub der: Vec<u8>,
}

/// The first private key `rustls_pemfile::private_key` finds in `pem`, with
/// its encoding: `Some(None)` when there is none, `None` when it reports an
/// error.
pub uninterp spec fn pem_first_key(pem: Seq<u8>) -> Option<Option<(KeyFormat, Seq<u8>)>>;

/// `rustls_pemfile::private_key` over the bytes `pem`: the first private key
/// section (PKCS#1, SEC1 or PKCS#8) with its DER bytes, none, or the error
/// it reports. That function only ever yields those three encodings; a key
/// of any other would come back as an `Unsupported` error, and the contract
/// then counts it among the errors.
#[verifier::external_body]
fn read_pem_key(pem: &[u8]) -> (r: Result<Option<KeyDer>, std::io::Error>)
    ensures
        match r {
            Ok(None) => pem_first_key(pem@) == Some(None::<(KeyFormat, Seq<u8>)>),
            Ok(Some(k)) => pem_first_key(pem@) == Some(Some((k.format, k.der@))),
            Err(_) => pem_first_key(pem@) is None,
        },
{
    let mut reader: &[u8] = pem;
    match rustls_pemfile::private_key(&mut reader)? {
        None => Ok(None),
        Some(rustls::pki_types::PrivateKeyDer::Pkcs1(k)) => Ok(Some(KeyDer { format: KeyFormat::Pkcs1, der: k.secret_pkcs1_der().to_vec() })),
        Some(rustls::pki_types::PrivateKeyDer::Sec1(k)) => Ok(Some(KeyDer { format: KeyFormat::Sec1, der: k.secret_sec1_der().to_vec() })),
        Some(rustls::pki_types::PrivateKeyDer::Pkcs8(k)) => Ok(Some(KeyDer { format: KeyFormat::Pkcs8, der: k.secret_pkcs8_der().to_vec() })),
        Some(_) => Err(std::io::ErrorKind::Unsupported.into()),
    }
}

/// The certificates of a PEM certificate file, as DER bytes in file order.
pub fn certificates_from_pem(pem: &[u8]) -> (r: Result<Vec<Vec<u8>>, TlsSetupError>)
    ensures
        match pem_certs(pem@) {
            Some(cs) => r matches Ok(v) && ders_view(v@) == cs,
            None => r matches Err(TlsSetupError::Pem(_)),
        },
{
    match read_pem_certs(pem) {
        Ok(v) => Ok(v),
        Err(e) => Err(TlsSetupError::Pem(e)),
    }
}

/// The first private key of a PEM key file read from `key_path`; a file
/// without one is `MissingKey(key_path)`.
pub fn private_key_from_pem(pem: &[u8], key_path: &str) -> (r: Result<KeyDer, TlsSetupError>)
    ensures
        match pem_first_key(pem@) {
            Some(Some((f, d))) => r matches Ok(k) && k.format == f && k.der@ == d,
            Some(None) => r matches Err(TlsSetupError::MissingKey(p)) && p@ == key_path@,
            None => r matches Err(TlsSetupError::Pem(_)),
        },
{
    match read_pem_key(pem) {
        Ok(Some(k)) => Ok(k),
        Ok(None) => Err(TlsSetupError::MissingKey(key_path.to_owned())),
        Err(e) => Err(TlsSetupError::Pem(e)),
    }
}

/// The names a self-signed certificate for `domain` is issued to: that one.
fn subject_alt_names(domain: &str) -> (v: Vec<String>)
    ensures
        v@.len() == 1,
        v@[0]@ == domain@,
{
    let mut v: Vec<String> = Vec::new();
    v.push(domain.to_owned());
    v
}

/// `rcgen::generate_simple_self_signed(names)`: the DER bytes of a fresh
/// self-signed certificate for `names` and of its PKCS#8 key, both
/// non-empty. The key is random, so which pair comes out is left open.
#[verifier::external_body]
fn generate_self_signed(names: Vec<String>) -> (r: Result<(Vec<u8>, Vec<u8>), rcgen::Error>)
    ensures
        r matches Ok((c, k)) ==> c@.len() > 0 && k@.len() > 0,
{
    let certified = rcgen::generate_simple_self_signed(names)?;
    Ok((certified.cert.der().to_vec(), certified.key_pair.serialize_der()))
}

/// The encoding `PrivateKeyDer::try_from` recognises in the DER bytes `key`:
/// after an outer SEQUENCE (tag `0x30` and its length, short or long form),
/// a one-byte version INTEGER followed by a SEQUENCE is PKCS#8, version 0 is
/// PKCS#1 and version 1 is SEC1; anything else is no key.
pub open spec fn der_key_form(key: Seq<u8>) -> Option<KeyFormat> {
    if key.len() < 2 || key[0] != 0x30 {
        None
    } else {
        let skip: int = if key[1] < 128 { 2 } else { 2 + (key[1] - 128) };
        let b = key.skip(skip);
        if skip > key.len() {
            None
        } else if b.len() >= 4 && b[0] == 0x02 && b[1] == 0x01 && b[3] == 0x30 {
            Some(KeyFormat::Pkcs8)
        } else if b.len() >= 3 && b[0] == 0x02 && b[1] == 0x01 && b[2] == 0x00 {
            Some(KeyFormat::Pkcs1)
        } else if b.len() >= 3 && b[0] == 0x02 && b[1] == 0x01 && b[2] == 0x01 {
            Some(KeyFormat::Sec1)
        } else {
            None
        }
    }
}

/// `rustls::pki_types::PrivateKeyDer::try_from(Vec<u8>)`: the key whose DER
/// bytes are `der`, when `der_key_form` recognises them, or the reason they
/// are not recognised.
#[verifier::external_body]
fn private_key_from_der(der: Vec<u8>) -> (r: Result<rustls::pki_types::PrivateKeyDer<'static>, &'static str>)
    ensures
        r is Ok <==> der_key_form(der@) is Some,
{
    rustls::pki_types::PrivateKeyDer::try_from(der)
}

/// The certificate and key of a generated self-signed pair, ready to serve:
/// a generation error is `Generate`; a key `rustls` does not recognise is
/// `InvalidKey`; otherwise the certificate's bytes as they came.
pub fn self_signed_from(generated: Result<(Vec<u8>, Vec<u8>), rcgen::Error>) -> (r: Result<
    (Vec<u8>, rustls::pki_types::PrivateKeyDer<'static>),
    TlsSetupError,
>)
    ensures
        match generated {
            Err(_) => r matches Err(TlsSetupError::Generate(_)),
            Ok((c, k)) => {
                &&& (r is Ok <==> der_key_form(k@) is Some)
                &&& (r matches Ok((c2, _)) ==> c2@ == c@)
                &&& (r matches Err(e) ==> e is InvalidKey)
            },
        },
{
    match generated {
        Ok((cert, key_der)) => match private_key_from_der(key_der) {
            Ok(key) => Ok((cert, key)),
            Err(why) => Err(TlsSetupError::InvalidKey(why.to_owned())),
        },
        Err(e) => Err(TlsSetupError::Generate(e)),
    }
}

/// A self-signed certificate for `domain` (DER bytes, non-empty) and its
/// private key, for serving without certificate files.
pub fn self_signed(domain: &str) -> (r: Result<(Vec<u8>, rustls::pki_types::PrivateKeyDer<'static>), TlsSetupError>)
    ensures
        r matches Ok((c, _)) ==> c@.len() > 0,
        r matches Err(e) ==> (e is Generate || e is InvalidKey),
{
    self_signed_from(generate_self_signed(subject_alt_names(domain)))
}

} // verus!

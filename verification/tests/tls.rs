use tunnel::tls::{
    certificates_from_pem, private_key_from_pem, self_signed, self_signed_from, KeyFormat, TlsSetupError,
};

fn generated() -> (String, String, Vec<u8>) {
    let c = rcgen::generate_simple_self_signed(vec!["localhost".to_string()]).unwrap();
    (c.cert.pem(), c.key_pair.serialize_pem(), c.cert.der().to_vec())
}

fn generated_key_der() -> Vec<u8> {
    let c = rcgen::generate_simple_self_signed(vec!["localhost".to_string()]).unwrap();
    c.key_pair.serialize_der()
}

#[test]
fn certificates_in_file_order() {
    let (cert_pem, key_pem, der) = generated();
    let (cert_pem2, _, der2) = generated();
    let text = format!("{cert_pem}{key_pem}{cert_pem2}");
    let certs = certificates_from_pem(text.as_bytes()).unwrap();
    assert_eq!(certs, vec![der, der2]);
}

#[test]
fn no_certificates_in_empty_file() {
    assert_eq!(certificates_from_pem(b"").unwrap(), Vec::<Vec<u8>>::new());
}

#[test]
fn broken_certificate_section_is_pem_error() {
    let text = b"-----BEGIN CERTIFICATE-----\n!!!not base64!!!\n-----END CERTIFICATE-----\n";
    assert!(matches!(certificates_from_pem(text), Err(TlsSetupError::Pem(_))));
}

#[test]
fn key_found_after_certificate() {
    let (cert_pem, key_pem, _) = generated();
    let text = format!("{cert_pem}{key_pem}");
    let key = private_key_from_pem(text.as_bytes(), "key.pem").unwrap();
    assert_eq!(key.format, KeyFormat::Pkcs8);
    let c = rcgen::KeyPair::from_pem(&key_pem).unwrap();
    assert_eq!(key.der, c.serialize_der());
}

#[test]
fn file_without_key_names_its_path() {
    let (cert_pem, _, _) = generated();
    match private_key_from_pem(cert_pem.as_bytes(), "/etc/tunnel/key.pem") {
        Err(TlsSetupError::MissingKey(p)) => assert_eq!(p, "/etc/tunnel/key.pem"),
        other => panic!("expected a missing key, got {other:?}"),
    }
}

#[test]
fn self_signed_pair_for_domain() {
    let (cert, key) = self_signed("tunnel.example.org").unwrap();
    assert!(!cert.is_empty());
    assert!(!key.secret_der().is_empty());
}

#[test]
fn first_of_two_keys() {
    let (_, key_a, _) = generated();
    let (_, key_b, _) = generated();
    let text = format!("{key_a}{key_b}");
    let key = private_key_from_pem(text.as_bytes(), "key.pem").unwrap();
    assert_eq!(key.der, rcgen::KeyPair::from_pem(&key_a).unwrap().serialize_der());
}

#[test]
fn generated_pair_passes_through() {
    let key = generated_key_der();
    let (cert, k) = self_signed_from(Ok((vec![1, 2, 3], key.clone()))).unwrap();
    assert_eq!(cert, vec![1, 2, 3]);
    assert_eq!(k.secret_der(), &key[..]);
}

#[test]
fn short_pkcs1_shape_is_recognised() {
    let der = vec![0x30, 0x03, 0x02, 0x01, 0x00];
    assert!(self_signed_from(Ok((vec![9], der))).is_ok());
}

#[test]
fn unrecognised_key_is_invalid() {
    let r = self_signed_from(Ok((vec![9], vec![0x30, 0x03, 0x02, 0x01, 0x05])));
    assert!(matches!(r, Err(TlsSetupError::InvalidKey(_))));
    let r = self_signed_from(Ok((vec![9], vec![1, 2, 3])));
    assert!(matches!(r, Err(TlsSetupError::InvalidKey(_))));
}

#[test]
fn generation_error_is_generate() {
    let r = self_signed_from(Err(rcgen::Error::CouldNotParseKeyPair));
    assert!(matches!(r, Err(TlsSetupError::Generate(_))));
}

use nexosign::der_attrs::{signing_certificate_v2_der, wrap_sequence};
use nexosign::pkcs11_objects::{collect_signing_certs, find_cert_by_listed_id, signing_cert_from_object, CertObject};
use nexosign::pkcs11_support::cert_id_hex_for;
use nexosign::signing_cert::{sha1_thumbprint_hex, SigningCertSource, SigningPinUi};
use nexosign::x509::{der_is_signing_certificate, get_signer_name_from_der, subject_dn_from_der};
use sha1::Digest as _;

// Key Usage bits, as the BIT STRING contents (unused-bit count, then the bits).
const KU_DIGITAL_SIGNATURE: [u8; 2] = [0x07, 0x80];
const KU_NON_REPUDIATION: [u8; 2] = [0x06, 0x40];
const KU_AUTH: [u8; 2] = [0x05, 0xA0];
const KU_SIGN_AND_NON_REPUDIATION: [u8; 2] = [0x06, 0xC0];

fn tlv(tag: u8, content: &[u8]) -> Vec<u8> {
    let mut out = vec![tag];
    let n = content.len();
    if n < 128 {
        out.push(n as u8);
    } else if n < 256 {
        out.extend_from_slice(&[0x81, n as u8]);
    } else {
        out.extend_from_slice(&[0x82, (n >> 8) as u8, (n & 0xff) as u8]);
    }
    out.extend_from_slice(content);
    out
}

fn seq(parts: &[Vec<u8>]) -> Vec<u8> {
    tlv(0x30, &parts.concat())
}

fn sha256_with_rsa() -> Vec<u8> {
    seq(&[tlv(0x06, &[0x2A, 0x86, 0x48, 0x86, 0xF7, 0x0D, 0x01, 0x01, 0x0B]), vec![0x05, 0x00]])
}

fn name(cn: Option<&str>, org: &str) -> Vec<u8> {
    let mut rdns = Vec::new();
    rdns.push(tlv(0x31, &seq(&[tlv(0x06, &[0x55, 0x04, 0x0A]), tlv(0x0C, org.as_bytes())])));
    if let Some(cn) = cn {
        rdns.push(tlv(0x31, &seq(&[tlv(0x06, &[0x55, 0x04, 0x03]), tlv(0x0C, cn.as_bytes())])));
    }
    seq(&rdns)
}

/// A small X.509 v3 certificate (RSA key, not signed by anyone) with the given
/// subject and, when given, a Key Usage extension.
fn certificate(subject_cn: Option<&str>, key_usage: Option<[u8; 2]>) -> Vec<u8> {
    let mut modulus = vec![0x00, 0xC5];
    modulus.extend(std::iter::repeat(0x5A).take(63));
    let rsa_key = seq(&[tlv(0x02, &modulus), tlv(0x02, &[0x01, 0x00, 0x01])]);
    let mut key_bits = vec![0x00];
    key_bits.extend_from_slice(&rsa_key);
    let spki = seq(&[
        seq(&[tlv(0x06, &[0x2A, 0x86, 0x48, 0x86, 0xF7, 0x0D, 0x01, 0x01, 0x01]), vec![0x05, 0x00]]),
        tlv(0x03, &key_bits),
    ]);
    let mut tbs_parts = vec![
        tlv(0xA0, &tlv(0x02, &[0x02])),
        tlv(0x02, &[0x01, 0x23, 0x45]),
        sha256_with_rsa(),
        name(Some("Test CA"), "Pruebas"),
        seq(&[tlv(0x17, b"250101000000Z"), tlv(0x17, b"350101000000Z")]),
        name(subject_cn, "Pruebas"),
        spki,
    ];
    if let Some(ku) = key_usage {
        let ext = seq(&[tlv(0x06, &[0x55, 0x1D, 0x0F]), tlv(0x01, &[0xFF]), tlv(0x04, &tlv(0x03, &ku))]);
        tbs_parts.push(tlv(0xA3, &seq(&[ext])));
    }
    let tbs = seq(&tbs_parts);
    seq(&[tbs, sha256_with_rsa(), tlv(0x03, &[0x00, 0x01, 0x02, 0x03])])
}

#[test]
fn fixture_digital_signature_only_rejected() {
    let der = certificate(Some("Ana Perez"), Some(KU_DIGITAL_SIGNATURE));
    assert!(!der_is_signing_certificate(der.as_slice()));
}

#[test]
fn fixture_auth_only_rejected() {
    let der = certificate(Some("Ana Perez (AUTENTICACION)"), Some(KU_AUTH));
    assert!(!der_is_signing_certificate(der.as_slice()));
}

#[test]
fn non_repudiation_marks_a_signing_certificate() {
    assert!(der_is_signing_certificate(&certificate(Some("Ana Perez"), Some(KU_NON_REPUDIATION))));
    assert!(der_is_signing_certificate(&certificate(Some("Ana Perez"), Some(KU_SIGN_AND_NON_REPUDIATION))));
    assert!(!der_is_signing_certificate(&certificate(Some("Ana Perez"), None)));
    assert!(!der_is_signing_certificate(b"not a certificate"));
}

#[test]
fn signer_name_and_subject_are_read_from_the_certificate() {
    let with_cn = certificate(Some("Ana Perez"), Some(KU_NON_REPUDIATION));
    assert_eq!(get_signer_name_from_der(&with_cn), "Ana Perez");
    assert_eq!(subject_dn_from_der(&with_cn), "O=Pruebas, CN=Ana Perez");

    let without_cn = certificate(None, Some(KU_NON_REPUDIATION));
    assert_eq!(get_signer_name_from_der(&without_cn), "O=Pruebas");
    assert_eq!(subject_dn_from_der(&without_cn), "O=Pruebas");
}

#[test]
fn signing_certificate_v2_names_hash_issuer_and_serial() {
    let der = certificate(Some("Ana Perez"), Some(KU_NON_REPUDIATION));
    let v2 = signing_certificate_v2_der(&der).unwrap();
    let hash = sha2::Sha256::digest(&der);
    let mut cert_hash = vec![0x04, 0x20];
    cert_hash.extend_from_slice(&hash);
    let issuer = name(Some("Test CA"), "Pruebas");
    let directory_name = tlv(0xA4, &issuer);
    let issuer_serial = wrap_sequence(&[wrap_sequence(&directory_name), tlv(0x02, &[0x01, 0x23, 0x45])].concat());
    let expected = wrap_sequence(&wrap_sequence(&[cert_hash, issuer_serial].concat()));
    assert_eq!(v2, expected);
}

#[test]
fn token_objects_become_signing_certificate_summaries() {
    let signing = certificate(Some("Ana Perez"), Some(KU_NON_REPUDIATION));
    let auth = certificate(Some("Ana Perez (AUTENTICACION)"), Some(KU_AUTH));
    let objs = vec![
        CertObject { value: Some(auth.clone()), label: Some(b"auth".to_vec()), id: Some(vec![0x01]) },
        CertObject { value: Some(signing.clone()), label: Some(b"firma".to_vec()), id: Some(vec![0x0A, 0xBC]) },
        CertObject { value: None, label: Some(b"sin valor".to_vec()), id: Some(vec![0x02]) },
    ];
    assert!(signing_cert_from_object(&objs[0]).is_none());
    let s = signing_cert_from_object(&objs[1]).unwrap();
    assert_eq!(s.id_hex, "0abc");
    assert_eq!(s.label, "firma");
    assert_eq!(s.subject_dn, "O=Pruebas, CN=Ana Perez");
    assert_eq!(s.source, SigningCertSource::Pkcs11);
    assert_eq!(s.pin_ui, SigningPinUi::RequiredInApp);
    let thumb: String = sha1::Sha1::digest(&signing).iter().map(|b| format!("{b:02x}")).collect();
    assert_eq!(s.cert_thumbprint_sha1_hex, thumb);
    assert_eq!(sha1_thumbprint_hex(&signing), thumb);

    let listed = collect_signing_certs(&objs);
    assert_eq!(listed.len(), 1);
    assert_eq!(listed[0].id_hex, "0abc");

    let (der, raw_id) = find_cert_by_listed_id(&objs, "0ABC").unwrap();
    assert_eq!(der, signing);
    assert_eq!(raw_id, vec![0x0A, 0xBC]);
    assert!(find_cert_by_listed_id(&objs, "01").is_none());

    let prefix_id = cert_id_hex_for(None, &signing);
    let expected: String = signing[..32].iter().map(|b| format!("{b:02x}")).collect();
    assert_eq!(prefix_id, expected);
}

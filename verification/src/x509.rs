//! What the library reads from X.509 certificates (parsed with `x509-parser`).
//!
//! Each wrapper parses the DER and hands back plain values; the parse result
//! itself is named, since X.509/DER parsing takes pages to state.

use vstd::prelude::*;

verus! {

/// The Key Usage extension of a DER certificate: `None` when the certificate
/// does not parse or the extension is malformed or repeated, `Some(None)` when
/// it is absent, and `Some(Some(b))` with `b` its `nonRepudiation` bit.
pub uninterp spec fn key_usage_non_repudiation_of(der: Seq<u8>) -> Option<Option<bool>>;

/// The subject of a DER certificate as `x509-parser` prints it, `None` when it does not parse.
pub uninterp spec fn subject_text_of(der: Seq<u8>) -> Option<Seq<char>>;

/// The first common name of the subject that reads as UTF-8 text (if any), and
/// the printed subject; `None` when the certificate does not parse.
pub uninterp spec fn subject_names_of(der: Seq<u8>) -> Option<(Option<Seq<char>>, Seq<char>)>;

/// The raw DER of the issuer name and the raw bytes of the serial number;
/// `None` when the certificate does not parse.
pub uninterp spec fn issuer_and_serial_of(der: Seq<u8>) -> Option<(Seq<u8>, Seq<u8>)>;

/// `X509Certificate::from_der` then `key_usage()`, reduced to the `nonRepudiation` bit.
#[verifier::external_body]
pub(crate) fn read_key_usage_non_repudiation(der: &[u8]) -> (r: Option<Option<bool>>)
    ensures
        r == key_usage_non_repudiation_of(der@),
{
    match <x509_parser::certificate::X509Certificate as x509_parser::prelude::FromDer<
        x509_parser::error::X509Error,
    >>::from_der(der) {
        Err(_) => None,
        Ok((_, cert)) => match cert.key_usage() {
            Err(_) => None,
            Ok(None) => Some(None),
            Ok(Some(ext)) => Some(Some(ext.value.non_repudiation())),
        },
    }
}

/// `X509Certificate::from_der` then `subject().to_string()`.
#[verifier::external_body]
pub(crate) fn read_subject_text(der: &[u8]) -> (r: Option<String>)
    ensures
        match r {
            Some(s) => subject_text_of(der@) == Some(s@),
            None => subject_text_of(der@) is None,
        },
{
    match <x509_parser::certificate::X509Certificate as x509_parser::prelude::FromDer<
        x509_parser::error::X509Error,
    >>::from_der(der) {
        Err(_) => None,
        Ok((_, cert)) => Some(cert.subject().to_string()),
    }
}

/// `x509_parser::parse_x509_certificate`, then the first common name that
/// `as_str` accepts and the printed subject.
#[verifier::external_body]
pub(crate) fn read_subject_names(der: &[u8]) -> (r: Option<(Option<String>, String)>)
    ensures
        match r {
            Some((cn, subject)) => subject_names_of(der@) == Some(
                (
                    match cn {
                        Some(c) => Some(c@),
                        None => None,
                    },
                    subject@,
                ),
            ),
            None => subject_names_of(der@) is None,
        },
{
    match x509_parser::parse_x509_certificate(der) {
        Err(_) => None,
        Ok((_, cert)) => {
            let cn = cert.subject().iter_common_name().next().and_then(|a| a.as_str().ok()).map(
                |s| s.to_string(),
            );
            Some((cn, cert.subject().to_string()))
        },
    }
}

/// `x509_parser::parse_x509_certificate`, then the issuer's raw DER and `raw_serial()`.
#[verifier::external_body]
pub(crate) fn read_issuer_and_serial(der: &[u8]) -> (r: Option<(Vec<u8>, Vec<u8>)>)
    ensures
        match r {
            Some((issuer, serial)) => issuer_and_serial_of(der@) == Some((issuer@, serial@)),
            None => issuer_and_serial_of(der@) is None,
        },
{
    match x509_parser::parse_x509_certificate(der) {
        Err(_) => None,
        Ok((_, cert)) => Some(
            (cert.tbs_certificate.issuer.as_raw().to_vec(), cert.raw_serial().to_vec()),
        ),
    }
}

/// `true` if the certificate's Key Usage has **nonRepudiation** (the certificate
/// meant for signing documents with legal value).
pub fn der_is_signing_certificate(der: &[u8]) -> (r: bool)
    ensures
        r == (key_usage_non_repudiation_of(der@) == Some(Some(true))),
{
    match read_key_usage_non_repudiation(der) {
        Some(Some(b)) => b,
        _ => false,
    }
}

/// The certificate's subject as text, empty when the DER does not parse.
pub fn subject_dn_from_der(der: &[u8]) -> (r: String)
    ensures
        r@ == match subject_text_of(der@) {
            Some(s) => s,
            None => Seq::<char>::empty(),
        },
{
    match read_subject_text(der) {
        Some(s) => s,
        None => String::new(),
    }
}

/// Name shown in the visible signature: the first common name, else the whole
/// subject, else "Firmante Desconocido" when the certificate does not parse.
pub fn get_signer_name_from_der(der: &[u8]) -> (r: String)
    ensures
        r@ == match subject_names_of(der@) {
            None => "Firmante Desconocido"@,
            Some((Some(cn), _)) => cn,
            Some((None, subject)) => subject,
        },
{
    match read_subject_names(der) {
        None => String::from_str("Firmante Desconocido"),
        Some((Some(cn), _)) => cn,
        Some((None, subject)) => subject,
    }
}

} // verus!

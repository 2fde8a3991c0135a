//! DER pieces of the CMS signed attributes required by PAdES-BES validators.

use vstd::prelude::*;
use crate::codec;
use crate::x509;
use crate::text;

verus! {

/// DER definite length octets as this library writes them: short form below
/// 128, then `0x81`, `0x82` or `0x83` followed by one, two or three bytes
/// (for lengths of 2^24 and more only the low three bytes are written).
pub open spec fn der_length(n: nat) -> Seq<u8> {
    if n < 128 {
        seq![n as u8]
    } else if n < 256 {
        seq![0x81u8, n as u8]
    } else if n < 65536 {
        seq![0x82u8, (n / 256) as u8, (n % 256) as u8]
    } else {
        seq![0x83u8, ((n / 65536) % 256) as u8, ((n / 256) % 256) as u8, (n % 256) as u8]
    }
}

/// The length that DER length octets at the start of `s` denote, if they are well formed.
pub open spec fn read_der_length(s: Seq<u8>) -> Option<(nat, nat)> {
    if s.len() == 0 {
        None
    } else if s[0] < 128 {
        Some((s[0] as nat, 1))
    } else if s[0] == 0x81 && s.len() >= 2 {
        Some((s[1] as nat, 2))
    } else if s[0] == 0x82 && s.len() >= 3 {
        Some((s[1] as nat * 256 + s[2] as nat, 3))
    } else if s[0] == 0x83 && s.len() >= 4 {
        Some((s[1] as nat * 65536 + s[2] as nat * 256 + s[3] as nat, 4))
    } else {
        None
    }
}

/// A TLV with the given tag byte.
pub open spec fn der_tlv(tag: u8, content: Seq<u8>) -> Seq<u8> {
    seq![tag] + der_length(content.len()) + content
}

/// `SEQUENCE { content }`.
pub open spec fn der_sequence(content: Seq<u8>) -> Seq<u8> {
    der_tlv(0x30, content)
}

/// `certs SEQUENCE OF ESSCertIDv2` (RFC 5035) with one `ESSCertIDv2` holding
/// the certificate hash and `issuerSerial { generalNames { directoryName }, serialNumber }`.
pub open spec fn signing_certificate_v2(hash: Seq<u8>, issuer: Seq<u8>, serial: Seq<u8>) -> Seq<u8> {
    let cert_hash = seq![0x04u8, 0x20u8] + hash;
    let general_names = der_sequence(der_tlv(0xA4, issuer));
    let issuer_serial = der_sequence(general_names + der_tlv(0x02, serial));
    der_sequence(der_sequence(cert_hash + issuer_serial))
}

/// Encodes a DER definite length.
pub fn encode_der_length(len: usize) -> (r: Vec<u8>)
    ensures
        r@ == der_length(len as nat),
{
    let mut v: Vec<u8> = Vec::new();
    if len < 128 {
        v.push(len as u8);
    } else if len < 256 {
        v.push(0x81);
        v.push(len as u8);
    } else if len < 65536 {
        v.push(0x82);
        v.push((len / 256) as u8);
        v.push((len % 256) as u8);
    } else {
        v.push(0x83);
        v.push(((len / 65536) % 256) as u8);
        v.push(((len / 256) % 256) as u8);
        v.push((len % 256) as u8);
    }
    assert(v@ =~= der_length(len as nat));
    v
}

fn push_all(out: &mut Vec<u8>, b: &[u8])
    ensures
        final(out)@ == old(out)@ + b@,
{
    let ghost start = out@;
    let mut i: usize = 0;
    while i < b.len()
        invariant
            i <= b@.len(),
            out@ == start + b@.subrange(0, i as int),
        decreases b@.len() - i,
    {
        out.push(b[i]);
        i += 1;
        assert(out@ =~= start + b@.subrange(0, i as int));
    }
    assert(b@.subrange(0, b@.len() as int) =~= b@);
}

fn tlv(tag: u8, content: &[u8]) -> (r: Vec<u8>)
    ensures
        r@ == der_tlv(tag, content@),
{
    let len_bytes = encode_der_length(content.len());
    let mut out: Vec<u8> = Vec::new();
    out.push(tag);
    push_all(&mut out, len_bytes.as_slice());
    push_all(&mut out, content);
    assert(out@ =~= der_tlv(tag, content@));
    out
}

/// `SEQUENCE { content }`.
pub fn wrap_sequence(content: &[u8]) -> (r: Vec<u8>)
    ensures
        r@ == der_sequence(content@),
{
    tlv(0x30, content)
}

/// Why a certificate's DER could not be used.
#[derive(Debug, Clone, Copy, PartialEq, Eq, Structural)]
pub enum CertDerError {
    /// The certificate does not parse as X.509.
    Unparseable,
}

/// ESS `SigningCertificateV2` (RFC 5035), mandatory in PAdES-BES with SHA-256.
pub fn signing_certificate_v2_der(cert_der: &[u8]) -> (r: Result<Vec<u8>, CertDerError>)
    ensures
        match r {
            Ok(v) => exists|issuer: Seq<u8>, serial: Seq<u8>|
                x509::issuer_and_serial_of(cert_der@) == Some((issuer, serial)) && v@
                    == signing_certificate_v2(codec::sha256_of(cert_der@), issuer, serial),
            Err(e) => e == CertDerError::Unparseable && x509::issuer_and_serial_of(cert_der@) is None,
        },
{
    let (issuer_raw, raw_serial) = match x509::read_issuer_and_serial(cert_der) {
        Some(p) => p,
        None => return Err(CertDerError::Unparseable),
    };
    let hash = codec::sha256_digest(cert_der);
    let mut cert_hash: Vec<u8> = Vec::new();
    cert_hash.push(0x04);
    cert_hash.push(0x20);
    push_all(&mut cert_hash, hash.as_slice());
    let directory_name = tlv(0xA4, issuer_raw.as_slice());
    let general_names = wrap_sequence(directory_name.as_slice());
    let serial_number = tlv(0x02, raw_serial.as_slice());
    let mut issuer_serial_content: Vec<u8> = Vec::new();
    push_all(&mut issuer_serial_content, general_names.as_slice());
    push_all(&mut issuer_serial_content, serial_number.as_slice());
    let issuer_serial = wrap_sequence(issuer_serial_content.as_slice());
    let mut ess_content: Vec<u8> = Vec::new();
    push_all(&mut ess_content, cert_hash.as_slice());
    push_all(&mut ess_content, issuer_serial.as_slice());
    let ess_cert_id_v2 = wrap_sequence(ess_content.as_slice());
    let certs = wrap_sequence(ess_cert_id_v2.as_slice());
    assert(cert_hash@ =~= seq![0x04u8, 0x20u8] + hash@);
    assert(certs@ == signing_certificate_v2(codec::sha256_of(cert_der@), issuer_raw@, raw_serial@));
    assert(x509::issuer_and_serial_of(cert_der@) == Some((issuer_raw@, raw_serial@)));
    Ok(certs)
}

/// Reading back the length octets written for `n` gives `n` and the number of
/// octets written, for every length below 2^24 (the widest form written).
pub proof fn law_der_length_roundtrip(n: nat, rest: Seq<u8>)
    requires
        n < 16777216,
    ensures
        read_der_length(der_length(n) + rest) == Some((n, der_length(n).len())),
{
    let s = der_length(n) + rest;
    if n < 128 {
    } else if n < 256 {
    } else if n < 65536 {
        assert(s[1] as nat * 256 + s[2] as nat == n) by (nonlinear_arith)
            requires
                s[1] as nat == n / 256,
                s[2] as nat == n % 256,
                n < 65536;
    } else {
        assert(s[1] as nat * 65536 + s[2] as nat * 256 + s[3] as nat == n) by (nonlinear_arith)
            requires
                s[1] as nat == (n / 65536) % 256,
                s[2] as nat == (n / 256) % 256,
                s[3] as nat == n % 256,
                n < 16777216;
    }
}

/// The certificates to place in the CMS for a leaf certificate where no
/// system chain is available: the leaf alone.
pub fn certificate_chain_der_windows(leaf_der: &[u8]) -> (r: Vec<Vec<u8>>)
    ensures
        r@.len() == 1,
        r@[0]@ == leaf_der@,
{
    let mut leaf: Vec<u8> = Vec::new();
    let mut i: usize = 0;
    while i < leaf_der.len()
        invariant
            i <= leaf_der@.len(),
            leaf@ == leaf_der@.take(i as int),
        decreases leaf_der@.len() - i,
    {
        leaf.push(leaf_der[i]);
        i += 1;
        assert(leaf@ =~= leaf_der@.take(i as int));
    }
    assert(leaf_der@.take(leaf_der@.len() as int) =~= leaf_der@);
    let mut r: Vec<Vec<u8>> = Vec::new();
    r.push(leaf);
    r
}

pub open spec fn ders_view(v: Seq<Vec<u8>>) -> Seq<Seq<u8>> {
    v.map_values(|d: Vec<u8>| d@)
}

/// The chain without repeats: each DER kept at its first occurrence.
pub open spec fn first_occurrences(v: Seq<Seq<u8>>) -> Seq<Seq<u8>>
    decreases v.len(),
{
    if v.len() == 0 {
        seq![]
    } else {
        let prev = first_occurrences(v.drop_last());
        if prev.contains(v.last()) {
            prev
        } else {
            prev.push(v.last())
        }
    }
}

fn bytes_equal(a: &[u8], b: &[u8]) -> (r: bool)
    ensures
        r == (a@ == b@),
{
    if a.len() != b.len() {
        return false;
    }
    let mut i: usize = 0;
    while i < a.len()
        invariant
            a@.len() == b@.len(),
            i <= a@.len(),
            forall|j: int| 0 <= j < i ==> a@[j] == b@[j],
        decreases a@.len() - i,
    {
        if a[i] != b[i] {
            return false;
        }
        i += 1;
    }
    assert(a@ =~= b@);
    true
}

/// Drops repeated certificates from a chain, keeping the first of each.
pub fn dedupe_chain(chain: Vec<Vec<u8>>) -> (r: Vec<Vec<u8>>)
    ensures
        ders_view(r@) == first_occurrences(ders_view(chain@)),
{
    let ghost cv = ders_view(chain@);
    assert(cv.len() == chain.len());
    let mut out: Vec<Vec<u8>> = Vec::new();
    let mut i: usize = 0;
    for d in it: chain.into_iter()
        invariant
            cv == ders_view(it.seq()),
            cv.len() <= usize::MAX,
            i == it.index(),
            ders_view(out@) == first_occurrences(cv.take(i as int)),
    {
        assert(cv.take(i + 1).drop_last() =~= cv.take(i as int));
        assert(cv.take(i + 1).last() == d@);
        assert(i < cv.len());
        let ghost ov = ders_view(out@);
        let mut seen = false;
        let mut j: usize = 0;
        while j < out.len()
            invariant
                j <= out@.len(),
                ov == ders_view(out@),
                !seen ==> forall|k: int| 0 <= k < j ==> ov[k] != d@,
                seen ==> ov.contains(d@),
            decreases out@.len() - j,
        {
            if bytes_equal(out[j].as_slice(), d.as_slice()) {
                seen = true;
                assert(ov[j as int] == d@);
            }
            j += 1;
        }
        if !seen {
            let ghost before = out@;
            out.push(d);
            assert(ders_view(out@) =~= ders_view(before).push(cv.take(i + 1).last()));
        }
        i += 1;
    }
    assert(cv.take(cv.len() as int) =~= cv);
    out
}

/// Why building the CMS signer information failed (the kinds the builder reports).
#[derive(Debug)]
pub enum SignerInfoBuildError {
    /// The token could not sign.
    Signature(String),
    /// A DER encoding failed.
    Asn1(String),
    /// The certificate's public key could not be used.
    PublicKey(String),
    /// Any other failure, with its text.
    Other(String),
}

pub open spec fn signer_info_error_text(e: SignerInfoBuildError) -> Seq<char> {
    match e {
        SignerInfoBuildError::Signature(m) => "No se ha podido firmar con el DNIe o la tarjeta: "@ + m@
            + " · Revisa el PIN, vuelve a conectar el lector y comprueba que el certificado sea de tipo RSA con SHA-256."@,
        SignerInfoBuildError::Asn1(m) => "Error DER al construir el CMS (SignerInfo): "@ + m@
            + " · Suele ser atributos firmados o codificación de la firma; conserva este texto para soporte."@,
        SignerInfoBuildError::PublicKey(m) => "Error de clave pública del certificado (SPKI): "@ + m@,
        SignerInfoBuildError::Other(m) => m@,
    }
}

/// The message shown for a failed signer-information build: the cause and a hint.
pub fn map_signer_info_build_error(e: &SignerInfoBuildError) -> (r: String)
    ensures
        r@ == signer_info_error_text(*e),
{
    match e {
        SignerInfoBuildError::Signature(m) => {
            let mut v = text::chars_of("No se ha podido firmar con el DNIe o la tarjeta: ");
            text::append_chars(&mut v, &text::chars_of(m.as_str()));
            text::append_chars(
                &mut v,
                &text::chars_of(
                    " · Revisa el PIN, vuelve a conectar el lector y comprueba que el certificado sea de tipo RSA con SHA-256.",
                ),
            );
            text::string_of(&v)
        },
        SignerInfoBuildError::Asn1(m) => {
            let mut v = text::chars_of("Error DER al construir el CMS (SignerInfo): ");
            text::append_chars(&mut v, &text::chars_of(m.as_str()));
            text::append_chars(
                &mut v,
                &text::chars_of(
                    " · Suele ser atributos firmados o codificación de la firma; conserva este texto para soporte.",
                ),
            );
            text::string_of(&v)
        },
        SignerInfoBuildError::PublicKey(m) => {
            let mut v = text::chars_of("Error de clave pública del certificado (SPKI): ");
            text::append_chars(&mut v, &text::chars_of(m.as_str()));
            text::string_of(&v)
        },
        SignerInfoBuildError::Other(m) => text::string_of(&text::chars_of(m.as_str())),
    }
}

} // verus!

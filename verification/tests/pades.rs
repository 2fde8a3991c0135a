use nexosign::pades_scan::{
    contents_hex_is_provisional, digest_pdf_pades, enumerate_subfilter_pades,
    find_contents_hex_angle_open, find_subfilter_pades, find_subfilter_pades_from,
    patch_byte_range, patch_pdf_contents_der,
};

#[test]
fn subfilter_etsi_with_or_without_space() {
    let with_space = b"<</Type/Sig/SubFilter /ETSI.CAdES.detached/Contents<";
    let no_space = b"<</Type/Sig/SubFilter/ETSI.CAdES.detached/Contents<";
    assert!(find_subfilter_pades(with_space).is_some());
    assert!(find_subfilter_pades(no_space).is_some());
}

#[test]
fn subfilter_adobe_legacy_still_found() {
    let with_space = b"<</Type/Sig/SubFilter /adbe.pkcs7.detached/Contents<";
    let no_space = b"<</Type/Sig/SubFilter/adbe.pkcs7.detached/Contents<";
    assert!(find_subfilter_pades(with_space).is_some());
    assert!(find_subfilter_pades(no_space).is_some());
}

#[test]
fn contents_hex_angle_after_optional_whitespace() {
    let buf = b"<</Type/Sig/SubFilter/ETSI.CAdES.detached/Contents   <001122>";
    let base = find_subfilter_pades(buf).unwrap();
    let lt = find_contents_hex_angle_open(buf, base).unwrap();
    assert_eq!(buf[lt], b'<');
}

#[test]
fn active_subfilter_is_provisional_when_multiple_signatures() {
    let first = b"<</Type/Sig/SubFilter/ETSI.CAdES.detached/Contents<ABCDEF>";
    let second = b"<</Type/Sig/SubFilter/ETSI.CAdES.detached/Contents<000000000000>";
    let mut buf = Vec::new();
    buf.extend_from_slice(first);
    buf.extend_from_slice(second);
    assert_eq!(enumerate_subfilter_pades(&buf).len(), 2);
    let last = find_subfilter_pades_from(&buf, 0).unwrap();
    let active = find_subfilter_pades(&buf).unwrap();
    assert!(contents_hex_is_provisional(&buf, active));
    assert_ne!(last, active);
}

#[test]
fn mixed_subfilters_both_found() {
    let etsi = b"<</Type/Sig/SubFilter/ETSI.CAdES.detached/Contents<ABCDEF>";
    let adbe = b"<</Type/Sig/SubFilter/adbe.pkcs7.detached/Contents<000000>";
    let mut buf = Vec::new();
    buf.extend_from_slice(etsi);
    buf.extend_from_slice(adbe);
    assert_eq!(enumerate_subfilter_pades(&buf).len(), 2);
}

fn provisional_pdf() -> Vec<u8> {
    let mut buf = Vec::new();
    buf.extend_from_slice(b"%PDF-1.7\n1 0 obj\n<</Type/Sig/SubFilter/ETSI.CAdES.detached/ByteRange [0 999999999999999 999999999999999 999999999999999]/Contents<");
    buf.extend_from_slice(&[b'0'; 16]);
    buf.extend_from_slice(b">>>\nendobj\n%%EOF\n");
    buf
}

#[test]
fn no_subfilter_means_no_signature_found() {
    assert!(find_subfilter_pades(b"%PDF-1.7 no signature here").is_none());
    assert!(enumerate_subfilter_pades(b"%PDF-1.7").is_empty());
}

#[test]
fn byte_range_patch_describes_the_signed_regions() {
    let mut buf = provisional_pdf();
    patch_byte_range(&mut buf).unwrap();
    let base = find_subfilter_pades(&buf).unwrap();
    let lt = find_contents_hex_angle_open(&buf, base).unwrap();
    let gt = lt + 1 + 16;
    assert_eq!(buf[gt], b'>');
    let expected = format!("0 {} {} {}", lt, gt + 1, buf.len() - gt - 1);
    let text = String::from_utf8_lossy(&buf).to_string();
    assert!(text.contains(&expected));
}

#[test]
fn contents_patch_writes_upper_hex_and_keeps_the_rest() {
    let mut buf = provisional_pdf();
    patch_byte_range(&mut buf).unwrap();
    let before = buf.clone();
    patch_pdf_contents_der(&mut buf, &[0xAB, 0x01]).unwrap();
    assert_eq!(buf.len(), before.len());
    let base = find_subfilter_pades(&buf).unwrap();
    let lt = find_contents_hex_angle_open(&buf, base).unwrap();
    assert_eq!(&buf[lt + 1..lt + 5], b"AB01");
    assert_eq!(&buf[lt + 5..lt + 17], &[b'0'; 12]);
    assert_eq!(&buf[..lt], &before[..lt]);
}

#[test]
fn contents_patch_rejects_too_large_cms() {
    let mut buf = provisional_pdf();
    let big = vec![0x11u8; 9];
    let err = patch_pdf_contents_der(&mut buf, &big).unwrap_err();
    assert!(err.message().contains("CMS"));
}

#[test]
fn digest_of_unpatched_signature_is_an_error_free_32_bytes() {
    let mut buf = provisional_pdf();
    patch_byte_range(&mut buf).unwrap();
    let d = digest_pdf_pades(&buf).unwrap();
    assert_eq!(d.len(), 32);
}

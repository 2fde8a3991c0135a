use nexosign::pkcs11_support::{
    builtin_candidate_paths, builtin_pkcs11_path_strings, bytes_to_hex, cert_id_hex_for, env_module_paths,
    existing_module_paths, merge_candidate_paths, merge_signing_cert_summaries,
    parse_win_my_thumbprint, pick_slot_index, pin_ui_after_silent_acquire, pin_ui_from_provider,
    preferred_first, session_error_token_not_recognized, DriverPathError, SlotChoiceError,
    TargetOs, WinCertError,
};
use nexosign::signing_cert::{
    append_windows_my_signing_certs, apply_signing_cert_visibility_policy, dedupe_signing_certs_prefer_pkcs11,
    has_pkcs11_signing_cert, is_win_my_cert_id, sha1_thumbprint_hex, thumbprint_from_win_my_id,
    SigningCertSource, SigningCertSummary, SigningPinUi, WinMyKeyBinding,
};

fn cert(id: &str, source: SigningCertSource, thumb: &str, subject: &str) -> SigningCertSummary {
    cert_with_binding(id, source, thumb, subject, None)
}

fn cert_my(id: &str, thumb: &str, subject: &str, binding: WinMyKeyBinding) -> SigningCertSummary {
    cert_with_binding(id, SigningCertSource::WinMy, thumb, subject, Some(binding))
}

fn cert_with_binding(
    id: &str,
    source: SigningCertSource,
    thumb: &str,
    subject: &str,
    win_my_key_binding: Option<WinMyKeyBinding>,
) -> SigningCertSummary {
    SigningCertSummary {
        id_hex: id.to_string(),
        label: id.to_string(),
        subject_dn: subject.to_string(),
        source,
        pin_ui: SigningPinUi::RequiredInApp,
        cert_thumbprint_sha1_hex: thumb.to_string(),
        win_my_key_binding,
    }
}

#[test]
fn dedupe_hides_win_my_when_same_thumbprint_on_chip() {
    let chip = cert("aa", SigningCertSource::Pkcs11, "deadbeef", "CN=Test");
    let my = cert("winmy:deadbeef", SigningCertSource::WinMy, "deadbeef", "CN=Test");
    let out = dedupe_signing_certs_prefer_pkcs11(vec![chip, my]);
    assert_eq!(out.len(), 1);
    assert_eq!(out[0].source, SigningCertSource::Pkcs11);
}

#[test]
fn dedupe_keeps_win_my_when_no_chip_match() {
    let my = cert("winmy:abc", SigningCertSource::WinMy, "abc", "CN=Solo Windows");
    let out = dedupe_signing_certs_prefer_pkcs11(vec![my]);
    assert_eq!(out.len(), 1);
    assert_eq!(out[0].source, SigningCertSource::WinMy);
}

#[test]
fn dedupe_falls_back_to_subject_when_thumbprint_missing() {
    let chip = cert("aa", SigningCertSource::Pkcs11, "", "CN=Same, SN=1");
    let my = cert("winmy:x", SigningCertSource::WinMy, "", "cn=same, sn=1");
    let out = dedupe_signing_certs_prefer_pkcs11(vec![chip, my]);
    assert_eq!(out.len(), 1);
    assert_eq!(out[0].source, SigningCertSource::Pkcs11);
}

#[test]
fn dedupe_keeps_win_my_when_mixed_with_pkcs11() {
    let chip = cert("aa", SigningCertSource::Pkcs11, "deadbeef", "CN=Test");
    let my1 = cert("winmy:deadbeef", SigningCertSource::WinMy, "deadbeef", "CN=Test");
    let my2 = cert("winmy:abc", SigningCertSource::WinMy, "abc", "CN=Solo Windows");
    let out = dedupe_signing_certs_prefer_pkcs11(vec![chip, my1, my2]);
    assert_eq!(out.len(), 2);
    assert!(out
        .iter()
        .any(|c| c.source == SigningCertSource::Pkcs11 && c.cert_thumbprint_sha1_hex == "deadbeef"));
    assert!(out
        .iter()
        .any(|c| c.source == SigningCertSource::WinMy && c.cert_thumbprint_sha1_hex == "abc"));
}

#[test]
fn visibility_hides_my_smart_card_without_chip() {
    let my = cert_my("winmy:aa", "aa", "CN=DNI", WinMyKeyBinding::SmartCard);
    let out = apply_signing_cert_visibility_policy(vec![my]);
    assert!(out.is_empty());
}

#[test]
fn visibility_keeps_my_software_without_chip() {
    let my = cert_my("winmy:bb", "bb", "CN=Soft", WinMyKeyBinding::Software);
    let out = apply_signing_cert_visibility_policy(vec![my]);
    assert_eq!(out.len(), 1);
    assert_eq!(out[0].source, SigningCertSource::WinMy);
}

#[test]
fn visibility_hides_my_unknown_without_chip() {
    let my = cert_my("winmy:cc", "cc", "CN=X", WinMyKeyBinding::Unknown);
    let out = apply_signing_cert_visibility_policy(vec![my]);
    assert!(out.is_empty());
}

#[test]
fn visibility_keeps_chip_and_hides_orphan_my_after_dedupe() {
    let chip = cert("aa", SigningCertSource::Pkcs11, "deadbeef", "CN=Test");
    let my = cert_my("winmy:deadbeef", "deadbeef", "CN=Test", WinMyKeyBinding::SmartCard);
    let out = apply_signing_cert_visibility_policy(dedupe_signing_certs_prefer_pkcs11(vec![chip, my]));
    assert_eq!(out.len(), 1);
    assert_eq!(out[0].source, SigningCertSource::Pkcs11);
}

#[test]
fn visibility_does_not_hide_my_smart_card_when_chip_present() {
    let chip = cert("aa", SigningCertSource::Pkcs11, "t1", "CN=A");
    let my_other = cert_my("winmy:t2", "t2", "CN=B", WinMyKeyBinding::SmartCard);
    let out = apply_signing_cert_visibility_policy(vec![chip, my_other]);
    assert_eq!(out.len(), 2);
}

#[test]
fn merge_signing_cert_summaries_dedupes_by_id_hex() {
    let mut merged = vec![cert("aa", SigningCertSource::Pkcs11, "", "")];
    let mut seen = vec!["aa".to_string()];
    merge_signing_cert_summaries(
        &mut merged,
        vec![
            cert("aa", SigningCertSource::Pkcs11, "", ""),
            cert("bb", SigningCertSource::Pkcs11, "", ""),
        ],
        &mut seen,
    );
    assert_eq!(merged.len(), 2);
    assert!(merged.iter().any(|c| c.id_hex == "bb"));
}

#[test]
fn merge_keeps_first_of_equal_ids_within_a_batch() {
    let mut merged = Vec::new();
    let mut seen = Vec::new();
    merge_signing_cert_summaries(
        &mut merged,
        vec![
            cert("cc", SigningCertSource::Pkcs11, "first", ""),
            cert("cc", SigningCertSource::Pkcs11, "second", ""),
        ],
        &mut seen,
    );
    assert_eq!(merged.len(), 1);
    assert_eq!(merged[0].cert_thumbprint_sha1_hex, "first");
    assert_eq!(seen, vec!["cc".to_string()]);
}

#[test]
fn win_my_ids_and_thumbprints() {
    assert!(is_win_my_cert_id("  winmy:abc"));
    assert!(!is_win_my_cert_id("01ab"));
    let id = "winmy:00112233445566778899AABBCCDDEEFF00112233";
    assert_eq!(
        thumbprint_from_win_my_id(id).as_deref(),
        Some("00112233445566778899aabbccddeeff00112233")
    );
    let raw = parse_win_my_thumbprint(id).unwrap();
    assert_eq!(raw.len(), 20);
    assert_eq!(raw[0], 0x00);
    assert_eq!(raw[10], 0xAA);
    assert!(parse_win_my_thumbprint("winmy:0011").is_none());
    assert!(parse_win_my_thumbprint("00112233445566778899AABBCCDDEEFF00112233").is_none());
    assert!(parse_win_my_thumbprint("winmy:zz112233445566778899AABBCCDDEEFF00112233").is_none());
}

#[test]
fn sha1_thumbprint_of_known_input() {
    assert_eq!(sha1_thumbprint_hex(b"abc"), "a9993e364706816aba3e25717850c26c9cd0d89d");
}

#[test]
fn has_chip_cert_detection() {
    assert!(!has_pkcs11_signing_cert(&[cert_my("winmy:a", "a", "", WinMyKeyBinding::Software)]));
    assert!(has_pkcs11_signing_cert(&[cert("a", SigningCertSource::Pkcs11, "", "")]));
}

#[test]
fn hex_and_certificate_ids() {
    assert_eq!(bytes_to_hex(&[0x00, 0xab, 0x10]), "00ab10");
    assert_eq!(cert_id_hex_for(Some(&[0x01, 0xff]), b"ignored"), "01ff");
    let der: Vec<u8> = (0u8..40).collect();
    let id = cert_id_hex_for(Some(&[]), &der);
    assert_eq!(id.len(), 64);
    assert!(id.starts_with("000102"));
    assert_eq!(cert_id_hex_for(None, &[0xde, 0xad]), "dead");
}

#[test]
fn builtin_driver_lists_per_os() {
    let linux = builtin_pkcs11_path_strings(TargetOs::Linux);
    assert_eq!(linux.len(), 3);
    assert_eq!(linux[0], "/usr/lib/x86_64-linux-gnu/opensc-pkcs11.so");
    assert_eq!(builtin_pkcs11_path_strings(TargetOs::Windows).len(), 10);
    assert_eq!(builtin_pkcs11_path_strings(TargetOs::MacOs).len(), 9);
    assert!(builtin_pkcs11_path_strings(TargetOs::Other).is_empty());
}

#[test]
fn candidate_paths_merge_case_insensitively() {
    let db = vec!["/Custom/Driver.so".to_string(), "/usr/lib/OPENSC-pkcs11.so".to_string()];
    let builtin = builtin_pkcs11_path_strings(TargetOs::Linux);
    let merged = merge_candidate_paths(&db, &builtin);
    assert_eq!(
        merged,
        vec![
            "/Custom/Driver.so".to_string(),
            "/usr/lib/OPENSC-pkcs11.so".to_string(),
            "/usr/lib/x86_64-linux-gnu/opensc-pkcs11.so".to_string(),
            "/usr/local/lib/opensc-pkcs11.so".to_string(),
        ]
    );
}

#[test]
fn existing_paths_and_errors() {
    let c = vec!["/a".to_string(), "/b".to_string(), "/c".to_string()];
    let found = existing_module_paths(c.clone(), &[false, true, true]).unwrap();
    assert_eq!(found, vec!["/b".to_string(), "/c".to_string()]);
    let err = existing_module_paths(c, &[false, false, false]).unwrap_err();
    assert!(matches!(err, DriverPathError::NotFound));
    assert!(err.message().starts_with("No encontramos el controlador del lector."));
    let env = env_module_paths("  /opt/x.so ", true).unwrap();
    assert_eq!(env, vec!["/opt/x.so".to_string()]);
    let e = env_module_paths(" /missing.so", false).unwrap_err();
    assert!(e.message().contains("NEXOSIGN_PKCS11_MODULE no existe: /missing.so."));
}

#[test]
fn preferred_module_goes_first() {
    let paths = vec!["/a.so".to_string(), "/B.so".to_string(), "/c.so".to_string()];
    let out = preferred_first(paths, "/b.so");
    assert_eq!(out, vec!["/b.so".to_string(), "/a.so".to_string(), "/c.so".to_string()]);
}

#[test]
fn token_not_recognized_errors() {
    assert!(session_error_token_not_recognized("Sesión RO: Token Not Recognized"));
    assert!(!session_error_token_not_recognized("Sesión RW: general error"));
}

#[test]
fn slot_choice_follows_env_index() {
    assert_eq!(pick_slot_index(0, None), Err(SlotChoiceError::NoSlot));
    assert_eq!(pick_slot_index(2, None), Ok(0));
    assert_eq!(pick_slot_index(2, Some("1")), Ok(1));
    assert_eq!(pick_slot_index(2, Some("x")), Ok(0));
    assert_eq!(pick_slot_index(2, Some("5")), Err(SlotChoiceError::SlotIndex));
    assert!(SlotChoiceError::NoSlot.message().starts_with("PKCS11_NO_TOKEN:"));
}

#[test]
fn pin_ui_rules() {
    assert_eq!(
        pin_ui_from_provider(Some("microsoft smart card key storage provider")),
        Some(SigningPinUi::RequiredInApp)
    );
    assert_eq!(pin_ui_from_provider(Some("microsoft software key storage provider")), None);
    assert_eq!(pin_ui_from_provider(None), None);
    assert_eq!(pin_ui_after_silent_acquire(true), SigningPinUi::HiddenUseOsCrypto);
    assert_eq!(pin_ui_after_silent_acquire(false), SigningPinUi::OsMayPrompt);
    assert_eq!(WinCertError::UnsupportedKey.message(), "certificado no RSA CNG soportado");
    assert_eq!(WinCertError::Api("x".into()).message(), "API Windows: x");
}

#[test]
fn builtin_candidate_paths_follow_the_builtin_list() {
    for os in [TargetOs::Windows, TargetOs::Linux, TargetOs::MacOs, TargetOs::Other] {
        let owned = builtin_candidate_paths(os);
        let borrowed = builtin_pkcs11_path_strings(os);
        assert_eq!(owned.len(), borrowed.len());
        for (a, b) in owned.iter().zip(borrowed.iter()) {
            assert_eq!(a, b);
        }
    }
    assert_eq!(
        builtin_candidate_paths(TargetOs::Linux),
        vec![
            "/usr/lib/x86_64-linux-gnu/opensc-pkcs11.so".to_string(),
            "/usr/lib/opensc-pkcs11.so".to_string(),
            "/usr/local/lib/opensc-pkcs11.so".to_string(),
        ]
    );
}

#[test]
fn windows_store_certificates_are_merged_and_deduplicated() {
    let chip = || cert("01ab", SigningCertSource::Pkcs11, "aa11", "CN=Ana");
    let dup = || cert_my("winmy:aa11", "aa11", "CN=Ana", WinMyKeyBinding::SmartCard);
    let other = || cert_my("winmy:bb22", "bb22", "CN=Luis", WinMyKeyBinding::Software);

    let none = append_windows_my_signing_certs(vec![chip(), dup()], None);
    let ids: Vec<&str> = none.iter().map(|c| c.id_hex.as_str()).collect();
    assert_eq!(ids, vec!["01ab", "winmy:aa11"]);

    let merged = append_windows_my_signing_certs(vec![chip()], Some(Ok(vec![dup(), other()])));
    let ids: Vec<&str> = merged.iter().map(|c| c.id_hex.as_str()).collect();
    assert_eq!(ids, vec!["01ab", "winmy:bb22"]);

    let failed = append_windows_my_signing_certs(vec![chip(), dup()], Some(Err("acceso denegado".into())));
    let ids: Vec<&str> = failed.iter().map(|c| c.id_hex.as_str()).collect();
    assert_eq!(ids, vec!["01ab"]);
}

#[test]
fn dedupe_twice_changes_nothing() {
    let certs = vec![
        cert("aa", SigningCertSource::Pkcs11, "deadbeef", "CN=Test"),
        cert("winmy:deadbeef", SigningCertSource::WinMy, "deadbeef", "CN=Test"),
        cert("winmy:abc", SigningCertSource::WinMy, "abc", "CN=Otro"),
        cert("bb", SigningCertSource::Pkcs11, "", "CN=Same, SN=1"),
        cert("winmy:x", SigningCertSource::WinMy, "", "cn=same, sn=1"),
    ];
    let once = dedupe_signing_certs_prefer_pkcs11(certs);
    let ids: Vec<String> = once.iter().map(|c| c.id_hex.clone()).collect();
    assert_eq!(ids, vec!["aa", "winmy:abc", "bb"]);
    let twice = dedupe_signing_certs_prefer_pkcs11(once);
    let ids2: Vec<String> = twice.iter().map(|c| c.id_hex.clone()).collect();
    assert_eq!(ids2, ids);
}

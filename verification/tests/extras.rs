use nexosign::allowed_origins::AllowedOrigins;
use nexosign::der_attrs::{
    certificate_chain_der_windows, dedupe_chain, map_signer_info_build_error, SignerInfoBuildError,
};
use nexosign::http_gate::{focus_intent, origin_check, origin_prompt_step, OriginPromptStep, RequestOriginHeaders};
use nexosign::intent_upload::{intent_body_kind, IntentBodyKind};
use nexosign::local_api_listen::openapi_json_for_base_url;
use nexosign::pending_batch_intent::PendingBatchIntent;
use nexosign::pending_intents::{label_for_pending_intent, pending_intent_row, sort_rows_newest_first, PendingIntents};
use nexosign::pkcs11_objects::{
    collect_signing_certs, count_x509, find_cert_by_listed_id, retry_session_open, signing_cert_from_object,
    CertObject, ModuleScanMerge,
};
use nexosign::pkcs11_support::{
    ordered_path_rows, ro_rw_session_error, rw_session_error, scan_timeout_message, session_pin, signer_route,
    SignerRoute,
};
use nexosign::seal_image::{image_appearance_content, seal_image_streams, seal_png_dimensions, split_rgba};
use nexosign::token_session::{
    check_pin_not_empty, idle_logout_due, token_idle_secs, verify_pin_result, LoginFailure, LoginOutcome,
    TokenError, TokenSession,
};
use nexosign::user_prompts::{
    origin_trust_message, origin_trust_precheck, record_trust_answer, up_to_date_message, update_flow_action,
    updater_enabled,
    update_offer_message, TrustPrecheck, UpdateAction, UpdateCheck,
};

fn png_bytes(pixels: &[[u8; 4]], width: u32) -> Vec<u8> {
    let height = (pixels.len() as u32) / width;
    let mut img = image::RgbaImage::new(width, height);
    for (i, p) in pixels.iter().enumerate() {
        let x = (i as u32) % width;
        let y = (i as u32) / width;
        img.put_pixel(x, y, image::Rgba(*p));
    }
    let mut out = std::io::Cursor::new(Vec::new());
    image::DynamicImage::ImageRgba8(img).write_to(&mut out, image::ImageFormat::Png).unwrap();
    out.into_inner()
}

#[test]
fn seal_images_split_and_compress() {
    let (rgb, alpha, has_alpha) = split_rgba(&[1, 2, 3, 255, 9, 9, 9, 0]);
    assert_eq!(rgb, vec![1, 2, 3, 255, 255, 255]);
    assert_eq!(alpha, vec![255, 0]);
    assert!(has_alpha);
    let opaque = png_bytes(&[[10, 20, 30, 255], [40, 50, 60, 255]], 2);
    assert_eq!(seal_png_dimensions(&opaque).unwrap(), (2, 1));
    let s = seal_image_streams(&opaque).unwrap();
    assert_eq!((s.width, s.height), (2, 1));
    assert!(s.alpha_compressed.is_none());
    assert!(!s.rgb_compressed.is_empty());
    let mut plain = Vec::new();
    std::io::Read::read_to_end(&mut flate2::read::ZlibDecoder::new(s.rgb_compressed.as_slice()), &mut plain).unwrap();
    assert_eq!(plain, vec![10, 20, 30, 40, 50, 60]);
    let translucent = png_bytes(&[[10, 20, 30, 128]], 1);
    assert!(seal_image_streams(&translucent).unwrap().alpha_compressed.is_some());
    let err = seal_image_streams(b"not a png").unwrap_err();
    assert!(err.message().contains("imagen sello: "));
    assert_eq!(image_appearance_content([0, 0, 120, 40]), "q 120 0 0 40 0 0 cm /img1 Do Q");
}

#[test]
fn chain_dedupe_and_errors() {
    assert_eq!(certificate_chain_der_windows(&[1, 2]), vec![vec![1, 2]]);
    assert_eq!(dedupe_chain(vec![vec![1], vec![2], vec![1], vec![3], vec![2]]), vec![vec![1], vec![2], vec![3]]);
    assert!(map_signer_info_build_error(&SignerInfoBuildError::Signature("x".into()))
        .starts_with("No se ha podido firmar con el DNIe o la tarjeta: x · Revisa el PIN"));
    assert_eq!(map_signer_info_build_error(&SignerInfoBuildError::Other("otro".into())), "otro");
}

#[test]
fn trust_prompt_and_updates() {
    let mut o = AllowedOrigins::development_defaults();
    assert_eq!(origin_trust_precheck(&o, "not an origin"), TrustPrecheck::Refuse);
    assert_eq!(origin_trust_precheck(&o, "http://localhost:1420"), TrustPrecheck::AlreadyTrusted);
    assert_eq!(origin_trust_precheck(&o, "https://nuevo.example"), TrustPrecheck::AskUser);
    assert!(origin_trust_message("https://x").contains("Origen:\nhttps://x\n\n"));
    assert!(!record_trust_answer(&mut o, "https://nuevo.example", false));
    assert!(!o.is_allowed_origin("https://nuevo.example"));
    assert!(record_trust_answer(&mut o, "https://nuevo.example", true));
    assert!(o.is_allowed_origin("https://nuevo.example"));
    assert_eq!(
        update_offer_message("1.2.0", Some("  Mejoras  ")),
        "Hay una nueva versión disponible: v1.2.0.\n\nMejoras\n\n¿Instalar ahora?"
    );
    assert_eq!(
        update_offer_message("1.2.0", Some("  ")),
        "Hay una nueva versión disponible: v1.2.0.\n\n¿Instalar ahora?"
    );
    assert_eq!(up_to_date_message("1.0.0"), "Ya tienes la última versión (v1.0.0).");
    assert!(matches!(update_flow_action(false, UpdateCheck::Failed("e".into())), UpdateAction::Done));
    match update_flow_action(true, UpdateCheck::Failed("e".into())) {
        UpdateAction::Fail(m) => assert_eq!(m, "No se pudo comprobar actualizaciones: e"),
        _ => panic!("expected failure"),
    }
    assert!(matches!(update_flow_action(true, UpdateCheck::UpToDate), UpdateAction::ShowUpToDate));
    assert!(matches!(update_flow_action(false, UpdateCheck::Available), UpdateAction::OfferInstall));
    assert!(matches!(update_flow_action(true, UpdateCheck::Disabled), UpdateAction::Fail(_)));
}

#[test]
fn token_objects_and_scans() {
    let objs = vec![
        CertObject { value: None, label: None, id: None },
        CertObject { value: Some(vec![0u8; 8]), label: Some(b"x".to_vec()), id: Some(vec![1]) },
    ];
    assert!(signing_cert_from_object(&objs[0]).is_none());
    assert!(signing_cert_from_object(&objs[1]).is_none());
    assert!(collect_signing_certs(&objs).is_empty());
    assert_eq!(count_x509(&objs), (2, 0));
    assert!(find_cert_by_listed_id(&objs, "01").is_none());
    assert!(retry_session_open(0, "Token not recognized"));
    assert!(!retry_session_open(1, "Token not recognized"));
    assert!(!retry_session_open(0, "other"));
    let mut m = ModuleScanMerge::start();
    assert!(m.wants_more());
    m.add_module(Vec::new(), &["Sesión RO: token not recognized".to_string()]);
    assert!(m.saw_token_not_recognized);
    assert!(m.wants_more());
    m.add_module(Vec::new(), &[]);
    assert!(!m.wants_more());
}

#[test]
fn token_session_states() {
    let mut s = TokenSession::new();
    assert!(matches!(s.pin_for_signing(), Err(TokenError::NotLoggedIn)));
    assert!(s.apply_login("1234".into(), LoginOutcome::Accepted).is_ok());
    assert_eq!(s.pin_for_signing().unwrap().as_deref(), Some("1234"));
    assert!(s.session_status(0).logged_in);
    s.logout();
    assert!(!s.session_status(0).logged_in);
    let e = s
        .apply_login("9".into(), LoginOutcome::Failed { kind: LoginFailure::Other, text: "CKR_DEVICE_ERROR".into() })
        .unwrap_err();
    assert_eq!(e.message(), "CKR_DEVICE_ERROR");
    assert!(matches!(check_pin_not_empty(""), Err(TokenError::EmptyPin)));
    assert!(matches!(
        verify_pin_result(LoginOutcome::Failed { kind: LoginFailure::PinIncorrect, text: "x".into() }),
        Err(TokenError::PinIncorrect)
    ));
    assert_eq!(TokenError::PinLocked.message(), "PIN bloqueado (demasiados intentos fallidos)");
    assert!(verify_pin_result(LoginOutcome::AlreadyLoggedIn).is_ok());
}

#[test]
fn signer_routing_and_driver_rows() {
    assert_eq!(signer_route("winmy:abc"), SignerRoute::WinMy);
    assert_eq!(signer_route(" winmy:abc"), SignerRoute::Pkcs11);
    assert_eq!(session_pin(Some(" 12 ")).as_deref(), Some("12"));
    assert_eq!(session_pin(Some("  ")), None);
    assert_eq!(rw_session_error("e"), "Sesión RW: e");
    assert_eq!(ro_rw_session_error("a", "b"), "Sesión RO: a; RW: b");
    assert_eq!(scan_timeout_message(12, "/x.so"), "Tiempo de espera agotado (12s) al usar /x.so");
    let rows = ordered_path_rows(&[" /a.so ".to_string(), "  ".to_string(), "/c.so".to_string()]);
    assert_eq!(rows, vec![("/a.so".to_string(), 0), ("/c.so".to_string(), 2)]);
}

#[test]
fn intent_bodies_and_origin_checks() {
    assert_eq!(intent_body_kind("multipart/form-data; boundary=x"), IntentBodyKind::Multipart);
    assert_eq!(intent_body_kind("application/json"), IntentBodyKind::Json);
    assert_eq!(intent_body_kind(""), IntentBodyKind::Json);
    assert_eq!(intent_body_kind("text/plain"), IntentBodyKind::Unsupported);
    let o = AllowedOrigins::development_defaults();
    let h = RequestOriginHeaders {
        origin: Some("http://localhost:1420".into()),
        x_client_origin: None,
        host: None,
        referer: None,
        authority_host: None,
        authority_port: None,
    };
    let c = origin_check(&o, &h, 14500);
    assert_eq!(c.origin.as_deref(), Some("http://localhost:1420"));
    assert!(c.trusted);
    assert!(matches!(origin_prompt_step(&o, &h, 14500), OriginPromptStep::AlreadyTrusted));
    let none = RequestOriginHeaders { origin: None, ..h };
    assert!(matches!(origin_prompt_step(&o, &none, 14500), OriginPromptStep::MissingOrigin));
    assert_eq!(focus_intent(Some("  ".into())), None);
    assert_eq!(focus_intent(Some("r1".into())).as_deref(), Some("r1"));
}

#[test]
fn pending_intent_rows_sorted() {
    let a = PendingBatchIntent::restore_from_storage(vec!["/x/uno.pdf".into(), "/x/dos.pdf".into()], None, None, 5);
    let b = PendingBatchIntent::restore_from_storage(vec!["/x/solo.pdf".into()], None, None, 9);
    let c = PendingBatchIntent::restore_from_storage(vec![], None, None, 7);
    assert_eq!(label_for_pending_intent(&a), "2 PDF · uno.pdf");
    assert_eq!(label_for_pending_intent(&b), "1 PDF · solo.pdf");
    assert_eq!(label_for_pending_intent(&c), "Sin archivos");
    let rows = vec![pending_intent_row("a", &a), pending_intent_row("b", &b), pending_intent_row("c", &c)];
    let sorted = sort_rows_newest_first(rows);
    let ids: Vec<&str> = sorted.iter().map(|r| r.request_id.as_str()).collect();
    assert_eq!(ids, vec!["b", "c", "a"]);
    let mut reg = PendingIntents::new();
    reg.insert("k1".into(), a);
    reg.insert("k2".into(), b);
    let mut ids = reg.request_ids();
    ids.sort();
    assert_eq!(ids, vec!["k1".to_string(), "k2".to_string()]);
}

#[test]
fn updates_are_checked_only_in_release_builds() {
    assert!(updater_enabled(false));
    assert!(!updater_enabled(true));
}

#[test]
fn openapi_document_points_at_the_listener() {
    let template = r#"{"servers":[{"url":"http://127.0.0.1:14500"}],"x":"http://127.0.0.1:14500/docs"}"#;
    assert_eq!(
        openapi_json_for_base_url(template, "http://127.0.0.1:15099"),
        r#"{"servers":[{"url":"http://127.0.0.1:15099"}],"x":"http://127.0.0.1:15099/docs"}"#
    );
    assert_eq!(openapi_json_for_base_url(template, "http://127.0.0.1:14500"), template);
    assert_eq!(openapi_json_for_base_url("sin servidor", "http://127.0.0.1:1"), "sin servidor");
}

#[test]
fn clock_reading_before_epoch_counts_as_zero() {
    assert_eq!(nexosign::clock::secs_or_zero(None), 0);
    assert_eq!(nexosign::clock::secs_or_zero(Some(1_700_000_000)), 1_700_000_000);
    assert!(nexosign::clock::unix_now_or_zero() > 1_600_000_000);
}

#[test]
fn token_idle_logout() {
    assert_eq!(token_idle_secs(None), 900);
    assert_eq!(token_idle_secs(Some("60")), 60);
    assert_eq!(token_idle_secs(Some("abc")), 900);
    assert_eq!(token_idle_secs(Some("0")), 0);
    assert!(!idle_logout_due(1000, 500, 0));
    assert!(!idle_logout_due(1000, 200, 900));
    assert!(idle_logout_due(1100, 200, 900));
    assert!(!idle_logout_due(100, 200, 900));
    let mut s = TokenSession::with_idle_limit(60);
    assert!(s.apply_login("1234".into(), LoginOutcome::Accepted).is_ok());
    s.touch(1000);
    let st = s.session_status(1030);
    assert_eq!((st.idle_timeout_secs, st.seconds_until_auto_logout), (60, Some(30)));
    assert!(!s.expire_if_idle(1059));
    assert!(s.expire_if_idle(1060));
    assert!(!s.session_status(1060).logged_in);
    assert!(matches!(s.pin_for_signing(), Err(TokenError::NotLoggedIn)));
    assert_eq!(TokenSession::new().session_status(0).idle_timeout_secs, 900);
}

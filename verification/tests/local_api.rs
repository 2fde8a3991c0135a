use nexosign::batch_job_snapshot::{
    batch_job_max_wall_clock_secs_i64, batch_job_timeout_user_message, check_batch_job_max_secs,
    env_batch_job_max_secs_override, get_batch_job_max_secs_config, parse_stored_batch_job_max_secs,
    finished_snapshot, queue_max_wall_clock_secs, queued_snapshot, snapshot_after_progress, BatchJobPhase,
    QueueMaxStore,
};
use nexosign::local_api_listen::{
    base_url_for_port, effective_listen_port, LocalApiRuntime, LOCAL_API_DEFAULT_PORT,
};
use nexosign::local_api_ops::{
    after_queue_send, intent_response,
    check_batch_sign_request, decode_seal_png, health_payload, job_id_for, job_not_found,
    ping_payload, prepare_batch_sign_options, queue_send_error, BatchSignBody, LocalApiInvokeError,
    LocalApiOpError, QueueSendFailure, SignatureGridDto, SignatureGridPlacement,
};
use nexosign::pdf_validation::{FileMeta, PdfFileProbe};

#[test]
fn base_url_for_port_formats_loopback() {
    assert_eq!(base_url_for_port(14500), "http://127.0.0.1:14500");
}

#[test]
fn effective_listen_port_env_override_and_invalid_fallback() {
    assert_eq!(effective_listen_port(Some("not-a-port")), LOCAL_API_DEFAULT_PORT);
    assert_eq!(effective_listen_port(Some("15099")), 15099);
    assert_eq!(effective_listen_port(Some(" 15099 ")), 15099);
    assert_eq!(effective_listen_port(Some("0")), LOCAL_API_DEFAULT_PORT);
    assert_eq!(effective_listen_port(Some("70000")), LOCAL_API_DEFAULT_PORT);
    assert_eq!(effective_listen_port(Some("+8080")), 8080);
    assert_eq!(effective_listen_port(None), LOCAL_API_DEFAULT_PORT);
}

#[test]
fn runtime_snapshots_follow_state() {
    let mut rt = LocalApiRuntime::new(Some("15099"));
    assert!(rt.is_locked_by_env());
    assert_eq!(rt.configured_port(), 15099);
    let s = rt.snapshot();
    assert!(!s.listening);
    assert_eq!(s.base_url, "http://127.0.0.1:15099");
    rt.set_listening(15099);
    let s = rt.snapshot();
    assert!(s.listening);
    assert_eq!(s.error, None);
    rt.set_failed(15100, "address in use".to_string());
    let s = rt.snapshot();
    assert!(!s.listening);
    assert_eq!(s.port, 15100);
    assert_eq!(rt.gate_listen_port(), 15100);
    assert_eq!(s.error.as_deref(), Some("address in use"));
    let d = LocalApiRuntime::new(None);
    assert!(!d.is_locked_by_env());
    assert_eq!(d.configured_port(), 14500);
}

#[test]
fn queue_limit_precedence() {
    let mut store = QueueMaxStore::new();
    assert_eq!(store.stored_queue_max_wall_clock_secs(), 300);
    store.init_stored_queue_max_secs_from_db(Some(120));
    assert_eq!(queue_max_wall_clock_secs(None, &store), 120);
    assert_eq!(queue_max_wall_clock_secs(Some("900"), &store), 900);
    assert_eq!(queue_max_wall_clock_secs(Some("10"), &store), 120);
    assert_eq!(queue_max_wall_clock_secs(Some("abc"), &store), 120);
    assert_eq!(env_batch_job_max_secs_override(Some("604800")), Some(604800));
    assert_eq!(env_batch_job_max_secs_override(Some("604801")), None);
    store.init_stored_queue_max_secs_from_db(Some(5));
    assert_eq!(store.stored_queue_max_wall_clock_secs(), 300);
    store.init_stored_queue_max_secs_from_db(None);
    assert_eq!(batch_job_max_wall_clock_secs_i64(None, &store), 300);
    assert_eq!(
        batch_job_timeout_user_message(None, &store),
        "Tiempo máximo del trabajo (300 s) superado."
    );
}

#[test]
fn queue_limit_setting_checks() {
    assert!(check_batch_job_max_secs(None, 600).is_ok());
    assert_eq!(
        check_batch_job_max_secs(None, 59).unwrap_err(),
        "el valor debe estar entre 60 y 604800 segundos"
    );
    assert!(check_batch_job_max_secs(Some("600"), 600).unwrap_err().contains("tiene prioridad"));
    assert!(check_batch_job_max_secs(Some("garbage"), 600).is_ok());
    assert_eq!(parse_stored_batch_job_max_secs("900"), Ok(900));
    assert_eq!(
        parse_stored_batch_job_max_secs("9x").unwrap_err(),
        "batch_job_max_secs almacenado no es un entero válido"
    );
    let mut store = QueueMaxStore::new();
    store.init_stored_queue_max_secs_from_db(Some(1000));
    let cfg = get_batch_job_max_secs_config(Some("700"), &store);
    assert_eq!(cfg.effective_secs, 700);
    assert!(cfg.locked_by_env);
    assert_eq!(cfg.stored_secs, 1000);
}

#[test]
fn queued_job_snapshot_totals() {
    let s = queued_snapshot("j".to_string(), 0, Some(5));
    assert_eq!(s.total, 1);
    assert_eq!(s.phase, BatchJobPhase::Queued);
    assert_eq!(queued_snapshot("j".to_string(), 3, None).total, 3);
}

fn body(cert: &str, inputs: Vec<String>) -> BatchSignBody {
    BatchSignBody {
        cert_id_hex: cert.to_string(),
        inputs,
        job_id: None,
        pin: None,
        output_dir: None,
        signature_grid: None,
        intent_request_id: None,
        signature_seal_png_base64: None,
    }
}

fn pdf_probe() -> PdfFileProbe {
    PdfFileProbe { metadata: Ok(FileMeta { is_file: true, len: 10 }), prefix: Ok(b"%PDF-1.7".to_vec()) }
}

#[test]
fn enqueue_without_queue_returns_503() {
    let b = body("01ab", vec![]);
    let err = check_batch_sign_request(false, &b, &[]).unwrap_err();
    assert_eq!(err.status, 503);
    assert_eq!(err.code, "service_unavailable");
}

#[test]
fn enqueue_request_checks_in_order() {
    let err = check_batch_sign_request(true, &body("   ", vec![]), &[]).unwrap_err();
    assert_eq!((err.status, err.detail.as_str()), (400, "cert_id_hex requerido"));
    let err = check_batch_sign_request(true, &body("01ab", vec![]), &[]).unwrap_err();
    assert_eq!(err.detail, "inputs no puede estar vacío");
    let mut b = body("01ab", vec!["/tmp/a.pdf".to_string()]);
    assert!(check_batch_sign_request(true, &b, &[pdf_probe()]).is_ok());
    b.output_dir = Some("relativa".to_string());
    let err = check_batch_sign_request(true, &b, &[pdf_probe()]).unwrap_err();
    assert_eq!(err.detail, "output_dir debe ser ruta absoluta (recibido: relativa)");
}

#[test]
fn enqueue_options_checks() {
    let mut b = body("01ab", vec![]);
    b.signature_grid = Some(SignatureGridDto { col: 3, row: 0 });
    assert_eq!(
        prepare_batch_sign_options(&b).unwrap_err().detail,
        "signature_grid: col debe ser 0–2 y row 0–4 (rejilla 3×5)"
    );
    b.signature_grid = Some(SignatureGridDto { col: 2, row: 4 });
    b.pin = Some("   ".to_string());
    assert_eq!(prepare_batch_sign_options(&b).unwrap_err().detail, "PIN vacío");
    b.pin = Some(" 1234 ".to_string());
    b.signature_seal_png_base64 = Some("aGVsbG8=".to_string());
    let o = prepare_batch_sign_options(&b).unwrap();
    assert_eq!(o.pin.as_deref(), Some("1234"));
    assert_eq!(o.signature_grid, Some(SignatureGridPlacement { col: 2, row: 4 }));
    assert_eq!(o.seal_png.as_deref(), Some(&b"hello"[..]));
    b.signature_seal_png_base64 = Some("@@no base64@@".to_string());
    assert_eq!(
        prepare_batch_sign_options(&b).unwrap_err().detail,
        "signature_seal_png_base64 no es base64 válido"
    );
}

#[test]
fn seal_decoding_limits() {
    assert_eq!(decode_seal_png(None), Ok(None));
    assert_eq!(decode_seal_png(Some("  ")), Ok(None));
    let big = "A".repeat(2_000_004);
    assert_eq!(decode_seal_png(Some(&big)).unwrap_err(), "signature_seal_png_base64 supera 1,5 MiB");
}

#[test]
fn op_errors_and_payloads() {
    let e = queue_send_error(QueueSendFailure::Full);
    assert_eq!((e.status, e.detail.as_str()), (503, "cola batch llena, reintente"));
    let e = queue_send_error(QueueSendFailure::Closed);
    assert_eq!(e.detail, "cola batch cerrada");
    let nf = job_not_found();
    assert_eq!((nf.status, nf.code.as_str()), (404, "job_not_found"));
    let inv = LocalApiInvokeError::from(LocalApiOpError::internal("c".into(), "d".into()));
    assert_eq!((inv.code.as_str(), inv.detail.as_str()), ("c", "d"));
    let h = health_payload("1.2.3");
    assert_eq!((h.status, h.service, h.version), ("ok", "nexosign", "1.2.3"));
    assert!(ping_payload().ok);
    assert_eq!(job_id_for(Some("mine".into())), "mine");
    assert_eq!(job_id_for(None).len(), 36);
    assert_ne!(job_id_for(None), job_id_for(None));
}

#[test]
fn grid_placement_default_and_clamp() {
    let d = SignatureGridPlacement::default_placement();
    assert_eq!((d.col, d.row), (1, 4));
    let n = SignatureGridPlacement { col: 9, row: 9 }.normalized();
    assert_eq!((n.col, n.row), (2, 4));
}

#[test]
fn job_status_unknown_returns_not_found() {
    let snapshots: std::collections::HashMap<String, nexosign::batch_job_snapshot::BatchJobSnapshot> =
        std::collections::HashMap::new();
    let err = snapshots.get("no-existe").cloned().ok_or_else(job_not_found).unwrap_err();
    assert_eq!(err.code, "job_not_found");
    assert_eq!(err.status, 404);
}

#[test]
fn job_snapshots_follow_progress_and_end() {
    let q = queued_snapshot("job-1".to_string(), 2, Some(1000));
    let s1 = snapshot_after_progress(q, 1, 2, "a.pdf".to_string(), None);
    assert_eq!(s1.phase, BatchJobPhase::Running);
    assert_eq!((s1.actual, s1.total), (1, 2));
    assert_eq!(s1.current_file_name.as_deref(), Some("a.pdf"));
    assert_eq!(s1.error, None);
    assert_eq!(s1.queued_at_unix, Some(1000));
    let s2 = snapshot_after_progress(s1, 2, 2, "b.pdf".to_string(), Some("PIN incorrecto".to_string()));
    assert_eq!(s2.error.as_deref(), Some("PIN incorrecto"));
    let s3 = snapshot_after_progress(s2, 2, 2, "b.pdf".to_string(), None);
    assert_eq!(s3.error.as_deref(), Some("PIN incorrecto"));
    let done = finished_snapshot(s3.clone(), false, Some(2000));
    assert_eq!(done.phase, BatchJobPhase::Completed);
    assert_eq!(done.terminal_at_unix, Some(2000));
    assert_eq!(done.job_id, "job-1");
    let cancelled = finished_snapshot(s3, true, None);
    assert_eq!(cancelled.phase, BatchJobPhase::Cancelled);
    assert_eq!(cancelled.terminal_at_unix, None);
}

#[test]
fn batch_sign_rejects_empty_cert_id() {
    let b = body(" ", vec!["/tmp/a.pdf".to_string()]);
    let err = check_batch_sign_request(true, &b, &[pdf_probe()]).unwrap_err();
    assert_eq!(err.status, 400);
}

#[test]
fn batch_sign_rejects_empty_pin() {
    let mut b = body("aa", vec!["/tmp/a.pdf".to_string()]);
    b.pin = Some("  ".to_string());
    assert!(check_batch_sign_request(true, &b, &[pdf_probe()]).is_ok());
    assert_eq!(prepare_batch_sign_options(&b).unwrap_err().status, 400);
}

#[test]
fn batch_sign_rejects_out_of_range_signature_grid() {
    let mut b = body("aa", vec!["/tmp/a.pdf".to_string()]);
    b.signature_grid = Some(SignatureGridDto { col: 4, row: 9 });
    assert_eq!(prepare_batch_sign_options(&b).unwrap_err().status, 400);
}

#[test]
fn batch_sign_returns_503_when_queue_is_full() {
    assert_eq!(queue_send_error(QueueSendFailure::Full).status, 503);
}

#[test]
fn intent_response_carries_deep_link() {
    let r = intent_response("rid-1".to_string());
    assert_eq!(r.request_id, "rid-1");
    assert_eq!(r.deep_link, "nexosign://sign?intent=rid-1");
}

#[test]
fn queued_job_is_recorded_and_refused_job_is_not() {
    let rec = after_queue_send(None, "job-1".to_string(), Some("rid".to_string()), 3, Some(100)).unwrap();
    assert_eq!(rec.consumed_intent.as_deref(), Some("rid"));
    assert_eq!(rec.snapshot.job_id, "job-1");
    assert_eq!(rec.snapshot.phase, BatchJobPhase::Queued);
    assert_eq!(rec.snapshot.total, 3);
    assert_eq!(rec.store_enqueue_at, Some(100));
    assert_eq!(rec.response.job_id, "job-1");
    assert!(rec.response.queued);
    let e = after_queue_send(Some(QueueSendFailure::Full), "job-will-fail-full".to_string(), None, 1, None).unwrap_err();
    assert_eq!((e.status, e.detail.as_str()), (503, "cola batch llena, reintente"));
    let e = after_queue_send(Some(QueueSendFailure::Closed), "j".to_string(), None, 1, None).unwrap_err();
    assert_eq!(e.detail, "cola batch cerrada");
}

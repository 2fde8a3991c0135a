use nexosign::der_attrs::{encode_der_length, signing_certificate_v2_der, wrap_sequence};
use nexosign::errors::SignBatchError;
use nexosign::pades_fields::{
    appearance_text_content, count_signature_dictionaries, next_signature_field_name,
    pdf_escape_pdf_literal, pdf_signing_time, signature_plan, signature_times_now, CmsReservation,
    DictFacts, ReservationStep,
};
use nexosign::pending_batch_intent::PendingBatchIntent;
use nexosign::pending_intents::{IntentLookup, PendingIntents};
use nexosign::queue_store::{
    classify_stored_intent, intent_payload_row, load_queue_snapshot, queue_rows_of,
    BatchQueueHistoryPayload, BatchQueueItemPayload, IntentQueueItemPayload, QueueTables,
    StoredIntentAction, StoredIntentRow,
};
use nexosign::signed_outputs::{
    MAX_SIGNED_DOWNLOAD_BYTES, check_signed_download, content_disposition, download_refusal_reply, file_href, intent_status, manifest_href,
    pick_signed_output, safe_download_filename, signed_manifest, DownloadRefusal, IntentStatus,
};
use nexosign::x509::{der_is_signing_certificate, get_signer_name_from_der, subject_dn_from_der};

#[test]
fn signing_certificate_v2_fails_on_invalid_cert() {
    let fake_cert = vec![0u8; 64];
    assert!(signing_certificate_v2_der(&fake_cert).is_err());
}

#[test]
fn der_lengths_and_sequences() {
    assert_eq!(encode_der_length(5), vec![5]);
    assert_eq!(encode_der_length(127), vec![127]);
    assert_eq!(encode_der_length(128), vec![0x81, 0x80]);
    assert_eq!(encode_der_length(300), vec![0x82, 0x01, 0x2c]);
    assert_eq!(wrap_sequence(&[1, 2]), vec![0x30, 2, 1, 2]);
}

#[test]
fn unparseable_certificates_get_fallback_texts() {
    assert!(!der_is_signing_certificate(&[0u8; 10]));
    assert_eq!(subject_dn_from_der(&[1, 2, 3]), "");
    assert_eq!(get_signer_name_from_der(&[1, 2, 3]), "Firmante Desconocido");
}

#[test]
fn error_messages() {
    assert_eq!(
        SignBatchError::Pades("x".into()).message(),
        "PDF inválido u operación PAdES fallida: x"
    );
}

fn intent(created: u64) -> PendingBatchIntent {
    PendingBatchIntent::restore_from_storage(
        vec!["/tmp/a.pdf".to_string()],
        Some("/tmp/out".to_string()),
        Some("/tmp/staging".to_string()),
        created,
    )
}

#[test]
fn intent_expiry() {
    let i = intent(1000);
    assert!(!i.is_expired_at(1300, 300));
    assert!(i.is_expired_at(1301, 300));
    assert!(!i.is_expired_at(10, 300));
    let fresh = PendingBatchIntent::new(vec![], None, None);
    assert!(!fresh.is_expired(300));
}

#[test]
fn pending_intents_read_back_what_was_stored() {
    let mut reg = PendingIntents::new();
    assert!(reg.get("r1").is_none());
    reg.insert("r1".to_string(), intent(1000));
    reg.insert("r2".to_string(), intent(2000));
    assert_eq!(reg.get("r1").unwrap().created_unix, 1000);
    reg.insert("r1".to_string(), intent(1500));
    assert_eq!(reg.get("r1").unwrap().created_unix, 1500);
    let removed = reg.remove("r1").unwrap();
    assert_eq!(removed.created_unix, 1500);
    assert!(reg.get("r1").is_none());
    assert!(reg.remove("r1").is_none());
    assert_eq!(reg.get("r2").unwrap().created_unix, 2000);
}

#[test]
fn pending_intents_expire_on_lookup() {
    let mut reg = PendingIntents::new();
    reg.insert("r".to_string(), intent(1000));
    match reg.take_if_expired("r", 1100, 300) {
        IntentLookup::Live { inputs, output_dir } => {
            assert_eq!(inputs, vec!["/tmp/a.pdf".to_string()]);
            assert_eq!(output_dir.as_deref(), Some("/tmp/out"));
        }
        _ => panic!("expected a live intent"),
    }
    match reg.take_if_expired("r", 5000, 300) {
        IntentLookup::Expired(i) => assert_eq!(i.staging_dir.as_deref(), Some("/tmp/staging")),
        _ => panic!("expected an expired intent"),
    }
    assert!(matches!(reg.take_if_expired("r", 5000, 300), IntentLookup::Missing));
}

#[test]
fn intent_status_phases() {
    assert!(matches!(intent_status(true, None, None), IntentStatus::AwaitingConfirmation));
    assert!(matches!(intent_status(false, None, None), IntentStatus::NotFound));
    match intent_status(false, Some("j1".into()), None) {
        IntentStatus::Processing { job_id, manifest_href } => {
            assert_eq!(job_id, "j1");
            assert_eq!(manifest_href, "/api/v1/batch/jobs/j1/signed-files");
        }
        _ => panic!("expected processing"),
    }
    match intent_status(false, Some("j1".into()), Some(3)) {
        IntentStatus::Completed { signed_file_count, .. } => assert_eq!(signed_file_count, 3),
        _ => panic!("expected completed"),
    }
}

#[test]
fn manifest_and_downloads() {
    assert_eq!(manifest_href("j"), "/api/v1/batch/jobs/j/signed-files");
    assert_eq!(file_href("j", 12), "/api/v1/batch/jobs/j/files/12");
    let m = signed_manifest("j9", &["/out/a_firmado.pdf".to_string(), "/".to_string()]);
    assert_eq!(m.len(), 2);
    assert_eq!(m[0].filename, "a_firmado.pdf");
    assert_eq!(m[1].filename, "signed.pdf");
    assert_eq!(m[1].href, "/api/v1/batch/jobs/j9/files/1");
    assert_eq!(pick_signed_output(None, 0), Err(DownloadRefusal::JobOutputsNotFound));
    assert_eq!(pick_signed_output(Some(2), 2), Err(DownloadRefusal::FileIndexOutOfRange));
    assert_eq!(pick_signed_output(Some(2), 1), Ok(1));
    assert_eq!(check_signed_download(None), Err(DownloadRefusal::FileGone));
    assert_eq!(check_signed_download(Some((false, 1))), Err(DownloadRefusal::NotRegularFile));
    assert_eq!(check_signed_download(Some((true, 60817409))), Err(DownloadRefusal::TooLarge));
    assert_eq!(check_signed_download(Some((true, 60817408))), Ok(()));
    assert_eq!(safe_download_filename(Some("a\"b\\c\r\nd.pdf")), "abcd.pdf");
    assert_eq!(safe_download_filename(None), "documento_firmado.pdf");
    assert_eq!(content_disposition("x.pdf"), "attachment; filename=\"x.pdf\"");
}

#[test]
fn save_and_load_queue_snapshot_roundtrip() {
    let payload = BatchQueueHistoryPayload {
        items: vec![BatchQueueItemPayload {
            job_id: "j1".into(),
            status: "running".into(),
            label: "Lote".into(),
            progress_pct: 50,
            created_at: 1000,
            finished_at: None,
        }],
        active_batch_job_id: Some("j1".into()),
        intent_items: vec![IntentQueueItemPayload {
            request_id: "i1".into(),
            label: "1 PDF".into(),
            file_count: 1,
            created_at: 2000,
        }],
        active_intent_request_id: Some("i1".into()),
    };
    let (batch_rows, intent_rows) = queue_rows_of(&payload);
    assert_eq!(batch_rows[0].sort_order, 0);
    let tables = QueueTables {
        batch_rows,
        intent_rows,
        ui_row_count: 2,
        active_batch_job_id: Some("j1".into()),
        active_intent_request_id: Some("i1".into()),
    };
    let loaded = load_queue_snapshot(&tables).expect("snapshot");
    assert_eq!(loaded.items.len(), 1);
    assert_eq!(loaded.items[0].job_id, "j1");
    assert_eq!(loaded.items[0].progress_pct, 50);
    assert_eq!(loaded.active_batch_job_id.as_deref(), Some("j1"));
    assert_eq!(loaded.intent_items.len(), 1);
    assert_eq!(loaded.active_intent_request_id.as_deref(), Some("i1"));
    let empty = QueueTables {
        batch_rows: vec![],
        intent_rows: vec![],
        ui_row_count: 0,
        active_batch_job_id: None,
        active_intent_request_id: None,
    };
    assert!(load_queue_snapshot(&empty).is_none());
}

#[test]
fn stored_intents_are_classified() {
    let row = |json: &str, created: i64| StoredIntentRow {
        request_id: "r".into(),
        inputs_json: json.into(),
        output_dir: None,
        staging_dir: Some("/tmp/s".into()),
        created_unix: created,
    };
    assert!(matches!(classify_stored_intent(row("NOT_JSON_ARRAY", 99), 100, 300), StoredIntentAction::DropCorrupt));
    match classify_stored_intent(row("[\"/a.pdf\"]", 100), 1000, 300) {
        StoredIntentAction::DropExpired { staging_dir } => assert_eq!(staging_dir.as_deref(), Some("/tmp/s")),
        _ => panic!("expected expiry"),
    }
    match classify_stored_intent(row("[\"/a.pdf\",\"/b.pdf\"]", 900), 1000, 300) {
        StoredIntentAction::Restore(i) => assert_eq!(i.inputs, vec!["/a.pdf".to_string(), "/b.pdf".to_string()]),
        _ => panic!("expected a restored intent"),
    }
    let r = intent_payload_row("rid-1", &intent(42));
    assert_eq!(r.inputs_json, "[\"/tmp/a.pdf\"]");
    assert_eq!(r.created_unix, 42);
}

#[test]
fn appearance_and_signature_fields() {
    assert_eq!(pdf_escape_pdf_literal("a(b)c\\d"), "a\\(b\\)c\\\\d");
    let t = appearance_text_content([10, 20, 110, 60], "Ana (QA)", "01/02/2025 10:00");
    assert!(t.starts_with("q 0.97 0.98 1 rg 0 0 100 40 re f Q BT /F1 7 Tf 0.22 0.24 0.3 rg 8 27 Td"));
    assert!(t.contains("(Ana \\(QA\\)) Tj"));
    assert!(t.ends_with("(01/02/2025 10:00) Tj ET"));
    let small = appearance_text_content([0, 0, 10, 5], "x", "y");
    assert!(small.contains("rg 8 -8 Td"));
    assert_eq!(pdf_signing_time("D:20250102030405", "-0500"), "D:20250102030405-05'00'");
    assert_eq!(pdf_signing_time("D:20250102030405", ""), "D:20250102030405Z");
    let (display, m) = signature_times_now();
    assert_eq!(display.len(), 16);
    assert!(m.starts_with("D:"));
    assert!(m.ends_with('\''));
    assert_eq!(display.as_bytes()[2], b'/');
    let dicts = vec![
        DictFacts { dict_type: Some(b"Sig".to_vec()), sub_filter: Some(b"ETSI.CAdES.detached".to_vec()) },
        DictFacts { dict_type: Some(b"Sig".to_vec()), sub_filter: Some(b"adbe.pkcs7.detached".to_vec()) },
        DictFacts { dict_type: Some(b"Sig".to_vec()), sub_filter: Some(b"other".to_vec()) },
        DictFacts { dict_type: Some(b"Annot".to_vec()), sub_filter: None },
    ];
    let n = count_signature_dictionaries(&dicts);
    assert_eq!(n, 2);
    assert_eq!(next_signature_field_name(n), "Signature3");
    let plan = signature_plan(8192, [1, 2, 3, 4], "José", "Signature1".into(), "D:x".into());
    assert_eq!(plan.name, "José".as_bytes().to_vec());
    assert_eq!(plan.annotation_flags, 132);
    assert_eq!(plan.sig_flags, 3);
    assert_eq!(plan.sub_filter, "ETSI.CAdES.detached");
}

#[test]
fn cms_reservation_grows_until_it_fits() {
    let mut r = CmsReservation::start();
    assert_eq!(r.reserved, 8192);
    assert_eq!(r.after_attempt(9000), ReservationStep::Retry);
    assert_eq!(r.reserved, 9000);
    assert_eq!(r.after_attempt(9000), ReservationStep::Fits);
    let mut g = CmsReservation { reserved: 10, attempts: 24 };
    assert_eq!(g.after_attempt(11), ReservationStep::GiveUp);
}

#[test]
fn refused_downloads_map_to_status_and_error() {
    assert_eq!(download_refusal_reply(DownloadRefusal::JobOutputsNotFound), (404, "job_outputs_not_found"));
    assert_eq!(download_refusal_reply(DownloadRefusal::FileIndexOutOfRange), (404, "file_index_out_of_range"));
    assert_eq!(download_refusal_reply(DownloadRefusal::FileGone), (404, "archivo ya no disponible en disco"));
    assert_eq!(download_refusal_reply(DownloadRefusal::NotRegularFile), (404, "no es un fichero regular"));
    assert_eq!(
        download_refusal_reply(DownloadRefusal::TooLarge),
        (413, "pdf firmado supera el límite de descarga")
    );
}

#[test]
fn hydrate_removes_corrupt_inputs_json_row() {
    let row = StoredIntentRow {
        request_id: "bad-rid".into(),
        inputs_json: "NOT_JSON_ARRAY".into(),
        output_dir: None,
        staging_dir: None,
        created_unix: 99,
    };
    assert!(matches!(classify_stored_intent(row, 100, 300), StoredIntentAction::DropCorrupt));
}

#[test]
fn upsert_and_delete_intent_payload_roundtrip() {
    let intent = PendingBatchIntent::restore_from_storage(vec!["/tmp/a.pdf".to_string()], None, None, 42);
    let row = intent_payload_row("rid-1", &intent);
    assert_eq!(row.request_id, "rid-1");
    assert_eq!(row.inputs_json, r#"["/tmp/a.pdf"]"#);
    assert_eq!(row.created_unix, 42);
    match classify_stored_intent(row, 100, 300) {
        StoredIntentAction::Restore(back) => {
            assert_eq!(back.inputs, vec!["/tmp/a.pdf".to_string()]);
            assert_eq!(back.output_dir, None);
            assert_eq!(back.staging_dir, None);
            assert_eq!(back.created_unix, 42);
        }
        _ => panic!("expected the intent back"),
    }
    let mut store = PendingIntents::new();
    store.insert("rid-1".to_string(), intent);
    assert!(store.remove("rid-1").is_some());
    assert!(store.get("rid-1").is_none());
}

#[test]
fn get_batch_sign_intent_from_store_cleans_expired_staging() {
    let now: u64 = 1_000_000;
    let max_secs: u64 = 300;
    let ent = PendingBatchIntent::restore_from_storage(
        vec!["/tmp/a.pdf".to_string()],
        None,
        Some("/tmp/nexosign-cmd-expired".to_string()),
        now - (max_secs + 5),
    );
    let mut store = PendingIntents::new();
    store.insert("rid-expired".to_string(), ent);
    match store.take_if_expired("rid-expired", now, max_secs) {
        IntentLookup::Expired(e) => assert_eq!(e.staging_dir.as_deref(), Some("/tmp/nexosign-cmd-expired")),
        _ => panic!("expected expiry"),
    }
    assert!(store.get("rid-expired").is_none());
    assert!(store.request_ids().is_empty());
}

#[test]
fn download_signed_file_index_out_of_range() {
    let r = pick_signed_output(Some(1), 99);
    assert_eq!(r, Err(DownloadRefusal::FileIndexOutOfRange));
    assert_eq!(download_refusal_reply(r.unwrap_err()), (404, "file_index_out_of_range"));
    assert_eq!(pick_signed_output(Some(1), 0), Ok(0));
}

#[test]
fn download_signed_file_rejects_over_limit_bytes() {
    let r = check_signed_download(Some((true, MAX_SIGNED_DOWNLOAD_BYTES + 1024)));
    assert_eq!(r, Err(DownloadRefusal::TooLarge));
    assert_eq!(download_refusal_reply(r.unwrap_err()).0, 413);
    assert_eq!(check_signed_download(Some((true, MAX_SIGNED_DOWNLOAD_BYTES))), Ok(()));
}

#[test]
fn intent_status_expired_yields_404_intent_not_found() {
    let mut reg = PendingIntents::new();
    reg.insert("expired-rid".to_string(), intent(1000));
    let max_secs = 1800;
    let now = 1000 + max_secs + 60;
    assert!(matches!(reg.take_if_expired("expired-rid", now, max_secs), IntentLookup::Expired(_)));
    assert!(reg.get("expired-rid").is_none());
    assert!(matches!(intent_status(false, None, None), IntentStatus::NotFound));
}

#[test]
fn field_name_counts_the_signatures_already_in_the_pdf() {
    let mut doc = lopdf::Document::with_version("1.7");
    let mut sig = lopdf::Dictionary::new();
    sig.set("Type", lopdf::Object::Name(b"Sig".to_vec()));
    sig.set("SubFilter", lopdf::Object::Name(b"ETSI.CAdES.detached".to_vec()));
    doc.add_object(lopdf::Object::Dictionary(sig));
    let mut other = lopdf::Dictionary::new();
    other.set("Type", lopdf::Object::Name(b"Sig".to_vec()));
    other.set("SubFilter", lopdf::Object::Name(b"x.other".to_vec()));
    doc.add_object(lopdf::Object::Dictionary(other));
    let mut catalog = lopdf::Dictionary::new();
    catalog.set("Type", lopdf::Object::Name(b"Catalog".to_vec()));
    let root = doc.add_object(lopdf::Object::Dictionary(catalog));
    doc.trailer.set("Root", lopdf::Object::Reference(root));
    let mut bytes = Vec::new();
    doc.save_to(&mut bytes).unwrap();
    assert_eq!(nexosign::pades_fields::signature_field_name_for_pdf(&bytes).as_deref(), Some("Signature2"));
    assert_eq!(nexosign::pades_fields::signature_field_name_for_pdf(b"no es un pdf"), None);
}

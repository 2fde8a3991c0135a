use nexosign::intent_upload::{
    check_intent_has_files, fallback_pdf_name, intent_output_dir_text, numbered_pdf_name,
    sanitize_staged_filename, IntentUpload,
};
use nexosign::pdf_validation::{
    partition_pdf_paths, validate_batch_pdf_inputs, validate_pdf_magic_and_size,
    validate_pdf_magic_prefix, validate_single_pdf_input, FileMeta, PdfFileProbe,
    MAX_BATCH_PDF_BYTES,
};

fn probe_of(bytes: &[u8]) -> PdfFileProbe {
    PdfFileProbe {
        metadata: Ok(FileMeta { is_file: true, len: bytes.len() as u64 }),
        prefix: Ok(bytes.iter().take(16).cloned().collect()),
    }
}

#[test]
fn magic_prefix_rejects_short_buffer() {
    assert!(validate_pdf_magic_prefix(b"%PD").is_err());
}

#[test]
fn magic_prefix_rejects_wrong_header() {
    assert!(validate_pdf_magic_prefix(b"<!DOCTYPE html>").is_err());
}

#[test]
fn magic_prefix_accepts_pdf_header() {
    assert!(validate_pdf_magic_prefix(b"%PDF-1.7\n").is_ok());
}

#[test]
fn magic_and_size_rejects_over_limit() {
    let big = MAX_BATCH_PDF_BYTES + 1;
    assert!(validate_pdf_magic_and_size(big, b"%PDF").is_err());
}

#[test]
fn batch_inputs_empty_err() {
    assert!(validate_batch_pdf_inputs(&[], &[]).is_err());
}

#[test]
fn validate_single_rejects_relative_path() {
    let err = validate_single_pdf_input("relative.pdf", &probe_of(b"%PDF-1.7")).unwrap_err();
    assert!(err.contains("absoluta"));
}

#[test]
fn partition_rejected_carries_path_and_reason() {
    let bad = "/tmp/nexosign-part/plantilla.pdf".to_string();
    let (_, rejected) = partition_pdf_paths(vec![bad.clone()], &[probe_of(b"<%xml version=\"1.0\"?>")]);
    assert_eq!(rejected.len(), 1);
    assert!(rejected[0].path.contains("plantilla.pdf"));
    assert!(rejected[0].reason.to_lowercase().contains("pdf") || rejected[0].reason.contains("%PDF"));
}

#[test]
fn validate_single_and_partition_with_probes() {
    let ok_abs = "/tmp/nexosign-val/good.pdf".to_string();
    let bad_abs = "/tmp/nexosign-val/bad.pdf".to_string();
    let good = probe_of(b"%PDF-1.7 minimal");
    let bad = probe_of(b"not a pdf");
    assert!(validate_single_pdf_input(&ok_abs, &good).is_ok());
    assert!(validate_single_pdf_input(&bad_abs, &bad).is_err());
    let (accepted, rejected) = partition_pdf_paths(
        vec![ok_abs.clone(), bad_abs.clone()],
        &[probe_of(b"%PDF-1.7 minimal"), probe_of(b"not a pdf")],
    );
    assert_eq!(accepted.len(), 1);
    assert_eq!(rejected.len(), 1);
    assert_eq!(accepted[0], ok_abs);
    assert!(validate_batch_pdf_inputs(&[ok_abs], &[good]).is_ok());
}

#[test]
fn single_input_error_messages() {
    let p = "/tmp/x/file.txt";
    assert!(validate_single_pdf_input(p, &probe_of(b"%PDF")).unwrap_err().contains("pdf"));
    let missing = PdfFileProbe { metadata: Err("no such file".into()), prefix: Err("x".into()) };
    assert!(validate_single_pdf_input("/tmp/x/a.pdf", &missing).is_err());
    let dir = PdfFileProbe { metadata: Ok(FileMeta { is_file: false, len: 0 }), prefix: Ok(vec![]) };
    assert!(validate_single_pdf_input("/tmp/x/a.pdf", &dir).is_err());
    let huge = PdfFileProbe {
        metadata: Ok(FileMeta { is_file: true, len: MAX_BATCH_PDF_BYTES + 1 }),
        prefix: Ok(b"%PDF".to_vec()),
    };
    assert!(validate_single_pdf_input("/tmp/x/a.pdf", &huge).unwrap_err().contains("50 MiB"));
}

#[test]
fn staged_names_are_sanitized() {
    assert_eq!(sanitize_staged_filename("/tmp/../Informe Final.pdf", 0), "Informe Final.pdf");
    assert_eq!(sanitize_staged_filename("a<b>c", 1), "abc.pdf");
    assert_eq!(sanitize_staged_filename("", 3), "document.pdf");
    assert_eq!(sanitize_staged_filename("/", 4), "document.pdf");
    assert_eq!(sanitize_staged_filename("!!!", 7), "document_7.pdf");
    assert_eq!(sanitize_staged_filename("REPORT.PDF", 0), "REPORT.PDF");
    assert_eq!(numbered_pdf_name("doc", 2), "doc_2.pdf");
    assert_eq!(fallback_pdf_name("doc", "abc"), "doc_abc.pdf");
}

#[test]
fn upload_limits_and_order() {
    let mut up = IntentUpload::start();
    let name = up.accept_file(b"%PDF-1.4 data", "x/uno.pdf").unwrap();
    assert_eq!(name, "uno.pdf");
    assert_eq!(up.files, 1);
    assert_eq!(up.total_bytes, 13);
    assert!(up.accept_file(b"GIF89a", "img.gif").is_err());
    assert_eq!(up.files, 1);
    assert_eq!(up.accept_file(b"%P", "b.pdf").unwrap_err(), "cabecera PDF incompleta (se espera %PDF)");
    let mut full = IntentUpload { files: 20, total_bytes: 0 };
    assert_eq!(full.accept_file(b"%PDF", "c.pdf").unwrap_err(), "demasiados PDF (máx. 20)");
    let mut heavy = IntentUpload { files: 1, total_bytes: 1048576000 };
    assert_eq!(
        heavy.accept_file(b"%PDF", "d.pdf").unwrap_err(),
        "suma de tamaños de PDF supera el límite del lote"
    );
    assert!(check_intent_has_files(0).is_err());
    assert!(check_intent_has_files(2).is_ok());
}

#[test]
fn intent_output_dir_field() {
    assert_eq!(intent_output_dir_text(None), None);
    assert_eq!(intent_output_dir_text(Some("   ")), None);
    assert_eq!(intent_output_dir_text(Some(" /tmp/out ")).as_deref(), Some("/tmp/out"));
}

#[test]
fn validate_single_and_partition_with_temp_pdf() {
    let ok_path = "/tmp/nexosign-pdf-val/good.pdf".to_string();
    let bad_path = "/tmp/nexosign-pdf-val/bad.pdf".to_string();
    let good = probe_of(b"%PDF-1.7 minimal");
    let bad = probe_of(b"not a pdf");
    assert!(validate_single_pdf_input(&ok_path, &good).is_ok());
    assert!(validate_single_pdf_input(&bad_path, &bad).is_err());

    let (accepted, rejected) = partition_pdf_paths(vec![ok_path.clone(), bad_path.clone()], &[good, bad]);
    assert_eq!(accepted.len(), 1);
    assert_eq!(rejected.len(), 1);
    assert_eq!(accepted[0], ok_path);
    assert_eq!(rejected[0].path, bad_path);

    assert!(validate_batch_pdf_inputs(&[ok_path], &[probe_of(b"%PDF-1.7 minimal")]).is_ok());
}

#[test]
fn batch_validation_agrees_with_partition() {
    let paths = vec!["/tmp/a.pdf".to_string(), "/tmp/b.txt".to_string(), "/tmp/c.pdf".to_string()];
    let probes = vec![probe_of(b"%PDF-1.7\n"), probe_of(b"%PDF-1.7\n"), probe_of(b"<html>")];
    let (ok, rejected) = partition_pdf_paths(paths.clone(), &probes);
    assert_eq!(ok, vec!["/tmp/a.pdf".to_string()]);
    let err = validate_batch_pdf_inputs(&paths, &probes).unwrap_err();
    assert_eq!(err, rejected[0].reason);
    let good = vec!["/tmp/a.pdf".to_string()];
    let gp = vec![probe_of(b"%PDF-1.7\n")];
    assert!(validate_batch_pdf_inputs(&good, &gp).is_ok());
    assert!(partition_pdf_paths(good, &gp).1.is_empty());
}

#[test]
fn staged_names_keep_their_shape() {
    for (name, i) in [("../../etc/passwd", 0usize), ("???", 2), ("a\\b/c:d*.PDF", 1), ("  .pdf", 3), ("Año ñ.pdf", 4)] {
        let r = sanitize_staged_filename(name, i);
        assert!(!r.is_empty());
        assert!(r.to_lowercase().ends_with(".pdf"));
        assert!(r.chars().all(|c| c.is_alphanumeric() || "._- ".contains(c)), "{r}");
    }
    assert_eq!(sanitize_staged_filename("../../etc/passwd", 0), "passwd.pdf");
    assert_eq!(sanitize_staged_filename("???", 2), "document_2.pdf");
}

use std::cell::RefCell;

use nexosign::local_api_ops::SignatureGridPlacement;
use nexosign::sign_batch::{
    cancelled_event, file_result_event, output_path_for, process_batch, session_error_event,
    NoopProgressNotifier, PdfPadesSigner, ProgressEvent, ProgressNotifier, SignBatchInput,
    process_batch_after_session, record_file_result, session_step,
};
use tokio_util::sync::CancellationToken;

struct MockSigner {
    session_ok: bool,
    sign_results: Vec<Result<(), String>>,
    sign_calls: RefCell<usize>,
    session_calls: RefCell<usize>,
    end_calls: RefCell<usize>,
}

impl MockSigner {
    fn new(session_ok: bool, sign_results: Vec<Result<(), String>>) -> Self {
        MockSigner {
            session_ok,
            sign_results,
            sign_calls: RefCell::new(0),
            session_calls: RefCell::new(0),
            end_calls: RefCell::new(0),
        }
    }
}

impl PdfPadesSigner for MockSigner {
    fn ensure_signed_session(&self, _pin: Option<&str>, _cert_id_hex: &str) -> Result<(), String> {
        *self.session_calls.borrow_mut() += 1;
        if self.session_ok {
            Ok(())
        } else {
            Err("pin inválido".into())
        }
    }

    fn sign_pdf_pades_bes(
        &self,
        _cert_id_hex: &str,
        _input_path: &str,
        _output_path: &str,
        _placement: SignatureGridPlacement,
        _seal_png: Option<&[u8]>,
    ) -> Result<(), String> {
        let i = *self.sign_calls.borrow();
        *self.sign_calls.borrow_mut() += 1;
        self.sign_results.get(i).cloned().unwrap_or(Ok(()))
    }

    fn end_signed_session(&self) {
        *self.end_calls.borrow_mut() += 1;
    }
}

struct CollectNotifier {
    events: RefCell<Vec<ProgressEvent>>,
}

impl ProgressNotifier for CollectNotifier {
    fn notify(&self, ev: ProgressEvent) {
        self.events.borrow_mut().push(ev);
    }
}

fn input_paths(n: usize) -> Vec<String> {
    (0..n).map(|i| format!("/tmp/mock-batch-{i}.pdf")).collect()
}

fn batch(job: &str, inputs: Vec<String>, cancel: CancellationToken, pin: Option<&str>) -> SignBatchInput {
    SignBatchInput {
        job_id: job.into(),
        cert_id_hex: "ab".into(),
        inputs,
        cancel,
        output_dir: None,
        signature_grid: None,
        pin: pin.map(|p| p.to_string()),
        seal_png: None,
    }
}

#[test]
fn process_batch_session_error_emits_no_signed_outputs() {
    let signer = MockSigner::new(false, vec![]);
    let progress = CollectNotifier { events: RefCell::new(Vec::new()) };
    let out = process_batch(batch("j1", input_paths(2), CancellationToken::new(), Some("1234")), &signer, &progress, None);
    assert!(out.is_empty());
    assert_eq!(*signer.end_calls.borrow(), 1);
    let evs = progress.events.borrow();
    assert!(evs
        .iter()
        .any(|e| e.error.as_deref() == Some("Sesión de firma en el proceso de firma: pin inválido")));
}

#[test]
fn process_batch_cancel_before_first_sign() {
    let signer = MockSigner::new(true, vec![Ok(())]);
    let progress = CollectNotifier { events: RefCell::new(Vec::new()) };
    let cancel = CancellationToken::new();
    cancel.cancel();
    let out = process_batch(batch("j2", input_paths(1), cancel, None), &signer, &progress, None);
    assert!(out.is_empty());
    assert_eq!(*signer.sign_calls.borrow(), 0);
    let evs = progress.events.borrow();
    assert!(evs.iter().any(|e| e.error.as_deref() == Some("lote cancelado")));
}

#[test]
fn process_batch_sign_error_still_ends_session() {
    let signer = MockSigner::new(true, vec![Err("fallo firma".into()), Ok(())]);
    let progress = CollectNotifier { events: RefCell::new(Vec::new()) };
    let out = process_batch(batch("j3", input_paths(2), CancellationToken::new(), None), &signer, &progress, None);
    assert_eq!(out.len(), 1);
    assert_eq!(*signer.sign_calls.borrow(), 2);
    assert_eq!(*signer.end_calls.borrow(), 1);
    let evs = progress.events.borrow();
    assert!(evs.iter().any(|e| e.error.as_deref() == Some("fallo firma")));
    assert_eq!(evs.len(), 2);
    assert_eq!(evs[1].current, 2);
    assert_eq!(evs[1].total, 2);
}

#[test]
fn process_batch_success_invokes_noop_progress() {
    let signer = MockSigner::new(true, vec![Ok(()), Ok(())]);
    let out = process_batch(batch("j4", input_paths(2), CancellationToken::new(), None), &signer, &NoopProgressNotifier, None);
    assert_eq!(out.len(), 2);
    assert_eq!(out[0], "/tmp/mock-batch-0_firmado.pdf");
    assert_eq!(*signer.end_calls.borrow(), 1);
}

#[test]
fn output_paths_follow_precedence() {
    assert_eq!(output_path_for("/in/doc.pdf", None, None), "/in/doc_firmado.pdf");
    assert_eq!(output_path_for("/in/doc.pdf", Some("/out"), None), "/out/doc_firmado.pdf");
    assert_eq!(output_path_for("/in/doc.pdf", Some("/out"), Some("/env")), "/env/doc_firmado.pdf");
}

#[test]
fn progress_event_shapes() {
    let e = session_error_event("j", 0, "x");
    assert_eq!((e.current, e.total), (0, 1));
    let c = cancelled_event("j", 3, 5);
    assert_eq!((c.current, c.total), (3, 5));
    let ok = file_result_event("j", 1, 2, "a.pdf".into(), "/a.pdf".into(), "/a_firmado.pdf", &Ok(()));
    assert_eq!(ok.output_path.as_deref(), Some("/a_firmado.pdf"));
    assert!(ok.error.is_none());
    let bad = file_result_event("j", 1, 2, "a.pdf".into(), "/a.pdf".into(), "/a_firmado.pdf", &Err("e".into()));
    assert!(bad.output_path.is_none());
    assert_eq!(bad.error.as_deref(), Some("e"));
}

#[test]
fn session_and_file_steps() {
    assert!(session_step("j", 2, &Ok(())).is_none());
    let ev = session_step("j", 2, &Err("pin inválido".to_string())).unwrap();
    assert_eq!(ev.error.as_deref(), Some("Sesión de firma en el proceso de firma: pin inválido"));
    assert_eq!((ev.current, ev.total), (0, 2));
    let mut outs = vec!["/o/a_firmado.pdf".to_string()];
    record_file_result(&mut outs, "/o/b_firmado.pdf".to_string(), &Err("fallo firma".to_string()));
    assert_eq!(outs, vec!["/o/a_firmado.pdf".to_string()]);
    record_file_result(&mut outs, "/o/c_firmado.pdf".to_string(), &Ok(()));
    assert_eq!(outs, vec!["/o/a_firmado.pdf".to_string(), "/o/c_firmado.pdf".to_string()]);
}

#[test]
fn batch_after_failed_session_signs_nothing() {
    let signer = MockSigner::new(true, vec![]);
    let progress = CollectNotifier { events: RefCell::new(Vec::new()) };
    let session = Err("lector ausente".to_string());
    let out = process_batch_after_session(
        batch("j2", input_paths(3), CancellationToken::new(), None),
        &session,
        &signer,
        &progress,
        None,
    );
    assert!(out.is_empty());
    assert_eq!(*signer.sign_calls.borrow(), 0);
    assert_eq!(*signer.end_calls.borrow(), 1);
    {
        let evs = progress.events.borrow();
        assert_eq!(evs.len(), 1);
        assert_eq!(evs[0].total, 3);
    }
    let ok = process_batch_after_session(
        batch("j3", input_paths(2), CancellationToken::new(), None),
        &Ok(()),
        &MockSigner::new(true, vec![Err("fallo firma".into()), Ok(())]),
        &progress,
        None,
    );
    assert_eq!(ok, vec!["/tmp/mock-batch-1_firmado.pdf".to_string()]);
}

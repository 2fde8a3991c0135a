//! Signing a batch of PDFs (PAdES-BES): the order of the work, the progress
//! reported for each file and where each signed file is written. The
//! signing itself is done by a [`PdfPadesSigner`] that the app provides.

use vstd::prelude::*;
use crate::local_api_ops::{str_view, SignatureGridPlacement};
use crate::paths;
use crate::text;

verus! {

/// Signs PDFs in the PAdES-BES profile with a given certificate.
pub trait PdfPadesSigner {
    /// When `pin` holds non-blank text, logs in for the certificate.
    fn ensure_signed_session(&self, pin: Option<&str>, cert_id_hex: &str) -> Result<(), String>;

    fn sign_pdf_pades_bes(
        &self,
        cert_id_hex: &str,
        input_path: &str,
        output_path: &str,
        placement: SignatureGridPlacement,
        seal_png: Option<&[u8]>,
    ) -> Result<(), String>;

    fn end_signed_session(&self);
}

/// Progress of a batch: one event per file, or one for a failure of the whole batch.
#[derive(Clone, Debug)]
pub struct ProgressEvent {
    pub job_id: String,
    pub current: u32,
    pub total: u32,
    pub file_name: String,
    pub path: String,
    pub output_path: Option<String>,
    pub error: Option<String>,
}

/// Receives the progress of a batch.
pub trait ProgressNotifier {
    fn notify(&self, ev: ProgressEvent);
}

/// A notifier that drops every event.
#[derive(Clone, Copy, Debug)]
pub struct NoopProgressNotifier;

impl ProgressNotifier for NoopProgressNotifier {
    fn notify(&self, ev: ProgressEvent) {
    }
}

/// `tokio_util::sync::CancellationToken`, carried through the batch.
#[verifier::external_type_specification]
#[verifier::external_body]
pub struct ExCancellationToken(tokio_util::sync::CancellationToken);

/// `CancellationToken::is_cancelled`: whether another task has cancelled the
/// batch by now. Nothing is promised of the answer: it depends on that task.
#[verifier::external_body]
fn is_cancelled(token: &tokio_util::sync::CancellationToken) -> (r: bool) {
    token.is_cancelled()
}

/// One batch to sign.
#[derive(Debug)]
pub struct SignBatchInput {
    pub job_id: String,
    pub cert_id_hex: String,
    pub inputs: Vec<String>,
    pub cancel: tokio_util::sync::CancellationToken,
    /// When set, signed files go here as `{stem}_firmado.pdf`.
    pub output_dir: Option<String>,
    /// Grid cell on the first page (`None`: the default cell).
    pub signature_grid: Option<SignatureGridPlacement>,
    /// The PIN, repeated by the worker for its own login.
    pub pin: Option<String>,
    /// The seal image.
    pub seal_png: Option<Vec<u8>>,
}

/// `{stem}_firmado.pdf`, with the stem of the input's file name (empty if it has none).
pub open spec fn output_name(input: Seq<char>) -> Seq<char> {
    let stem = match paths::file_stem_of(input) {
        Some(s) => s,
        None => ""@,
    };
    stem + "_firmado.pdf"@
}

/// Where the signed copy of `input` is written: in the directory named by
/// `NEXOSIGN_BATCH_OUTPUT_DIR` if set, else in the batch's output directory,
/// else beside the input.
pub open spec fn output_path_of(input: Seq<char>, output_dir: Option<Seq<char>>, env_dir: Option<Seq<char>>) -> Seq<
    char,
> {
    match env_dir {
        Some(d) => paths::joined_path(d, output_name(input)),
        None => match output_dir {
            Some(d) => paths::joined_path(d, output_name(input)),
            None => paths::with_file_name_of(input, output_name(input)),
        },
    }
}

pub open spec fn opt_str_view(o: Option<&str>) -> Option<Seq<char>> {
    match o {
        Some(s) => Some(s@),
        None => None,
    }
}

/// The path the signed copy of `input` is written to. `env_output_dir` is
/// the value of `NEXOSIGN_BATCH_OUTPUT_DIR`, if set.
pub fn output_path_for(input: &str, output_dir: Option<&str>, env_output_dir: Option<&str>) -> (r: String)
    ensures
        r@ == output_path_of(input@, opt_str_view(output_dir), opt_str_view(env_output_dir)),
{
    let mut name = match paths::path_file_stem(input) {
        Some(s) => text::chars_of(s.as_str()),
        None => text::chars_of(""),
    };
    text::append_chars(&mut name, &text::chars_of("_firmado.pdf"));
    let out_name = text::string_of(&name);
    match env_output_dir {
        Some(d) => paths::path_join(d, out_name.as_str()),
        None => match output_dir {
            Some(d) => paths::path_join(d, out_name.as_str()),
            None => paths::path_with_file_name(input, out_name.as_str()),
        },
    }
}

pub open spec fn session_error_text(e: Seq<char>) -> Seq<char> {
    "Sesión de firma en el proceso de firma: "@ + e
}

/// The event when the signing session cannot be opened.
pub fn session_error_event(job_id: &str, total: u32, e: &str) -> (r: ProgressEvent)
    ensures
        r.job_id@ == job_id@,
        r.current == 0,
        r.total == if total == 0 { 1 } else { total },
        r.file_name@ == Seq::<char>::empty(),
        r.path@ == Seq::<char>::empty(),
        r.output_path is None,
        r.error matches Some(m) && m@ == session_error_text(e@),
{
    let mut v = text::chars_of("Sesión de firma en el proceso de firma: ");
    text::append_chars(&mut v, &text::chars_of(e));
    ProgressEvent {
        job_id: text::string_of(&text::chars_of(job_id)),
        current: 0,
        total: if total == 0 { 1 } else { total },
        file_name: String::new(),
        path: String::new(),
        output_path: None,
        error: Some(text::string_of(&v)),
    }
}

/// The event when the batch is cancelled before file `index` (0-based).
pub fn cancelled_event(job_id: &str, index: usize, total: u32) -> (r: ProgressEvent)
    ensures
        r.job_id@ == job_id@,
        r.current == if index <= u32::MAX { index as u32 } else { 0 },
        r.total == total,
        r.file_name@ == Seq::<char>::empty(),
        r.path@ == Seq::<char>::empty(),
        r.output_path is None,
        r.error matches Some(m) && m@ == "lote cancelado"@,
{
    ProgressEvent {
        job_id: text::string_of(&text::chars_of(job_id)),
        current: if index <= 4294967295 { index as u32 } else { 0 },
        total,
        file_name: String::new(),
        path: String::new(),
        output_path: None,
        error: Some(String::from_str("lote cancelado")),
    }
}

/// The event after one file: its output path on success, the signer's error otherwise.
pub fn file_result_event(
    job_id: &str,
    current: u32,
    total: u32,
    file_name: String,
    path: String,
    output_path: &str,
    res: &Result<(), String>,
) -> (r: ProgressEvent)
    ensures
        r.job_id@ == job_id@,
        r.current == current,
        r.total == total,
        r.file_name == file_name,
        r.path == path,
        match res {
            Ok(()) => r.error is None && (r.output_path matches Some(o) && o@ == output_path@),
            Err(e) => r.output_path is None && (r.error matches Some(m) && m@ == e@),
        },
{
    let job = text::string_of(&text::chars_of(job_id));
    match res {
        Ok(()) => ProgressEvent {
            job_id: job,
            current,
            total,
            file_name,
            path,
            output_path: Some(text::string_of(&text::chars_of(output_path))),
            error: None,
        },
        Err(e) => ProgressEvent {
            job_id: job,
            current,
            total,
            file_name,
            path,
            output_path: None,
            error: Some(e.clone()),
        },
    }
}

/// The event that reports a failed signing session, as `session_error_event` makes it.
pub open spec fn is_session_error_event(ev: ProgressEvent, job_id: Seq<char>, total: u32, e: Seq<char>) -> bool {
    &&& ev.job_id@ == job_id
    &&& ev.current == 0
    &&& ev.total == if total == 0 { 1 } else { total }
    &&& ev.file_name@ == Seq::<char>::empty()
    &&& ev.path@ == Seq::<char>::empty()
    &&& ev.output_path is None
    &&& ev.error matches Some(m) && m@ == session_error_text(e)
}

/// What the outcome of opening the signing session decides: `None` to go on
/// with the files; otherwise the event that reports the failure, after which
/// no file is signed and the batch has no outputs.
pub fn session_step(job_id: &str, total: u32, session: &Result<(), String>) -> (r: Option<ProgressEvent>)
    ensures
        match session {
            Ok(()) => r is None,
            Err(e) => r matches Some(ev) && is_session_error_event(ev, job_id@, total, e@),
        },
{
    match session {
        Ok(()) => None,
        Err(e) => Some(session_error_event(job_id, total, e.as_str())),
    }
}

/// Records the outcome of signing one file: its output path is kept exactly
/// when the signer succeeded.
pub fn record_file_result(outputs: &mut Vec<String>, out_path: String, res: &Result<(), String>)
    ensures
        final(outputs)@ == if res is Ok {
            old(outputs)@.push(out_path)
        } else {
            old(outputs)@
        },
{
    if res.is_ok() {
        outputs.push(out_path);
    }
}

fn opt_str(o: &Option<String>) -> (r: Option<&str>)
    ensures
        opt_str_view(r) == str_view(*o),
{
    match o {
        Some(s) => Some(s.as_str()),
        None => None,
    }
}

/// `idx` names, for each output, the input it was written for: one of the
/// first `upto` inputs, strictly increasing (each input at most once, in
/// the inputs' order), and the output is that input's output path.
pub open spec fn outputs_follow(
    outs: Seq<String>,
    inputs: Seq<String>,
    idx: Seq<int>,
    upto: int,
    output_dir: Option<Seq<char>>,
    env_dir: Option<Seq<char>>,
) -> bool {
    &&& idx.len() == outs.len()
    &&& forall|k: int|
        0 <= k < idx.len() ==> 0 <= #[trigger] idx[k] < upto && idx[k] < inputs.len() && outs[k]@
            == output_path_of(inputs[idx[k]]@, output_dir, env_dir)
    &&& forall|a: int, b: int| 0 <= a < b < idx.len() ==> #[trigger] idx[a] < #[trigger] idx[b]
}

/// The outputs are the output paths of some of the first `upto` inputs,
/// in the inputs' order, each input at most once.
pub open spec fn outputs_in_input_order(
    outs: Seq<String>,
    inputs: Seq<String>,
    upto: int,
    output_dir: Option<Seq<char>>,
    env_dir: Option<Seq<char>>,
) -> bool {
    exists|idx: Seq<int>| #[trigger] outputs_follow(outs, inputs, idx, upto, output_dir, env_dir)
}

/// The output paths of the first `ok.len()` inputs whose signing succeeded
/// (`ok[k]`), in input order.
pub open spec fn successful_outputs(
    inputs: Seq<String>,
    ok: Seq<bool>,
    output_dir: Option<Seq<char>>,
    env_dir: Option<Seq<char>>,
) -> Seq<Seq<char>>
    decreases ok.len(),
{
    if ok.len() == 0 {
        seq![]
    } else {
        let prev = successful_outputs(inputs, ok.drop_last(), output_dir, env_dir);
        if ok.last() {
            prev.push(output_path_of(inputs[ok.len() - 1]@, output_dir, env_dir))
        } else {
            prev
        }
    }
}

pub open spec fn string_views(v: Seq<String>) -> Seq<Seq<char>> {
    v.map_values(|s: String| s@)
}

/// Signs every input in order and returns the paths of the files signed
/// successfully, in order. The session is opened first (a failure is
/// reported and nothing is signed) and closed at the end; a cancellation
/// stops before the next file. `env_output_dir` is the value of
/// `NEXOSIGN_BATCH_OUTPUT_DIR`, if set.
pub fn process_batch<S: PdfPadesSigner, P: ProgressNotifier>(
    input: SignBatchInput,
    signer: &S,
    progress: &P,
    env_output_dir: Option<&str>,
) -> (r: Vec<String>)
    ensures
        r@.len() <= input.inputs@.len(),
        exists|ok: Seq<bool>|
            ok.len() <= input.inputs@.len() && string_views(r@) == #[trigger] successful_outputs(
                input.inputs@,
                ok,
                str_view(input.output_dir),
                opt_str_view(env_output_dir),
            ),
        outputs_in_input_order(
            r@,
            input.inputs@,
            input.inputs@.len() as int,
            str_view(input.output_dir),
            opt_str_view(env_output_dir),
        ),
{
    let session = signer.ensure_signed_session(opt_str(&input.pin), input.cert_id_hex.as_str());
    process_batch_after_session(input, &session, signer, progress, env_output_dir)
}

/// The batch once the signing session was asked for, given its outcome: a
/// failed session is reported, the session closed, and nothing is signed
/// (no outputs); otherwise every input is signed in order, and the outputs
/// are those of the files signed successfully, in order.
pub fn process_batch_after_session<S: PdfPadesSigner, P: ProgressNotifier>(
    input: SignBatchInput,
    session: &Result<(), String>,
    signer: &S,
    progress: &P,
    env_output_dir: Option<&str>,
) -> (r: Vec<String>)
    ensures
        session is Err ==> r@.len() == 0,
        r@.len() <= input.inputs@.len(),
        exists|ok: Seq<bool>|
            ok.len() <= input.inputs@.len() && string_views(r@) == #[trigger] successful_outputs(
                input.inputs@,
                ok,
                str_view(input.output_dir),
                opt_str_view(env_output_dir),
            ),
        outputs_in_input_order(
            r@,
            input.inputs@,
            input.inputs@.len() as int,
            str_view(input.output_dir),
            opt_str_view(env_output_dir),
        ),
{
    let mut signed_outputs: Vec<String> = Vec::new();
    let n = input.inputs.len();
    let total: u32 = if n <= 4294967295 { n as u32 } else { 4294967295 };
    let seal: Option<&[u8]> = match &input.seal_png {
        Some(v) => Some(v.as_slice()),
        None => None,
    };
    if let Some(ev) = session_step(input.job_id.as_str(), total, session) {
        progress.notify(ev);
        signer.end_signed_session();
        proof {
            assert(outputs_follow(
                signed_outputs@,
                input.inputs@,
                Seq::<int>::empty(),
                n as int,
                str_view(input.output_dir),
                opt_str_view(env_output_dir),
            ));
            assert(string_views(signed_outputs@) =~= successful_outputs(
                input.inputs@,
                Seq::<bool>::empty(),
                str_view(input.output_dir),
                opt_str_view(env_output_dir),
            ));
        }
        return signed_outputs;
    }
    let placement = match input.signature_grid {
        Some(g) => g,
        None => SignatureGridPlacement::default_placement(),
    };
    let mut idx: usize = 0;
    let ghost mut picked: Seq<int> = Seq::empty();
    let ghost mut oks: Seq<bool> = Seq::empty();
    proof {
        assert(string_views(signed_outputs@) =~= successful_outputs(
            input.inputs@,
            oks,
            str_view(input.output_dir),
            opt_str_view(env_output_dir),
        ));
    }
    while idx < n
        invariant
            n == input.inputs@.len(),
            idx <= n,
            signed_outputs@.len() <= idx,
            oks.len() == idx,
            string_views(signed_outputs@) == successful_outputs(
                input.inputs@,
                oks,
                str_view(input.output_dir),
                opt_str_view(env_output_dir),
            ),
            outputs_follow(
                signed_outputs@,
                input.inputs@,
                picked,
                idx as int,
                str_view(input.output_dir),
                opt_str_view(env_output_dir),
            ),
        ensures
            idx <= n,
            signed_outputs@.len() <= idx,
            oks.len() == idx,
            string_views(signed_outputs@) == successful_outputs(
                input.inputs@,
                oks,
                str_view(input.output_dir),
                opt_str_view(env_output_dir),
            ),
            outputs_follow(
                signed_outputs@,
                input.inputs@,
                picked,
                idx as int,
                str_view(input.output_dir),
                opt_str_view(env_output_dir),
            ),
        decreases n - idx,
    {
        if is_cancelled(&input.cancel) {
            progress.notify(cancelled_event(input.job_id.as_str(), idx, total));
            break;
        }
        let current: u32 = if idx < 4294967295 { (idx + 1) as u32 } else { 4294967295 };
        let path = input.inputs[idx].as_str();
        let file_name = match paths::path_file_name(path) {
            Some(f) => f,
            None => String::new(),
        };
        let path_str = text::string_of(&text::chars_of(path));
        let out_path = output_path_for(path, opt_str(&input.output_dir), env_output_dir);
        let res = signer.sign_pdf_pades_bes(input.cert_id_hex.as_str(), path, out_path.as_str(), placement, seal);
        let ev = file_result_event(input.job_id.as_str(), current, total, file_name, path_str, out_path.as_str(), &res);
        let ghost kept = res is Ok;
        let ghost before = signed_outputs@;
        let ghost out_view = out_path@;
        record_file_result(&mut signed_outputs, out_path, &res);
        proof {
            let ok2 = oks.push(kept);
            assert(ok2.drop_last() =~= oks);
            assert(ok2.last() == kept);
            if kept {
                picked = picked.push(idx as int);
                assert(string_views(signed_outputs@) =~= string_views(before).push(out_view));
            } else {
                assert(string_views(signed_outputs@) =~= string_views(before));
            }
            oks = ok2;
        }
        progress.notify(ev);
        idx += 1;
    }
    proof {
        assert(outputs_follow(
            signed_outputs@,
            input.inputs@,
            picked,
            n as int,
            str_view(input.output_dir),
            opt_str_view(env_output_dir),
        ));
    }
    signer.end_signed_session();
    signed_outputs
}

} // verus!

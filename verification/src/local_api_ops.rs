//! The checks shared by the HTTP API and the app's own commands before a
//! batch signing job is queued.

use vstd::prelude::*;
use crate::paths;
use crate::pdf_validation::{self, PdfFileProbe};
use crate::text;

verus! {

pub const STATUS_BAD_REQUEST: u16 = 400;

pub const STATUS_NOT_FOUND: u16 = 404;

pub const STATUS_INTERNAL_SERVER_ERROR: u16 = 500;

pub const STATUS_SERVICE_UNAVAILABLE: u16 = 503;

/// Largest decoded seal image accepted (bytes).
pub const MAX_SEAL_PNG_BYTES: usize = 1500000;

/// An error of a local operation, with the HTTP status it maps to.
#[derive(Debug)]
pub struct LocalApiOpError {
    pub status: u16,
    pub code: String,
    pub detail: String,
}

impl LocalApiOpError {
    pub fn bad_request(detail: String) -> (r: Self)
        ensures
            r.status == STATUS_BAD_REQUEST,
            r.code@ == "bad_request"@,
            r.detail == detail,
    {
        LocalApiOpError { status: STATUS_BAD_REQUEST, code: String::from_str("bad_request"), detail }
    }

    pub fn not_found(code: String, detail: String) -> (r: Self)
        ensures
            r.status == STATUS_NOT_FOUND,
            r.code == code,
            r.detail == detail,
    {
        LocalApiOpError { status: STATUS_NOT_FOUND, code, detail }
    }

    pub fn service_unavailable(detail: String) -> (r: Self)
        ensures
            r.status == STATUS_SERVICE_UNAVAILABLE,
            r.code@ == "service_unavailable"@,
            r.detail == detail,
    {
        LocalApiOpError {
            status: STATUS_SERVICE_UNAVAILABLE,
            code: String::from_str("service_unavailable"),
            detail,
        }
    }

    pub fn internal(code: String, detail: String) -> (r: Self)
        ensures
            r.status == STATUS_INTERNAL_SERVER_ERROR,
            r.code == code,
            r.detail == detail,
    {
        LocalApiOpError { status: STATUS_INTERNAL_SERVER_ERROR, code, detail }
    }
}

/// The error as the app's commands return it (no HTTP status).
#[derive(Debug)]
pub struct LocalApiInvokeError {
    pub code: String,
    pub detail: String,
}

impl LocalApiInvokeError {
    pub fn from(e: LocalApiOpError) -> (r: Self)
        ensures
            r.code == e.code,
            r.detail == e.detail,
    {
        LocalApiInvokeError { code: e.code, detail: e.detail }
    }
}

/// `GET /health` body.
#[derive(Debug)]
pub struct HealthResponse {
    pub status: &'static str,
    pub service: &'static str,
    pub version: &'static str,
}

/// `POST /ping` body.
#[derive(Debug)]
pub struct PingResponse {
    pub ok: bool,
}

/// The health answer: `ok`, the service name and the given build version.
pub fn health_payload(version: &'static str) -> (r: HealthResponse)
    ensures
        r.status@ == "ok"@,
        r.service@ == "nexosign"@,
        r.version == version,
{
    HealthResponse { status: "ok", service: "nexosign", version }
}

pub fn ping_payload() -> (r: PingResponse)
    ensures
        r.ok,
{
    PingResponse { ok: true }
}

/// Cell of the signature on the first page, in a 3 × 5 grid.
#[derive(Debug, Clone, Copy)]
pub struct SignatureGridDto {
    pub col: u8,
    pub row: u8,
}

/// Body of `POST /api/v1/batch/sign/intent` (JSON variant).
#[derive(Debug)]
pub struct BatchSignIntentBody {
    pub inputs: Vec<String>,
    pub output_dir: Option<String>,
}

/// Answer to a stored intent: its id and the link that opens it in the app.
#[derive(Debug)]
pub struct BatchSignIntentResponse {
    pub request_id: String,
    pub deep_link: String,
}

/// `nexosign://sign?intent={request_id}`.
pub open spec fn deep_link_text(request_id: Seq<char>) -> Seq<char> {
    "nexosign://sign?intent="@ + request_id
}

/// The answer for an intent stored under `request_id`.
pub fn intent_response(request_id: String) -> (r: BatchSignIntentResponse)
    ensures
        r.request_id == request_id,
        r.deep_link@ == deep_link_text(request_id@),
{
    let mut v = text::chars_of("nexosign://sign?intent=");
    text::append_chars(&mut v, &text::chars_of(request_id.as_str()));
    BatchSignIntentResponse { request_id, deep_link: text::string_of(&v) }
}

/// Body of `POST /api/v1/batch/sign`.
#[derive(Debug)]
pub struct BatchSignBody {
    pub cert_id_hex: String,
    pub inputs: Vec<String>,
    pub job_id: Option<String>,
    /// Loopback only; the app unlocks the token before queueing.
    pub pin: Option<String>,
    /// Absolute directory for `{stem}_firmado.pdf` of each input.
    pub output_dir: Option<String>,
    /// Cell of the signature on the first page (col 0–2, row 0–4).
    pub signature_grid: Option<SignatureGridDto>,
    /// Consumed when the signature comes from an intent.
    pub intent_request_id: Option<String>,
    /// PNG of the seal, standard base64.
    pub signature_seal_png_base64: Option<String>,
}

/// Answer when a job was queued.
#[derive(Debug)]
pub struct BatchSignResponse {
    pub job_id: String,
    pub queued: bool,
}

/// Where the signature goes on the first page: `col` 0..=2 across, `row` 0..=4 down.
#[derive(Debug, Clone, Copy, PartialEq, Eq, Structural)]
pub struct SignatureGridPlacement {
    pub col: u8,
    pub row: u8,
}

impl SignatureGridPlacement {
    /// The default cell: middle column, bottom row.
    pub fn default_placement() -> (r: Self)
        ensures
            r.col == 1,
            r.row == 4,
    {
        SignatureGridPlacement { col: 1, row: 4 }
    }

    /// The placement clamped into the grid.
    pub fn normalized(self) -> (r: Self)
        ensures
            r.col == if self.col <= 2 { self.col } else { 2 },
            r.row == if self.row <= 4 { self.row } else { 4 },
    {
        SignatureGridPlacement {
            col: if self.col <= 2 { self.col } else { 2 },
            row: if self.row <= 4 { self.row } else { 4 },
        }
    }
}

pub open spec fn str_view(o: Option<String>) -> Option<Seq<char>> {
    match o {
        Some(s) => Some(s@),
        None => None,
    }
}

pub open spec fn output_dir_error(p: Seq<char>) -> Seq<char> {
    "output_dir debe ser ruta absoluta (recibido: "@ + p + ")"@
}

/// An optional output directory must be absolute.
pub open spec fn output_dir_check(p: Option<Seq<char>>) -> Result<(), Seq<char>> {
    match p {
        None => Ok(()),
        Some(d) => if paths::is_absolute_path(d) {
            Ok(())
        } else {
            Err(output_dir_error(d))
        },
    }
}

/// Checks that an optional output directory is absolute (the directory is
/// then created by the caller).
pub fn check_output_dir_absolute(p: Option<&str>) -> (r: Result<(), String>)
    ensures
        pdf_validation::result_text(r) == output_dir_check(
            match p {
                Some(s) => Some(s@),
                None => None,
            },
        ),
{
    match p {
        None => Ok(()),
        Some(d) => {
            if paths::path_is_absolute(d) {
                Ok(())
            } else {
                let mut v = text::chars_of("output_dir debe ser ruta absoluta (recibido: ");
                text::append_chars(&mut v, &text::chars_of(d));
                text::append_chars(&mut v, &text::chars_of(")"));
                Err(text::string_of(&v))
            }
        },
    }
}

/// The first checks on a signing request, in order: a queue exists, a
/// certificate is named, every input passes the PDF checks, the output
/// directory is absolute. `probes[i]` is what the file system reported for
/// `inputs[i]`.
pub open spec fn request_check(queue_configured: bool, body: BatchSignBody, probes: Seq<PdfFileProbe>) -> Result<
    (),
    (u16, Seq<char>),
> {
    if !queue_configured {
        Err((STATUS_SERVICE_UNAVAILABLE, "cola batch no configurada"@))
    } else if text::trim(body.cert_id_hex@).len() == 0 {
        Err((STATUS_BAD_REQUEST, "cert_id_hex requerido"@))
    } else if pdf_validation::batch_check(
        pdf_validation::checks(body.inputs@.map_values(|s: String| s@), probes),
    ) is Err {
        Err(
            (
                STATUS_BAD_REQUEST,
                pdf_validation::batch_check(
                    pdf_validation::checks(body.inputs@.map_values(|s: String| s@), probes),
                )->Err_0,
            ),
        )
    } else if output_dir_check(str_view(body.output_dir)) is Err {
        Err((STATUS_BAD_REQUEST, output_dir_check(str_view(body.output_dir))->Err_0))
    } else {
        Ok(())
    }
}

pub open spec fn op_error_matches(e: LocalApiOpError, status: u16, detail: Seq<char>) -> bool {
    &&& e.status == status
    &&& e.detail@ == detail
    &&& if status == STATUS_BAD_REQUEST {
        e.code@ == "bad_request"@
    } else {
        e.code@ == "service_unavailable"@
    }
}

fn opt_as_str(o: &Option<String>) -> (r: Option<&str>)
    ensures
        match r {
            Some(s) => str_view(*o) == Some(s@),
            None => o is None,
        },
{
    match o {
        Some(s) => Some(s.as_str()),
        None => None,
    }
}

/// The checks of a signing request before its output directory is created.
pub fn check_batch_sign_request(queue_configured: bool, body: &BatchSignBody, probes: &[PdfFileProbe]) -> (r:
    Result<(), LocalApiOpError>)
    requires
        probes@.len() == body.inputs@.len(),
    ensures
        match r {
            Ok(()) => request_check(queue_configured, *body, probes@) is Ok,
            Err(e) => request_check(queue_configured, *body, probes@) matches Err((status, detail))
                && op_error_matches(e, status, detail),
        },
{
    if !queue_configured {
        return Err(LocalApiOpError::service_unavailable(String::from_str("cola batch no configurada")));
    }
    let cert = text::trim_chars(&text::chars_of(body.cert_id_hex.as_str()));
    if cert.len() == 0 {
        return Err(LocalApiOpError::bad_request(String::from_str("cert_id_hex requerido")));
    }
    match pdf_validation::validate_batch_pdf_inputs(body.inputs.as_slice(), probes) {
        Ok(()) => {},
        Err(msg) => {
            return Err(LocalApiOpError::bad_request(msg));
        },
    }
    match check_output_dir_absolute(opt_as_str(&body.output_dir)) {
        Ok(()) => {},
        Err(msg) => {
            return Err(LocalApiOpError::bad_request(msg));
        },
    }
    Ok(())
}

/// What the worker receives besides the inputs.
#[derive(Debug)]
pub struct EnqueueOptions {
    pub signature_grid: Option<SignatureGridPlacement>,
    /// The trimmed PIN, if one was given.
    pub pin: Option<String>,
    /// The decoded seal image, if one was given.
    pub seal_png: Option<Vec<u8>>,
}

pub open spec fn grid_error() -> Seq<char> {
    "signature_grid: col debe ser 0–2 y row 0–4 (rejilla 3×5)"@
}

/// What the standard base64 decoder gives for `s` (`None` when it refuses it).
pub uninterp spec fn base64_decoded(s: Seq<char>) -> Option<Seq<u8>>;

/// The seal image: absent or blank gives none; otherwise standard base64 of at most 1.5 MB.
pub open spec fn seal_check(raw: Option<Seq<char>>) -> Result<Option<Seq<u8>>, Seq<char>> {
    match raw {
        None => Ok(None),
        Some(s) => {
            let t = text::trim(s);
            if t.len() == 0 {
                Ok(None)
            } else {
                match base64_decoded(t) {
                    Some(raw) => if raw.len() <= MAX_SEAL_PNG_BYTES {
                        Ok(Some(raw))
                    } else {
                        Err("signature_seal_png_base64 supera 1,5 MiB"@)
                    },
                    None => Err("signature_seal_png_base64 no es base64 válido"@),
                }
            }
        },
    }
}

/// The options of a request: grid in range, PIN not blank, seal decodable.
pub open spec fn options_check(body: BatchSignBody) -> Result<(), Seq<char>> {
    if body.signature_grid matches Some(g) && (g.col > 2 || g.row > 4) {
        Err(grid_error())
    } else if body.pin matches Some(p) && text::trim(p@).len() == 0 {
        Err("PIN vacío"@)
    } else if seal_check(str_view(body.signature_seal_png_base64)) is Err {
        Err(seal_check(str_view(body.signature_seal_png_base64))->Err_0)
    } else {
        Ok(())
    }
}

/// `STANDARD.decode` of the `base64` crate.
#[verifier::external_body]
fn decode_base64_standard(s: &str) -> (r: Option<Vec<u8>>)
    ensures
        match r {
            Some(v) => base64_decoded(s@) == Some(v@),
            None => base64_decoded(s@) is None,
        },
{
    <base64::engine::GeneralPurpose as base64::Engine>::decode(&base64::engine::general_purpose::STANDARD, s).ok()
}

/// Decodes the optional seal image of a request.
pub fn decode_seal_png(raw: Option<&str>) -> (r: Result<Option<Vec<u8>>, String>)
    ensures
        match r {
            Ok(Some(v)) => seal_check(
                match raw {
                    Some(s) => Some(s@),
                    None => None,
                },
            ) == Ok::<Option<Seq<u8>>, Seq<char>>(Some(v@)),
            Ok(None) => seal_check(
                match raw {
                    Some(s) => Some(s@),
                    None => None,
                },
            ) == Ok::<Option<Seq<u8>>, Seq<char>>(None),
            Err(e) => seal_check(
                match raw {
                    Some(s) => Some(s@),
                    None => None,
                },
            ) == Err::<Option<Seq<u8>>, Seq<char>>(e@),
        },
{
    match raw {
        None => Ok(None),
        Some(s) => {
            let t = text::string_of(&text::trim_chars(&text::chars_of(s)));
            if t.as_str().is_empty() {
                return Ok(None);
            }
            match decode_base64_standard(t.as_str()) {
                Some(v) => {
                    if v.len() <= MAX_SEAL_PNG_BYTES {
                        Ok(Some(v))
                    } else {
                        Err(String::from_str("signature_seal_png_base64 supera 1,5 MiB"))
                    }
                },
                None => Err(String::from_str("signature_seal_png_base64 no es base64 válido")),
            }
        },
    }
}

/// The options of a request once its output directory exists: the grid
/// cell, the trimmed PIN and the decoded seal; refused as 400 when one is invalid.
pub fn prepare_batch_sign_options(body: &BatchSignBody) -> (r: Result<EnqueueOptions, LocalApiOpError>)
    ensures
        match r {
            Ok(o) => {
                &&& options_check(*body) is Ok
                &&& match body.signature_grid {
                    Some(g) => o.signature_grid == Some(SignatureGridPlacement { col: g.col, row: g.row }),
                    None => o.signature_grid is None,
                }
                &&& match body.pin {
                    Some(p) => o.pin matches Some(q) && q@ == text::trim(p@),
                    None => o.pin is None,
                }
                &&& match seal_check(str_view(body.signature_seal_png_base64)) {
                    Ok(Some(v)) => o.seal_png matches Some(w) && w@ == v,
                    _ => o.seal_png is None,
                }
            },
            Err(e) => options_check(*body) matches Err(d) && e.status == STATUS_BAD_REQUEST && e.detail@
                == d && e.code@ == "bad_request"@,
        },
{
    let signature_grid = match body.signature_grid {
        Some(g) => {
            if g.col > 2 || g.row > 4 {
                return Err(
                    LocalApiOpError::bad_request(
                        String::from_str("signature_grid: col debe ser 0–2 y row 0–4 (rejilla 3×5)"),
                    ),
                );
            }
            Some(SignatureGridPlacement { col: g.col, row: g.row })
        },
        None => None,
    };
    let pin = match &body.pin {
        Some(p) => {
            let t = text::trim_chars(&text::chars_of(p.as_str()));
            if t.len() == 0 {
                return Err(LocalApiOpError::bad_request(String::from_str("PIN vacío")));
            }
            Some(text::string_of(&t))
        },
        None => None,
    };
    let seal_png = match decode_seal_png(opt_as_str(&body.signature_seal_png_base64)) {
        Ok(v) => v,
        Err(msg) => {
            return Err(LocalApiOpError::bad_request(msg));
        },
    };
    Ok(EnqueueOptions { signature_grid, pin, seal_png })
}

/// `Uuid::new_v4().to_string()`: a fresh random id in the hyphenated form,
/// 36 characters long (`Hyphenated::LENGTH`). Nothing else is promised of it.
#[verifier::external_body]
pub(crate) fn new_request_id() -> (r: String)
    ensures
        r@.len() == 36,
{
    uuid::Uuid::new_v4().to_string()
}

/// The job id of a request: the one it gives, else a fresh one.
pub fn job_id_for(requested: Option<String>) -> (r: String)
    ensures
        requested matches Some(j) ==> r == j,
        requested is None ==> r@.len() == 36,
{
    match requested {
        Some(j) => j,
        None => new_request_id(),
    }
}

/// How the queue refused a job.
pub enum QueueSendFailure {
    Full,
    Closed,
}

/// The error for a refused job: 503 with "full, retry" or "closed".
pub fn queue_send_error(f: QueueSendFailure) -> (r: LocalApiOpError)
    ensures
        r.status == STATUS_SERVICE_UNAVAILABLE,
        r.code@ == "service_unavailable"@,
        r.detail@ == match f {
            QueueSendFailure::Full => "cola batch llena, reintente"@,
            QueueSendFailure::Closed => "cola batch cerrada"@,
        },
{
    match f {
        QueueSendFailure::Full => LocalApiOpError::service_unavailable(String::from_str("cola batch llena, reintente")),
        QueueSendFailure::Closed => LocalApiOpError::service_unavailable(String::from_str("cola batch cerrada")),
    }
}

/// What the shared state records once a job has been handed to the queue.
#[derive(Debug)]
pub struct EnqueueRecord {
    /// The intent the job consumes: dropped from the pending intents and
    /// their stored rows, and mapped to the job.
    pub consumed_intent: Option<String>,
    /// The job's first snapshot.
    pub snapshot: crate::batch_job_snapshot::BatchJobSnapshot,
    /// The enqueue time to store for the job, when the clock could be read.
    pub store_enqueue_at: Option<i64>,
    /// The answer to the caller.
    pub response: BatchSignResponse,
}

/// The outcome of handing a job to the queue (`refused` is `None` when the
/// queue took it). A queued job gets its record; a refused one gets the
/// 503 error, and its cancel token is forgotten.
pub fn after_queue_send(
    refused: Option<QueueSendFailure>,
    job_id: String,
    intent_request_id: Option<String>,
    input_count: usize,
    queued_at_unix: Option<i64>,
) -> (r: Result<EnqueueRecord, LocalApiOpError>)
    ensures
        match refused {
            None => r matches Ok(rec) && {
                &&& rec.consumed_intent == intent_request_id
                &&& rec.snapshot.job_id@ == job_id@
                &&& rec.snapshot.phase == crate::batch_job_snapshot::BatchJobPhase::Queued
                &&& rec.snapshot.actual == 0
                &&& rec.snapshot.total == crate::batch_job_snapshot::queued_total(input_count as nat)
                &&& rec.snapshot.queued_at_unix == queued_at_unix
                &&& rec.snapshot.current_file_name is None
                &&& rec.snapshot.error is None
                &&& rec.snapshot.terminal_at_unix is None
                &&& rec.store_enqueue_at == queued_at_unix
                &&& rec.response.job_id@ == job_id@
                &&& rec.response.queued
            },
            Some(f) => r matches Err(e) && {
                &&& e.status == STATUS_SERVICE_UNAVAILABLE
                &&& e.code@ == "service_unavailable"@
                &&& e.detail@ == match f {
                    QueueSendFailure::Full => "cola batch llena, reintente"@,
                    QueueSendFailure::Closed => "cola batch cerrada"@,
                }
            },
        },
{
    match refused {
        Some(f) => Err(queue_send_error(f)),
        None => {
            let snap_id = text::string_of(&text::chars_of(job_id.as_str()));
            let snapshot = crate::batch_job_snapshot::queued_snapshot(snap_id, input_count, queued_at_unix);
            Ok(EnqueueRecord {
                consumed_intent: intent_request_id,
                snapshot,
                store_enqueue_at: queued_at_unix,
                response: BatchSignResponse { job_id, queued: true },
            })
        },
    }
}

/// The error for an unknown job id.
pub fn job_not_found() -> (r: LocalApiOpError)
    ensures
        r.status == STATUS_NOT_FOUND,
        r.code@ == "job_not_found"@,
        r.detail@ == "Sin estado para este job_id."@,
{
    LocalApiOpError::not_found(String::from_str("job_not_found"), String::from_str("Sin estado para este job_id."))
}

/// Answer of the app's command that queues a batch.
#[derive(Debug)]
pub struct BatchSignIpcResponse {
    pub job_id: String,
    pub queued: bool,
}

impl BatchSignIpcResponse {
    pub fn from(r: BatchSignResponse) -> (s: Self)
        ensures
            s.job_id == r.job_id,
            s.queued == r.queued,
    {
        BatchSignIpcResponse { job_id: r.job_id, queued: r.queued }
    }
}

/// Answer of the app's command that reads a job's status.
#[derive(Debug)]
pub struct BatchJobStatusIpcResponse {
    pub job_id: String,
    pub phase: crate::batch_job_snapshot::BatchJobPhase,
    pub actual: u32,
    pub total: u32,
    pub queued_at_unix: Option<i64>,
    pub current_file_name: Option<String>,
    pub error: Option<String>,
    pub terminal_at_unix: Option<i64>,
}

impl BatchJobStatusIpcResponse {
    pub fn from(s: crate::batch_job_snapshot::BatchJobSnapshot) -> (r: Self)
        ensures
            r.job_id == s.job_id,
            r.phase == s.phase,
            r.actual == s.actual,
            r.total == s.total,
            r.queued_at_unix == s.queued_at_unix,
            r.current_file_name == s.current_file_name,
            r.error == s.error,
            r.terminal_at_unix == s.terminal_at_unix,
    {
        BatchJobStatusIpcResponse {
            job_id: s.job_id,
            phase: s.phase,
            actual: s.actual,
            total: s.total,
            queued_at_unix: s.queued_at_unix,
            current_file_name: s.current_file_name,
            error: s.error,
            terminal_at_unix: s.terminal_at_unix,
        }
    }
}

/// A pending intent as the app's wizard reads it.
#[derive(Debug)]
pub struct BatchSignIntentPayload {
    pub inputs: Vec<String>,
    pub output_dir: Option<String>,
}

/// What clearing the local API's temporary files did.
#[derive(Debug, Clone, Copy)]
pub struct ClearLocalApiTempCacheResult {
    /// The multipart staging folder was removed.
    pub intent_uploads_removed: bool,
    /// The folder of signed PDFs served for download was removed.
    pub batch_signed_removed: bool,
    /// The in-memory map of signed files was emptied.
    pub signed_job_paths_cleared: bool,
}

/// The running version, for the settings screen.
#[derive(Debug)]
pub struct AppVersionInfo {
    pub current: String,
}

/// The path of the app's SQLite database (origins, driver paths, queues).
#[derive(Debug, Clone)]
pub struct OriginDbPath(pub String);

} // verus!

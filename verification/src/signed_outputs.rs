//! What the HTTP API answers about an intent and the signed files of a job:
//! the phase of an intent, the manifest of signed files and the checks
//! before a signed file is served.

use vstd::prelude::*;
use crate::paths;
use crate::pdf_validation::MAX_BATCH_PDF_BYTES;
use crate::text;

verus! {

/// Largest signed PDF served over HTTP: the input limit plus 8 MiB for the embedded signature.
pub const MAX_SIGNED_DOWNLOAD_BYTES: u64 = 60817408;

pub open spec fn manifest_href_text(job_id: Seq<char>) -> Seq<char> {
    "/api/v1/batch/jobs/"@ + job_id + "/signed-files"@
}

pub open spec fn file_href_text(job_id: Seq<char>, index: nat) -> Seq<char> {
    "/api/v1/batch/jobs/"@ + job_id + "/files/"@ + text::decimal(index)
}

/// `/api/v1/batch/jobs/{job_id}/signed-files`.
pub fn manifest_href(job_id: &str) -> (r: String)
    ensures
        r@ == manifest_href_text(job_id@),
{
    let mut v = text::chars_of("/api/v1/batch/jobs/");
    text::append_chars(&mut v, &text::chars_of(job_id));
    text::append_chars(&mut v, &text::chars_of("/signed-files"));
    text::string_of(&v)
}

/// `/api/v1/batch/jobs/{job_id}/files/{index}`.
pub fn file_href(job_id: &str, index: usize) -> (r: String)
    ensures
        r@ == file_href_text(job_id@, index as nat),
{
    let mut v = text::chars_of("/api/v1/batch/jobs/");
    text::append_chars(&mut v, &text::chars_of(job_id));
    text::append_chars(&mut v, &text::chars_of("/files/"));
    text::append_chars(&mut v, &text::decimal_chars(index as u64));
    text::string_of(&v)
}

/// Phase of an intent as the web portal polls it.
#[derive(Debug)]
pub enum IntentStatus {
    /// Still waiting for the user to confirm in the app.
    AwaitingConfirmation,
    /// Queued as `job_id`; no signed files yet.
    Processing { job_id: String, manifest_href: String },
    /// Finished; `signed_file_count` files can be downloaded.
    Completed { job_id: String, signed_file_count: usize, manifest_href: String },
    /// Unknown, expired, or never queued (404 `intent_not_found`).
    NotFound,
}

/// The phase of an intent from what the registries hold: whether it is
/// still pending (and not expired), the job it was queued as, and the
/// number of signed outputs recorded for that job.
pub fn intent_status(awaiting: bool, job_id: Option<String>, signed_file_count: Option<usize>) -> (r:
    IntentStatus)
    ensures
        awaiting ==> r is AwaitingConfirmation,
        !awaiting ==> match job_id {
            None => r is NotFound,
            Some(j) => match signed_file_count {
                None => r matches IntentStatus::Processing { job_id: rj, manifest_href: h } && rj == j
                    && h@ == manifest_href_text(j@),
                Some(n) => r matches IntentStatus::Completed {
                    job_id: rj,
                    signed_file_count: rn,
                    manifest_href: h,
                } && rj == j && rn == n && h@ == manifest_href_text(j@),
            },
        },
{
    if awaiting {
        return IntentStatus::AwaitingConfirmation;
    }
    match job_id {
        None => IntentStatus::NotFound,
        Some(j) => {
            let h = manifest_href(j.as_str());
            match signed_file_count {
                None => IntentStatus::Processing { job_id: j, manifest_href: h },
                Some(n) => IntentStatus::Completed { job_id: j, signed_file_count: n, manifest_href: h },
            }
        },
    }
}

/// One downloadable signed file.
#[derive(Debug)]
pub struct SignedFileEntry {
    pub index: usize,
    pub filename: String,
    pub href: String,
}

/// The name a signed output is listed under: its last path component, else `signed.pdf`.
pub open spec fn listed_name(p: Seq<char>) -> Seq<char> {
    match paths::file_name_of(p) {
        Some(n) => n,
        None => "signed.pdf"@,
    }
}

pub open spec fn entry_matches(e: SignedFileEntry, job_id: Seq<char>, i: int, p: Seq<char>) -> bool {
    &&& e.index == i
    &&& e.filename@ == listed_name(p)
    &&& e.href@ == file_href_text(job_id, i as nat)
}

/// The manifest of a finished job: one entry per signed file, in order.
pub fn signed_manifest(job_id: &str, outputs: &[String]) -> (r: Vec<SignedFileEntry>)
    ensures
        r@.len() == outputs@.len(),
        forall|i: int| 0 <= i < r@.len() ==> entry_matches(#[trigger] r@[i], job_id@, i, outputs@[i]@),
{
    let mut r: Vec<SignedFileEntry> = Vec::new();
    let mut i: usize = 0;
    while i < outputs.len()
        invariant
            i <= outputs@.len(),
            r@.len() == i,
            forall|k: int| 0 <= k < i ==> entry_matches(#[trigger] r@[k], job_id@, k, outputs@[k]@),
        decreases outputs@.len() - i,
    {
        let filename = match paths::path_file_name(outputs[i].as_str()) {
            Some(n) => n,
            None => String::from_str("signed.pdf"),
        };
        r.push(SignedFileEntry { index: i, filename, href: file_href(job_id, i) });
        i += 1;
    }
    r
}

/// Why a signed file is not served.
#[derive(Debug, PartialEq, Eq, Structural, Clone, Copy)]
pub enum DownloadRefusal {
    /// No outputs recorded for the job (404 `job_outputs_not_found`).
    JobOutputsNotFound,
    /// The index is past the last output (404 `file_index_out_of_range`).
    FileIndexOutOfRange,
    /// The file is gone from disk (404).
    FileGone,
    /// The path is not a regular file (404).
    NotRegularFile,
    /// Over the download limit (413).
    TooLarge,
}

/// Which recorded output an index names.
pub fn pick_signed_output(output_count: Option<usize>, index: usize) -> (r: Result<usize, DownloadRefusal>)
    ensures
        match output_count {
            None => r == Err::<usize, DownloadRefusal>(DownloadRefusal::JobOutputsNotFound),
            Some(n) => if index < n {
                r == Ok::<usize, DownloadRefusal>(index)
            } else {
                r == Err::<usize, DownloadRefusal>(DownloadRefusal::FileIndexOutOfRange)
            },
        },
{
    match output_count {
        None => Err(DownloadRefusal::JobOutputsNotFound),
        Some(n) => if index < n {
            Ok(index)
        } else {
            Err(DownloadRefusal::FileIndexOutOfRange)
        },
    }
}

/// The checks on the file itself: it exists, is a regular file and is
/// within the download limit. `metadata` is what the file system reported
/// (`None` when it could not be read): whether it is a file, and its length.
pub fn check_signed_download(metadata: Option<(bool, u64)>) -> (r: Result<(), DownloadRefusal>)
    ensures
        match metadata {
            None => r == Err::<(), DownloadRefusal>(DownloadRefusal::FileGone),
            Some((is_file, len)) => if !is_file {
                r == Err::<(), DownloadRefusal>(DownloadRefusal::NotRegularFile)
            } else if len > MAX_SIGNED_DOWNLOAD_BYTES {
                r == Err::<(), DownloadRefusal>(DownloadRefusal::TooLarge)
            } else {
                r is Ok
            },
        },
{
    assert(MAX_SIGNED_DOWNLOAD_BYTES == MAX_BATCH_PDF_BYTES + 8 * 1024 * 1024);
    match metadata {
        None => Err(DownloadRefusal::FileGone),
        Some((is_file, len)) => {
            if !is_file {
                Err(DownloadRefusal::NotRegularFile)
            } else if len > MAX_SIGNED_DOWNLOAD_BYTES {
                Err(DownloadRefusal::TooLarge)
            } else {
                Ok(())
            }
        },
    }
}

/// The HTTP status and `error` text a refused download is answered with.
pub open spec fn refusal_reply(r: DownloadRefusal) -> (u16, Seq<char>) {
    match r {
        DownloadRefusal::JobOutputsNotFound => (404, "job_outputs_not_found"@),
        DownloadRefusal::FileIndexOutOfRange => (404, "file_index_out_of_range"@),
        DownloadRefusal::FileGone => (404, "archivo ya no disponible en disco"@),
        DownloadRefusal::NotRegularFile => (404, "no es un fichero regular"@),
        DownloadRefusal::TooLarge => (413, "pdf firmado supera el límite de descarga"@),
    }
}

pub fn download_refusal_reply(r: DownloadRefusal) -> (out: (u16, &'static str))
    ensures
        (out.0, out.1@) == refusal_reply(r),
{
    match r {
        DownloadRefusal::JobOutputsNotFound => (404, "job_outputs_not_found"),
        DownloadRefusal::FileIndexOutOfRange => (404, "file_index_out_of_range"),
        DownloadRefusal::FileGone => (404, "archivo ya no disponible en disco"),
        DownloadRefusal::NotRegularFile => (404, "no es un fichero regular"),
        DownloadRefusal::TooLarge => (413, "pdf firmado supera el límite de descarga"),
    }
}

/// Characters dropped from a served file name (they would break the header).
pub open spec fn header_unsafe(c: char) -> bool {
    c == '"' || c == '\\' || c == '\r' || c == '\n'
}

pub open spec fn header_safe() -> spec_fn(char) -> bool {
    |c: char| !header_unsafe(c)
}

/// The name a signed file is served under: its file name (else
/// `documento_firmado.pdf`) without quotes, backslashes or line breaks.
pub open spec fn served_name(file_name: Option<Seq<char>>) -> Seq<char> {
    let n = match file_name {
        Some(f) => f,
        None => "documento_firmado.pdf"@,
    };
    n.filter(header_safe())
}

pub fn safe_download_filename(file_name: Option<&str>) -> (r: String)
    ensures
        r@ == served_name(
            match file_name {
                Some(f) => Some(f@),
                None => None,
            },
        ),
{
    let n = match file_name {
        Some(f) => text::chars_of(f),
        None => text::chars_of("documento_firmado.pdf"),
    };
    let mut out: Vec<char> = Vec::new();
    let mut i: usize = 0;
    while i < n.len()
        invariant
            i <= n@.len(),
            out@ == n@.take(i as int).filter(header_safe()),
        decreases n@.len() - i,
    {
        let c = n[i];
        proof {
            reveal(Seq::filter);
            assert(n@.take(i + 1).drop_last() =~= n@.take(i as int));
            assert(n@.take(i + 1).last() == c);
        }
        if !(c == '"' || c == '\\' || c == '\r' || c == '\n') {
            out.push(c);
        }
        i += 1;
    }
    assert(n@.take(n@.len() as int) =~= n@);
    text::string_of(&out)
}

/// `attachment; filename="{name}"`.
pub fn content_disposition(safe_name: &str) -> (r: String)
    ensures
        r@ == "attachment; filename=\""@ + safe_name@ + "\""@,
{
    let mut v = text::chars_of("attachment; filename=\"");
    text::append_chars(&mut v, &text::chars_of(safe_name));
    text::append_chars(&mut v, &text::chars_of("\""));
    text::string_of(&v)
}

/// A served file name never holds a character that would end or split the header value.
pub proof fn law_served_name_is_header_safe(file_name: Option<Seq<char>>)
    ensures
        forall|i: int| 0 <= i < served_name(file_name).len() ==> !header_unsafe(
            #[trigger] served_name(file_name)[i],
        ),
{
    let n = match file_name {
        Some(f) => f,
        None => "documento_firmado.pdf"@,
    };
    broadcast use vstd::seq_lib::group_filter_ensures;
    assert forall|i: int| 0 <= i < served_name(file_name).len() implies !header_unsafe(
        #[trigger] served_name(file_name)[i],
    ) by {
        assert(header_safe()(n.filter(header_safe())[i]));
    }
}

} // verus!
